use vstd::prelude::*;
use crate::load_status::SimpleLoadStatus;

verus! {

/// Names one cluster (a context of the configuration); equal when the raw
/// strings are equal.
#[derive(Debug, PartialEq, Eq, Hash, PartialOrd, Ord)]
pub struct ClusterId {
    pub raw_value: String,
}

impl View for ClusterId {
    type V = Seq<char>;

    open spec fn view(&self) -> Seq<char> {
        self.raw_value@
    }
}

impl Clone for ClusterId {
    fn clone(&self) -> (r: Self)
        ensures
            r@ == self@,
    {
        ClusterId { raw_value: self.raw_value.clone() }
    }
}

impl ClusterId {
    pub fn new(raw_value: String) -> (r: Self)
        ensures
            r@ == raw_value@,
    {
        ClusterId { raw_value }
    }

    /// Equality by raw value.
    pub fn same_as(&self, other: &ClusterId) -> (r: bool)
        ensures
            r == (self@ == other@),
    {
        self.raw_value == other.raw_value
    }
}

/// The connection parameters of one named cluster of the configuration.
#[derive(Debug, Clone, PartialEq, Eq)]
pub struct ClusterEndpoint {
    pub server: Option<String>,
    pub proxy_url: Option<String>,
}

/// One named cluster as the configuration source lists it; the endpoint may
/// be missing, in which case the entry is unusable.
#[derive(Debug, Clone, PartialEq, Eq)]
pub struct NamedCluster {
    pub name: String,
    pub cluster: Option<ClusterEndpoint>,
}

/// A cluster the tool can connect to.
#[derive(Debug, Clone, PartialEq, Eq)]
pub struct Cluster {
    pub id: ClusterId,
    pub server: Option<String>,
    pub proxy_url: Option<String>,
    pub nickname: Option<String>,
    pub load_status: SimpleLoadStatus,
}

pub open spec fn opt_view(o: Option<String>) -> Option<Seq<char>> {
    match o {
        Some(s) => Some(s@),
        None => None,
    }
}

pub fn clone_opt_string(o: &Option<String>) -> (r: Option<String>)
    ensures
        opt_view(r) == opt_view(*o),
{
    match o {
        Some(s) => Some(s.clone()),
        None => None,
    }
}

impl SimpleLoadStatus {
    pub open spec fn same(&self, other: &SimpleLoadStatus) -> bool {
        match (self, other) {
            (SimpleLoadStatus::Initial, SimpleLoadStatus::Initial) => true,
            (SimpleLoadStatus::Loading, SimpleLoadStatus::Loading) => true,
            (SimpleLoadStatus::Loaded, SimpleLoadStatus::Loaded) => true,
            (SimpleLoadStatus::Error { error: a }, SimpleLoadStatus::Error { error: b }) => a@
                == b@,
            _ => false,
        }
    }

    pub fn duplicate(&self) -> (r: SimpleLoadStatus)
        ensures
            r.same(self),
    {
        match self {
            SimpleLoadStatus::Initial => SimpleLoadStatus::Initial,
            SimpleLoadStatus::Loading => SimpleLoadStatus::Loading,
            SimpleLoadStatus::Loaded => SimpleLoadStatus::Loaded,
            SimpleLoadStatus::Error { error } => SimpleLoadStatus::Error { error: error.clone() },
        }
    }
}

impl Cluster {
    /// Field-for-field equality of two cluster records.
    pub open spec fn same(&self, other: &Cluster) -> bool {
        &&& self.id@ == other.id@
        &&& opt_view(self.server) == opt_view(other.server)
        &&& opt_view(self.proxy_url) == opt_view(other.proxy_url)
        &&& opt_view(self.nickname) == opt_view(other.nickname)
        &&& self.load_status.same(&other.load_status)
    }

    pub fn duplicate(&self) -> (r: Cluster)
        ensures
            r.same(self),
    {
        Cluster {
            id: self.id.clone(),
            server: clone_opt_string(&self.server),
            proxy_url: clone_opt_string(&self.proxy_url),
            nickname: clone_opt_string(&self.nickname),
            load_status: self.load_status.duplicate(),
        }
    }

    /// A cluster record from a named cluster of the configuration; `None`
    /// when the entry carries no cluster parameters.
    pub fn try_from(named_cluster: NamedCluster) -> (r: Option<Cluster>)
        ensures
            named_cluster.cluster is None <==> r is None,
            r matches Some(c) ==> {
                &&& c.id@ == named_cluster.name@
                &&& opt_view(c.server) == opt_view(named_cluster.cluster.unwrap().server)
                &&& opt_view(c.proxy_url) == opt_view(named_cluster.cluster.unwrap().proxy_url)
                &&& c.nickname is None
                &&& c.load_status is Initial
            },
    {
        match named_cluster.cluster {
            None => None,
            Some(endpoint) => Some(
                Cluster {
                    id: ClusterId::new(named_cluster.name),
                    server: endpoint.server,
                    proxy_url: endpoint.proxy_url,
                    nickname: None,
                    load_status: SimpleLoadStatus::Initial,
                },
            ),
        }
    }
}

pub open spec fn id_opt_view(o: Option<ClusterId>) -> Option<Seq<char>> {
    match o {
        Some(c) => Some(c@),
        None => None,
    }
}

/// The ids of a sequence of clusters, in order.
pub open spec fn ids_of(s: Seq<Cluster>) -> Seq<Seq<char>> {
    s.map_values(|c: Cluster| c.id@)
}

/// `c` is the record of the named cluster at `j`, and no later entry with
/// parameters has that name.
pub open spec fn built_from(named: Seq<NamedCluster>, j: int, c: Cluster) -> bool {
    &&& 0 <= j < named.len()
    &&& named[j].cluster is Some
    &&& c.id@ == named[j].name@
    &&& opt_view(c.server) == opt_view(named[j].cluster.unwrap().server)
    &&& opt_view(c.proxy_url) == opt_view(named[j].cluster.unwrap().proxy_url)
    &&& c.nickname is None
    &&& c.load_status is Initial
    &&& forall|k: int| j < k < named.len() ==> named[k].name@ != named[j].name@ || named[k].cluster is None
}

/// Each entry was built from the named cluster at its witness position, at
/// or after `lo`.
pub open spec fn sourced(named: Seq<NamedCluster>, witness: Seq<int>, entries: Seq<Cluster>, lo: int) -> bool {
    &&& witness.len() == entries.len()
    &&& forall|i: int| #![trigger entries[i]] #![trigger witness[i]] 0 <= i < entries.len() ==> lo <= witness[i] && built_from(named, witness[i], entries[i])
}

/// `c` is the record of some named cluster, in the sense of `built_from`.
pub open spec fn has_source(named: Seq<NamedCluster>, c: Cluster) -> bool {
    exists|j: int| built_from(named, j, c)
}

/// Ids are unique.
pub open spec fn unique_ids(s: Seq<Cluster>) -> bool {
    forall|i: int, j: int| 0 <= i < j < s.len() ==> s[i].id@ != s[j].id@
}

/// The cluster preferred for a surface: the explicit selection when it names
/// a known cluster, otherwise the configuration's current cluster when that
/// is known, otherwise none.
pub open spec fn resolve(
    ids: Seq<Seq<char>>,
    current: Option<Seq<char>>,
    explicit: Option<Seq<char>>,
) -> Option<Seq<char>> {
    if explicit is Some && ids.contains(explicit.unwrap()) {
        explicit
    } else if current is Some && ids.contains(current.unwrap()) {
        current
    } else {
        None
    }
}

/// The set of known clusters, parsed from the configuration source, and the
/// configuration's current cluster.
#[derive(Debug, Clone)]
pub struct Clusters {
    clusters: Vec<Cluster>,
    current_context: Option<String>,
}

impl Clusters {
    pub closed spec fn entries(&self) -> Seq<Cluster> {
        self.clusters@
    }

    pub closed spec fn current(&self) -> Option<Seq<char>> {
        opt_view(self.current_context)
    }

    pub open spec fn ids(&self) -> Seq<Seq<char>> {
        ids_of(self.entries())
    }

    pub closed spec fn wf(&self) -> bool {
        unique_ids(self.clusters@)
    }

    /// An empty cluster set, as used when the configuration source is missing
    /// or unreadable.
    pub fn empty() -> (r: Clusters)
        ensures
            r.wf(),
            r.entries().len() == 0,
            r.current() is None,
    {
        Clusters { clusters: Vec::new(), current_context: None }
    }

    /// Builds the cluster set from the named clusters of a configuration and
    /// its current context: entries without parameters are skipped, and of
    /// two entries with one name the later one stays.
    pub fn from_config(named: Vec<NamedCluster>, current_context: Option<String>) -> (r: Clusters)
        ensures
            r.wf(),
            r.current() == opt_view(current_context),
            forall|k: Seq<char>|
                r.ids().contains(k) <==> exists|i: int|
                    0 <= i < named@.len() && named@[i].name@ == k && named@[i].cluster is Some,
            forall|i: int| 0 <= i < r.entries().len() ==> has_source(named@, #[trigger] r.entries()[i]),
    {
        let mut r = Clusters { clusters: Vec::new(), current_context };
        let mut named = named;
        let ghost orig = named@;
        let ghost mut witness: Seq<int> = Seq::empty();
        while named.len() > 0
            invariant
                r.wf(),
                r.current() == opt_view(current_context),
                named@.len() <= orig.len(),
                named@ == orig.subrange(0, named@.len() as int),
                forall|k: Seq<char>|
                    r.ids().contains(k) <==> exists|i: int|
                        named@.len() <= i < orig.len() && orig[i].name@ == k && orig[i].cluster
                            is Some,
                sourced(orig, witness, r.entries(), named@.len() as int),
            decreases named.len(),
        {
            let ghost idx = named@.len() - 1;
            let entry = named.pop().unwrap();
            proof {
                assert(entry == orig[idx]);
            }
            let ghost has = entry.cluster is Some;
            let ghost name = entry.name@;
            let ghost before = r.entries();
            let ghost was_known = r.ids().contains(name);
            match Cluster::try_from(entry) {
                None => {
                    proof {
                        assert forall|i: int| 0 <= i < r.entries().len() implies named@.len() <= witness[i] && built_from(orig, witness[i], #[trigger] r.entries()[i]) by {
                            assert(built_from(orig, witness[i], r.entries()[i]));
                        }
                    }
                },
                Some(cluster) => {
                    proof {
                        if !was_known {
                            assert forall|k: int| idx < k < orig.len() implies orig[k].name@ != orig[idx].name@ || orig[k].cluster is None by {
                                if orig[k].name@ == name && orig[k].cluster is Some {
                                    assert(r.ids().contains(name));
                                }
                            }
                            assert(built_from(orig, idx, cluster));
                        }
                    }
                    r.insert_if_absent(cluster);
                    proof {
                        if !was_known {
                            witness = witness.push(idx);
                        }
                        assert forall|i: int| 0 <= i < r.entries().len() implies named@.len() <= witness[i] && built_from(orig, witness[i], #[trigger] r.entries()[i]) by {
                            if i < before.len() {
                                assert(r.entries()[i] == before[i]);
                                assert(built_from(orig, witness[i], before[i]));
                            } else {
                                assert(r.entries()[i] == cluster);
                            }
                        }
                    }
                },
            }
            proof {
                assert(named@ =~= orig.subrange(0, named@.len() as int));
                assert forall|k: Seq<char>|
                    r.ids().contains(k) <==> exists|i: int|
                        named@.len() <= i < orig.len() && orig[i].name@ == k && orig[i].cluster
                            is Some by {
                    if k == name && has {
                        assert(orig[idx].name@ == k);
                    }
                }
                assert(sourced(orig, witness, r.entries(), named@.len() as int)) by {
                    let es = r.entries();
                    let lo = named@.len() as int;
                    assert forall|i: int| 0 <= i < es.len() implies lo <= witness[i] && built_from(orig, witness[i], #[trigger] es[i]) by {
                        assert(built_from(orig, witness[i], r.entries()[i]));
                        assert(named@.len() <= witness[i]);
                    }
                }
            }
        }
        proof {
            assert forall|i: int| 0 <= i < r.entries().len() implies has_source(orig, #[trigger] r.entries()[i]) by {
                assert(built_from(orig, witness[i], r.entries()[i]));
            }
        }
        r
    }

    /// Adds a cluster unless one with its id is already there; the reversed
    /// traversal in `from_config` makes the later entry win.
    fn insert_if_absent(&mut self, cluster: Cluster)
        requires
            old(self).wf(),
        ensures
            final(self).wf(),
            final(self).current() == old(self).current(),
            forall|k: Seq<char>|
                final(self).ids().contains(k) <==> (old(self).ids().contains(k) || k
                    == cluster.id@),
            old(self).ids().contains(cluster.id@) ==> final(self).entries() == old(self).entries(),
            !old(self).ids().contains(cluster.id@) ==> final(self).entries() == old(self).entries().push(cluster),
    {
        match self.index_of(&cluster.id) {
            Some(_) => {},
            None => {
                let ghost before = self.clusters@;
                proof {
                    assert forall|i: int| 0 <= i < before.len() implies before[i].id@
                        != cluster.id@ by {
                        assert(ids_of(before)[i] == before[i].id@);
                    }
                }
                self.clusters.push(cluster);
                proof {
                    assert forall|k: Seq<char>|
                        self.ids().contains(k) <==> (ids_of(before).contains(k) || k
                            == cluster.id@) by {
                        if ids_of(before).contains(k) {
                            let i = choose|i: int|
                                0 <= i < ids_of(before).len() && ids_of(before)[i] == k;
                            assert(self.ids()[i] == k);
                        }
                        if k == cluster.id@ {
                            assert(self.ids()[before.len() as int] == k);
                        }
                        if self.ids().contains(k) && k != cluster.id@ {
                            let i = choose|i: int|
                                0 <= i < self.ids().len() && self.ids()[i] == k;
                            assert(ids_of(before)[i] == k);
                        }
                    }
                }
            },
        }
    }

    /// The position of the cluster with the given id, if it is known.
    fn index_of(&self, id: &ClusterId) -> (r: Option<usize>)
        requires
            self.wf(),
        ensures
            r is None <==> !self.ids().contains(id@),
            r matches Some(i) ==> i < self.entries().len() && self.entries()[i as int].id@ == id@,
    {
        let mut i: usize = 0;
        while i < self.clusters.len()
            invariant
                i <= self.clusters@.len(),
                forall|j: int| 0 <= j < i ==> self.clusters@[j].id@ != id@,
            decreases self.clusters@.len() - i,
        {
            if self.clusters[i].id.same_as(id) {
                proof {
                    assert(self.ids()[i as int] == id@);
                }
                return Some(i);
            }
            i = i + 1;
        }
        proof {
            if self.ids().contains(id@) {
                let j = choose|j: int| 0 <= j < self.ids().len() && self.ids()[j] == id@;
                assert(self.clusters@[j].id@ == id@);
            }
        }
        None
    }

    /// Whether a cluster with the given id is known.
    pub fn contains(&self, id: &ClusterId) -> (r: bool)
        requires
            self.wf(),
        ensures
            r == self.ids().contains(id@),
    {
        self.index_of(id).is_some()
    }

    /// A copy of the cluster with the given id.
    pub fn get_cluster(&self, id: &ClusterId) -> (r: Option<Cluster>)
        requires
            self.wf(),
        ensures
            r is None <==> !self.ids().contains(id@),
            r matches Some(c) ==> exists|i: int|
                0 <= i < self.entries().len() && self.entries()[i].id@ == id@ && c.same(
                    &self.entries()[i],
                ),
    {
        match self.index_of(id) {
            Some(i) => Some(self.clusters[i].duplicate()),
            None => None,
        }
    }

    /// Sets the load status of the cluster with the given id; returns whether
    /// the cluster is known.
    pub fn set_load_status(&mut self, id: &ClusterId, status: SimpleLoadStatus) -> (r: bool)
        requires
            old(self).wf(),
        ensures
            final(self).wf(),
            r == old(self).ids().contains(id@),
            final(self).ids() == old(self).ids(),
            final(self).current() == old(self).current(),
            forall|i: int|
                0 <= i < old(self).entries().len() && old(self).entries()[i].id@ != id@ ==> final(self).entries()[i] == old(self).entries()[i],
            forall|i: int|
                0 <= i < old(self).entries().len() && old(self).entries()[i].id@ == id@ ==> final(self).entries()[i].load_status == status,
    {
        match self.index_of(id) {
            Some(i) => {
                let ghost before = self.clusters@;
                let mut c = self.clusters.remove(i);
                c.load_status = status;
                self.clusters.insert(i, c);
                proof {
                    assert(self.clusters@ =~= before.update(i as int, c));
                    assert(self.ids() =~= ids_of(before));
                    assert forall|j: int|
                        0 <= j < before.len() && before[j].id@ == id@ implies j == i by {
                        if j < i {
                            assert(before[j].id@ != before[i as int].id@);
                        } else if j > i {
                            assert(before[i as int].id@ != before[j].id@);
                        }
                    }
                }
                true
            },
            None => {
                proof {
                    assert forall|j: int|
                        0 <= j < self.entries().len() implies self.entries()[j].id@ != id@ by {
                        assert(self.ids()[j] == self.entries()[j].id@);
                    }
                }
                false
            },
        }
    }

    /// A known cluster with this id is marked loaded.
    pub open spec fn is_loaded_spec(&self, id: Seq<char>) -> bool {
        exists|i: int|
            0 <= i < self.entries().len() && self.entries()[i].id@ == id && self.entries()[i].load_status is Loaded
    }

    /// Whether the cluster with the given id is known and marked loaded.
    pub fn is_loaded(&self, id: &ClusterId) -> (r: bool)
        requires
            self.wf(),
        ensures
            r == self.is_loaded_spec(id@),
    {
        match self.index_of(id) {
            Some(i) => match self.clusters[i].load_status {
                SimpleLoadStatus::Loaded => true,
                _ => {
                    proof {
                        assert forall|j: int|
                            0 <= j < self.entries().len() && self.entries()[j].id@
                                == id@ implies !(self.entries()[j].load_status is Loaded) by {
                            if j != i {
                                if j < i {
                                    assert(self.clusters@[j].id@ != self.clusters@[i as int].id@);
                                } else {
                                    assert(self.clusters@[i as int].id@ != self.clusters@[j].id@);
                                }
                            }
                        }
                    }
                    false
                },
            },
            None => {
                proof {
                    assert forall|j: int|
                        0 <= j < self.entries().len() implies self.entries()[j].id@ != id@ by {
                        assert(self.ids()[j] == self.entries()[j].id@);
                    }
                }
                false
            },
        }
    }

    /// The configuration's current cluster, when it names a known cluster.
    pub fn current_context_cluster_id(&self) -> (r: Option<ClusterId>)
        requires
            self.wf(),
        ensures
            match r {
                Some(c) => self.current() == Some(c@) && self.ids().contains(c@),
                None => self.current() is None || !self.ids().contains(self.current().unwrap()),
            },
    {
        match &self.current_context {
            None => None,
            Some(name) => {
                let id = ClusterId::new(name.clone());
                if self.contains(&id) {
                    Some(id)
                } else {
                    None
                }
            },
        }
    }

    /// Resolves the cluster a surface should show: the explicit selection if
    /// it names a known cluster, otherwise the configuration's current
    /// cluster if known, otherwise none. Changes nothing.
    pub fn selected_or_context_cluster(&self, selected_cluster: Option<ClusterId>) -> (r: Option<
        ClusterId,
    >)
        requires
            self.wf(),
        ensures
            r matches Some(c) ==> resolve(self.ids(), self.current(), id_opt_view(selected_cluster)) == Some(c@),
            r is None ==> resolve(self.ids(), self.current(), id_opt_view(selected_cluster)) is None,
    {
        match selected_cluster {
            Some(selected) => {
                if self.contains(&selected) {
                    Some(selected)
                } else {
                    self.current_context_cluster_id()
                }
            },
            None => self.current_context_cluster_id(),
        }
    }

    /// Copies of all known clusters.
    pub fn clusters(&self) -> (r: Vec<Cluster>)
        ensures
            r@.len() == self.entries().len(),
            forall|i: int| 0 <= i < r@.len() ==> r@[i].same(&self.entries()[i]),
    {
        let mut r: Vec<Cluster> = Vec::new();
        let mut i: usize = 0;
        while i < self.clusters.len()
            invariant
                i <= self.clusters@.len(),
                r@.len() == i,
                forall|j: int| 0 <= j < i ==> r@[j].same(&self.clusters@[j]),
            decreases self.clusters@.len() - i,
        {
            r.push(self.clusters[i].duplicate());
            i = i + 1;
        }
        r
    }
}

} // verus!
