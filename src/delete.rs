use vstd::prelude::*;
use crate::cache::{CacheMessage, ResourceCache};
use crate::pod::{Pod, PodId};
use crate::resource::{Resource, has_key, key_index, lemma_key_index};
use crate::snapshot::Snapshot;
use crate::snapshot::models;

verus! {

/// The requested ids of one namespace, deleted with one request.
pub struct NamespaceGroup {
    pub namespace: String,
    pub ids: Vec<PodId>,
}

/// How a bulk delete proceeds.
pub enum DeletePlan {
    /// Nothing was asked for.
    Nothing,
    /// One id was asked for and is cached: a direct delete of that pod.
    Single { namespace: String, id: PodId },
    /// One request per namespace, sent concurrently, and a warning for each
    /// requested id that is not cached.
    Grouped { groups: Vec<NamespaceGroup>, not_found: Vec<PodId> },
}

/// Why a delete cannot start.
#[derive(Debug, Clone, PartialEq, Eq)]
pub enum DeleteError {
    /// The pods are not loaded, so no id can be resolved.
    NotLoaded,
    /// The one requested id is not cached.
    NotFound { id: PodId },
}

/// The namespace of the cached pod with key `id`.
pub open spec fn ns_of(entries: Seq<Pod>, id: Seq<char>) -> Seq<char> {
    entries[key_index(entries, id)].namespace@
}

/// The requested ids that are cached in namespace `ns`, in request order.
pub open spec fn ids_in_ns(ids: Seq<PodId>, entries: Seq<Pod>, ns: Seq<char>) -> Seq<Seq<char>>
    decreases ids.len(),
{
    if ids.len() == 0 {
        Seq::empty()
    } else if has_key(entries, ids.last()@) && ns_of(entries, ids.last()@) == ns {
        ids_in_ns(ids.drop_last(), entries, ns).push(ids.last()@)
    } else {
        ids_in_ns(ids.drop_last(), entries, ns)
    }
}

/// The requested ids that are not cached, in request order.
pub open spec fn missing(ids: Seq<PodId>, entries: Seq<Pod>) -> Seq<Seq<char>>
    decreases ids.len(),
{
    if ids.len() == 0 {
        Seq::empty()
    } else if !has_key(entries, ids.last()@) {
        missing(ids.drop_last(), entries).push(ids.last()@)
    } else {
        missing(ids.drop_last(), entries)
    }
}

/// The namespaces of the cached requested ids, each once, in order of first
/// appearance.
pub open spec fn namespaces(ids: Seq<PodId>, entries: Seq<Pod>) -> Seq<Seq<char>>
    decreases ids.len(),
{
    if ids.len() == 0 {
        Seq::empty()
    } else {
        let prev = namespaces(ids.drop_last(), entries);
        if has_key(entries, ids.last()@) && !prev.contains(ns_of(entries, ids.last()@)) {
            prev.push(ns_of(entries, ids.last()@))
        } else {
            prev
        }
    }
}

pub open spec fn id_views(ids: Seq<PodId>) -> Seq<Seq<char>> {
    ids.map_values(|i: PodId| i@)
}

proof fn lemma_absent_ns_empty(ids: Seq<PodId>, entries: Seq<Pod>, ns: Seq<char>)
    requires
        !namespaces(ids, entries).contains(ns),
    ensures
        ids_in_ns(ids, entries, ns).len() == 0,
    decreases ids.len(),
{
    if ids.len() > 0 {
        let prev = namespaces(ids.drop_last(), entries);
        if has_key(entries, ids.last()@) && !prev.contains(ns_of(entries, ids.last()@)) {
            assert(namespaces(ids, entries).last() == ns_of(entries, ids.last()@));
            if prev.contains(ns) {
                let j = choose|j: int| 0 <= j < prev.len() && prev[j] == ns;
                assert(namespaces(ids, entries)[j] == ns);
            }
        }
        lemma_absent_ns_empty(ids.drop_last(), entries, ns);
    }
}

proof fn lemma_namespaces_distinct(ids: Seq<PodId>, entries: Seq<Pod>)
    ensures
        forall|i: int, j: int|
            0 <= i < namespaces(ids, entries).len() && 0 <= j < namespaces(ids, entries).len() && i != j
                ==> namespaces(ids, entries)[i] != namespaces(ids, entries)[j],
    decreases ids.len(),
{
    if ids.len() > 0 {
        lemma_namespaces_distinct(ids.drop_last(), entries);
        let prev = namespaces(ids.drop_last(), entries);
        let cur = namespaces(ids, entries);
        if has_key(entries, ids.last()@) && !prev.contains(ns_of(entries, ids.last()@)) {
            assert forall|i: int, j: int| 0 <= i < cur.len() && 0 <= j < cur.len() && i != j implies cur[i] != cur[j] by {
                if i == prev.len() {
                    assert(prev[j] == cur[j]);
                } else if j == prev.len() {
                    assert(prev[i] == cur[i]);
                }
            }
        }
    }
}

fn find_group(groups: &Vec<NamespaceGroup>, namespace: &String) -> (r: Option<usize>)
    ensures
        r is None ==> forall|j: int| 0 <= j < groups@.len() ==> groups@[j].namespace@ != namespace@,
        r matches Some(i) ==> i < groups@.len() && groups@[i as int].namespace@ == namespace@,
{
    let mut i: usize = 0;
    while i < groups.len()
        invariant
            i <= groups@.len(),
            forall|j: int| 0 <= j < i ==> groups@[j].namespace@ != namespace@,
        decreases groups@.len() - i,
    {
        if groups[i].namespace.eq(namespace) {
            return Some(i);
        }
        i = i + 1;
    }
    None
}

/// Plans a bulk delete of the given pods against the cache. Nothing asked:
/// nothing to do. One id: a direct delete of that pod, or an error when it is
/// not cached. Several ids: the cached ones grouped by namespace, one group
/// per namespace in order of first appearance, and the others listed as not
/// found. Pods not loaded: an error.
pub fn plan_delete(cache: &ResourceCache<Pod>, ids: Vec<PodId>) -> (r: Result<DeletePlan, DeleteError>)
    requires
        cache.wf(),
    ensures
        ids@.len() == 0 ==> r matches Ok(DeletePlan::Nothing),
        ids@.len() > 0 && !(cache.status() is Loaded) ==> r matches Err(DeleteError::NotLoaded),
        ids@.len() == 1 && cache.status() is Loaded ==> match r {
            Ok(DeletePlan::Single { namespace, id }) => has_key(cache.entries(), ids@[0]@) && id@ == ids@[0]@
                && namespace@ == ns_of(cache.entries(), ids@[0]@),
            Err(DeleteError::NotFound { id }) => !has_key(cache.entries(), ids@[0]@) && id@ == ids@[0]@,
            _ => false,
        },
        ids@.len() > 1 && cache.status() is Loaded ==> match r {
            Ok(DeletePlan::Grouped { groups, not_found }) => {
                &&& groups@.len() == namespaces(ids@, cache.entries()).len()
                &&& forall|g: int| 0 <= g < groups@.len() ==> groups@[g].namespace@ == namespaces(ids@, cache.entries())[g]
                    && id_views(groups@[g].ids@) == ids_in_ns(ids@, cache.entries(), groups@[g].namespace@)
                &&& id_views(not_found@) == missing(ids@, cache.entries())
            },
            _ => false,
        },
{
    if ids.len() == 0 {
        return Ok(DeletePlan::Nothing);
    }
    if !cache.is_loaded() {
        return Err(DeleteError::NotLoaded);
    }
    let ghost entries = cache.entries();
    if ids.len() == 1 {
        return match cache.get(&ids[0].0) {
            Some(pod) => Ok(DeletePlan::Single { namespace: pod.namespace.clone(), id: ids[0].duplicate() }),
            None => Err(DeleteError::NotFound { id: ids[0].duplicate() }),
        };
    }
    let mut groups: Vec<NamespaceGroup> = Vec::new();
    let mut not_found: Vec<PodId> = Vec::new();
    let mut i: usize = 0;
    while i < ids.len()
        invariant
            cache.wf(),
            cache.status() is Loaded,
            entries == cache.entries(),
            i <= ids@.len(),
            groups@.len() == namespaces(ids@.subrange(0, i as int), entries).len(),
            forall|g: int| 0 <= g < groups@.len() ==> groups@[g].namespace@ == namespaces(ids@.subrange(0, i as int), entries)[g]
                && id_views(groups@[g].ids@) == ids_in_ns(ids@.subrange(0, i as int), entries, groups@[g].namespace@),
            id_views(not_found@) == missing(ids@.subrange(0, i as int), entries),
        decreases ids@.len() - i,
    {
        let ghost prefix = ids@.subrange(0, i as int);
        let ghost next = ids@.subrange(0, i + 1);
        proof {
            assert(next.drop_last() =~= prefix);
            assert(next.last() == ids@[i as int]);
        }
        let id = &ids[i];
        match cache.get(&id.0) {
            None => {
                let ghost before = not_found@;
                not_found.push(id.duplicate());
                proof {
                    assert(!has_key(entries, id@));
                    assert(id_views(not_found@) =~= id_views(before).push(id@));
                    assert(missing(next, entries) == missing(prefix, entries).push(id@));
                    assert(namespaces(next, entries) == namespaces(prefix, entries));
                    assert forall|g: int| 0 <= g < groups@.len() implies groups@[g].namespace@ == namespaces(next, entries)[g]
                        && id_views(groups@[g].ids@) == ids_in_ns(next, entries, groups@[g].namespace@) by {
                        assert(ids_in_ns(next, entries, groups@[g].namespace@) == ids_in_ns(prefix, entries, groups@[g].namespace@));
                    }
                }
            },
            Some(pod) => {
                let ghost ns = pod.namespace@;
                proof {
                    lemma_key_index(entries, id@);
                    assert(ns == ns_of(entries, id@));
                    lemma_namespaces_distinct(prefix, entries);
                }
                match find_group(&groups, &pod.namespace) {
                    Some(g) => {
                        let ghost before = groups@;
                        let mut group = groups.remove(g);
                        let ghost gids = group.ids@;
                        group.ids.push(id.duplicate());
                        groups.insert(g, group);
                        proof {
                            assert(missing(next, entries) == missing(prefix, entries));
                            assert(id_views(group.ids@) =~= id_views(gids).push(id@));
                            assert(namespaces(prefix, entries).contains(ns)) by {
                                assert(namespaces(prefix, entries)[g as int] == ns);
                            }
                            assert(namespaces(next, entries) == namespaces(prefix, entries));
                            assert forall|h: int| 0 <= h < groups@.len() implies groups@[h].namespace@ == namespaces(next, entries)[h]
                                && id_views(groups@[h].ids@) == ids_in_ns(next, entries, groups@[h].namespace@) by {
                                assert(before[h].namespace@ == namespaces(prefix, entries)[h]);
                                assert(id_views(before[h].ids@) == ids_in_ns(prefix, entries, before[h].namespace@));
                                if h != g {
                                    assert(groups@[h] == before[h]);
                                    assert(namespaces(prefix, entries)[h] != namespaces(prefix, entries)[g as int]);
                                    assert(before[h].namespace@ != ns);
                                    assert(ids_in_ns(next, entries, before[h].namespace@) == ids_in_ns(prefix, entries, before[h].namespace@));
                                } else {
                                    assert(groups@[h] == group);
                                    assert(gids == before[g as int].ids@);
                                    assert(group.namespace@ == before[g as int].namespace@);
                                    assert(ids_in_ns(next, entries, ns) == ids_in_ns(prefix, entries, ns).push(id@));
                                }
                            }
                        }
                    },
                    None => {
                        let mut first: Vec<PodId> = Vec::new();
                        first.push(id.duplicate());
                        let ghost before = groups@;
                        groups.push(NamespaceGroup { namespace: pod.namespace.clone(), ids: first });
                        proof {
                            if namespaces(prefix, entries).contains(ns) {
                                let j = choose|j: int| 0 <= j < namespaces(prefix, entries).len() && namespaces(prefix, entries)[j] == ns;
                                assert(before[j].namespace@ == ns);
                            }
                            lemma_absent_ns_empty(prefix, entries, ns);
                            assert(missing(next, entries) == missing(prefix, entries));
                            assert(namespaces(next, entries) == namespaces(prefix, entries).push(ns));
                            assert(id_views(first@) =~= ids_in_ns(next, entries, ns));
                            assert forall|h: int| 0 <= h < groups@.len() implies groups@[h].namespace@ == namespaces(next, entries)[h]
                                && id_views(groups@[h].ids@) == ids_in_ns(next, entries, groups@[h].namespace@) by {
                                if h < before.len() {
                                    assert(groups@[h] == before[h]);
                                    assert(before[h].namespace@ != ns);
                                    assert(ids_in_ns(next, entries, before[h].namespace@) == ids_in_ns(prefix, entries, before[h].namespace@));
                                }
                            }
                        }
                    },
                }
            },
        }
        i = i + 1;
    }
    proof {
        assert(ids@.subrange(0, ids@.len() as int) =~= ids@);
    }
    Ok(DeletePlan::Grouped { groups, not_found })
}

/// The text of the warning for an id that is not cached.
pub open spec fn not_found_text(id: Seq<char>) -> Seq<char> {
    "Pod with id ("@ + id + ") not found, unable to delete"@
}

/// The text of the error for an id whose delete failed.
pub open spec fn delete_failed_text(id: Seq<char>, error: Seq<char>) -> Seq<char> {
    "Unable to delete pod with id ("@ + id + "), error: "@ + error
}

/// `m` is a warning with the given text.
pub open spec fn is_warning(m: CacheMessage<Pod>, text: Seq<char>) -> bool {
    m matches CacheMessage::ToastWarningMessage { message } && message@ == text
}

/// `m` is an error with the given text.
pub open spec fn is_error(m: CacheMessage<Pod>, text: Seq<char>) -> bool {
    m matches CacheMessage::ToastErrorMessage { message } && message@ == text
}

/// The warning for an id that is not cached.
pub fn not_found_message(id: &PodId) -> (m: CacheMessage<Pod>)
    ensures
        m matches CacheMessage::ToastWarningMessage { message } && message@ == not_found_text(id@),
{
    let mut message = String::from_str("Pod with id (");
    message.append(id.0.as_str());
    message.append(") not found, unable to delete");
    CacheMessage::ToastWarningMessage { message }
}

/// The error for an id whose delete failed.
pub fn delete_failed_message(id: &PodId, error: &String) -> (m: CacheMessage<Pod>)
    ensures
        m matches CacheMessage::ToastErrorMessage { message } && message@ == delete_failed_text(id@, error@),
{
    let mut message = String::from_str("Unable to delete pod with id (");
    message.append(id.0.as_str());
    message.append("), error: ");
    message.append(error.as_str());
    CacheMessage::ToastErrorMessage { message }
}

/// The notifications of a bulk delete: one warning per id that was not
/// cached, then one error per id whose delete failed, in order. Successful
/// deletes send nothing: the cache learns of them from the watch stream.
pub fn delete_report(not_found: &Vec<PodId>, failures: &Vec<(PodId, String)>) -> (msgs: Vec<CacheMessage<Pod>>)
    ensures
        msgs@.len() == not_found@.len() + failures@.len(),
        forall|i: int| 0 <= i < not_found@.len() ==> is_warning(msgs@[i], not_found_text(not_found@[i]@)),
        forall|i: int| 0 <= i < failures@.len() ==> is_error(msgs@[not_found@.len() + i], delete_failed_text(failures@[i].0@, failures@[i].1@)),
{
    let mut msgs: Vec<CacheMessage<Pod>> = Vec::new();
    let mut i: usize = 0;
    while i < not_found.len()
        invariant
            i <= not_found@.len(),
            msgs@.len() == i,
            forall|j: int| 0 <= j < i ==> is_warning(msgs@[j], not_found_text(not_found@[j]@)),
        decreases not_found@.len() - i,
    {
        msgs.push(not_found_message(&not_found[i]));
        i = i + 1;
    }
    let mut k: usize = 0;
    while k < failures.len()
        invariant
            k <= failures@.len(),
            msgs@.len() == not_found@.len() + k,
            forall|j: int| 0 <= j < not_found@.len() ==> is_warning(msgs@[j], not_found_text(not_found@[j]@)),
            forall|j: int| 0 <= j < k ==> is_error(msgs@[not_found@.len() + j], delete_failed_text(failures@[j].0@, failures@[j].1@)),
        decreases failures@.len() - k,
    {
        msgs.push(delete_failed_message(&failures[k].0, &failures[k].1));
        k = k + 1;
    }
    msgs
}

} // verus!
