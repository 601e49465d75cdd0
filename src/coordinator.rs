use vstd::prelude::*;
use crate::callback_queue::{CallbackQueue, QueueState, emit_all, emit_all_delivers, emit_step, emit_delivers, attach_step};
use crate::cluster::{Cluster, ClusterId, Clusters, resolve, id_opt_view};
use crate::connection::{ConnectionRegistry, EnsureStep, Slot, ensure_slot, ensure_step, finish_slot};
use crate::load_status::SimpleLoadStatus;

verus! {

/// A notification of the coordinator to the user interface.
pub enum GlobalMessage {
    RefreshClusters,
    ClustersLoaded { clusters: Vec<Cluster> },
    LoadingClient,
    ClientLoaded,
    ClientLoadError { error: String },
}

/// The kind of a coordinator notification, with its error text.
pub enum MessageKind {
    RefreshClusters,
    ClustersLoaded,
    LoadingClient,
    ClientLoaded,
    ClientLoadError(Seq<char>),
}

pub open spec fn kind_of(m: GlobalMessage) -> MessageKind {
    match m {
        GlobalMessage::RefreshClusters => MessageKind::RefreshClusters,
        GlobalMessage::ClustersLoaded { .. } => MessageKind::ClustersLoaded,
        GlobalMessage::LoadingClient => MessageKind::LoadingClient,
        GlobalMessage::ClientLoaded => MessageKind::ClientLoaded,
        GlobalMessage::ClientLoadError { error } => MessageKind::ClientLoadError(error@),
    }
}

pub open spec fn kinds(s: Seq<GlobalMessage>) -> Seq<MessageKind> {
    s.map_values(|m: GlobalMessage| kind_of(m))
}

/// `msgs` were emitted, in order, from queue state `before`: the queue is
/// now in state `after` and `delivered` went to the listener at once.
pub open spec fn emitted(
    before: QueueState<GlobalMessage>,
    after: QueueState<GlobalMessage>,
    delivered: Seq<GlobalMessage>,
    msgs: Seq<GlobalMessage>,
) -> bool {
    after == emit_all(before, msgs) && delivered == emit_all_delivers(before, msgs)
}

/// Owns the known clusters, the connection registry and the notification
/// queue; decides what each request and each build outcome does to them and
/// what the user interface is told.
pub struct Coordinator<C> {
    clusters: Clusters,
    connections: ConnectionRegistry<C>,
    queue: CallbackQueue<GlobalMessage>,
}

impl<C> Coordinator<C> {
    pub closed spec fn clusters_view(&self) -> Clusters {
        self.clusters
    }

    pub closed spec fn slot(&self, k: Seq<char>) -> Option<Slot<C>> {
        self.connections.slot(k)
    }

    pub closed spec fn queue(&self) -> QueueState<GlobalMessage> {
        self.queue.state()
    }

    pub closed spec fn wf(&self) -> bool {
        self.clusters.wf() && self.connections.wf()
    }

    /// A coordinator with the given clusters, no connection and no listener.
    pub fn new(clusters: Clusters) -> (r: Self)
        requires
            clusters.wf(),
        ensures
            r.wf(),
            r.clusters_view() == clusters,
            forall|k: Seq<char>| r.slot(k) is None,
            r.queue() == (QueueState::<GlobalMessage> { attached: false, pending: Seq::empty() }),
    {
        Coordinator { clusters, connections: ConnectionRegistry::new(), queue: CallbackQueue::new() }
    }

    fn emit(&mut self, m: GlobalMessage, out: &mut Vec<GlobalMessage>)
        ensures
            final(self).queue() == emit_step(old(self).queue(), m),
            final(out)@ == old(out)@ + emit_delivers(old(self).queue(), m),
            final(self).clusters_view() == old(self).clusters_view(),
            final(self).connections == old(self).connections,
    {
        match self.queue.emit(m) {
            Some(d) => {
                out.push(d);
                proof {
                    assert(out@ =~= old(out)@ + seq![m]);
                }
            },
            None => {
                proof {
                    assert(out@ =~= old(out)@ + Seq::<GlobalMessage>::empty());
                }
            },
        }
    }

    proof fn lemma_emit_more(s: QueueState<GlobalMessage>, msgs: Seq<GlobalMessage>, m: GlobalMessage)
        ensures
            emit_all(s, msgs.push(m)) == emit_step(emit_all(s, msgs), m),
            emit_all_delivers(s, msgs.push(m)) == emit_all_delivers(s, msgs) + emit_delivers(emit_all(s, msgs), m),
    {
        assert(msgs.push(m).drop_last() =~= msgs);
    }

    /// Attaches the listener: every buffered notification is handed over,
    /// oldest first, and later ones go out at once.
    pub fn attach_listener(&mut self) -> (drained: Vec<GlobalMessage>)
        ensures
            drained@ == old(self).queue().pending,
            final(self).queue() == attach_step(old(self).queue()),
            final(self).clusters_view() == old(self).clusters_view(),
            forall|k: Seq<char>| final(self).slot(k) == old(self).slot(k),
            final(self).wf() == old(self).wf(),
    {
        self.queue.attach()
    }

    /// The known clusters.
    pub fn clusters(&self) -> (r: &Clusters)
        ensures
            *r == self.clusters_view(),
    {
        &self.clusters
    }

    /// The cluster a surface should show (see `Clusters::selected_or_context_cluster`).
    pub fn resolve_selection(&self, explicit: Option<ClusterId>) -> (r: Option<ClusterId>)
        requires
            self.wf(),
        ensures
            r matches Some(c) ==> resolve(self.clusters_view().ids(), self.clusters_view().current(), id_opt_view(explicit)) == Some(c@),
            r is None ==> resolve(self.clusters_view().ids(), self.clusters_view().current(), id_opt_view(explicit)) is None,
    {
        self.clusters.selected_or_context_cluster(explicit)
    }

    /// Whether a connection for the cluster is cached.
    pub fn contains_connection(&self, cluster: &ClusterId) -> (r: bool)
        requires
            self.wf(),
        ensures
            r == (self.slot(cluster@) matches Some(Slot::Ready(_))),
    {
        self.connections.contains(cluster)
    }

    /// The cached connection of the cluster.
    pub fn connection(&self, cluster: &ClusterId) -> (r: Option<&C>)
        requires
            self.wf(),
        ensures
            match self.slot(cluster@) {
                Some(Slot::Ready(c)) => r == Some(&c),
                _ => r is None,
            },
    {
        self.connections.get(cluster)
    }

    /// The known clusters are replaced: by the freshly read set, or by an
    /// empty set when the configuration could not be read. Either way the
    /// user interface is told the new set.
    pub fn reload_clusters(&mut self, loaded: Option<Clusters>) -> (delivered: Vec<GlobalMessage>)
        requires
            old(self).wf(),
            loaded matches Some(c) ==> c.wf(),
        ensures
            final(self).wf(),
            match loaded {
                Some(c) => final(self).clusters_view() == c,
                None => final(self).clusters_view().entries().len() == 0,
            },
            forall|k: Seq<char>| final(self).slot(k) == old(self).slot(k),
            exists|msgs: Seq<GlobalMessage>| kinds(msgs) == seq![MessageKind::ClustersLoaded]
                && emitted(old(self).queue(), final(self).queue(), delivered@, msgs),
    {
        self.clusters = match loaded {
            Some(c) => c,
            None => Clusters::empty(),
        };
        let mut out: Vec<GlobalMessage> = Vec::new();
        let m = GlobalMessage::ClustersLoaded { clusters: self.clusters.clusters() };
        let ghost q0 = self.queue();
        self.emit(m, &mut out);
        proof {
            Self::lemma_emit_more(q0, Seq::empty(), m);
            assert(seq![m] =~= Seq::<GlobalMessage>::empty().push(m));
            assert(kinds(seq![m]) =~= seq![MessageKind::ClustersLoaded]);
            assert(out@ =~= emit_all_delivers(q0, seq![m]));
        }
        out
    }

    /// The number of callers waiting on a build for the cluster (0 when none
    /// is in flight); `ensure_connection` needs it below `u64::MAX`.
    pub fn waiters(&self, cluster: &ClusterId) -> (r: u64)
        requires
            self.wf(),
        ensures
            match self.slot(cluster@) {
                Some(Slot::Building { waiters }) => r == waiters,
                _ => r == 0,
            },
    {
        self.connections.waiters(cluster)
    }

    /// A caller needs the cluster's connection. A cached one is used; a
    /// build in flight gains a waiter; otherwise this caller builds, and the
    /// user interface is told that a connection is loading.
    pub fn ensure_connection(&mut self, cluster: &ClusterId) -> (r: (EnsureStep, Vec<GlobalMessage>))
        requires
            old(self).wf(),
            old(self).slot(cluster@) matches Some(Slot::Building { waiters }) ==> waiters < u64::MAX,
        ensures
            final(self).wf(),
            r.0 == ensure_step(old(self).slot(cluster@)),
            final(self).slot(cluster@) == ensure_slot(old(self).slot(cluster@)),
            forall|k: Seq<char>| k != cluster@ ==> final(self).slot(k) == old(self).slot(k),
            final(self).clusters_view() == old(self).clusters_view(),
            r.0 == EnsureStep::Build ==> exists|msgs: Seq<GlobalMessage>| kinds(msgs) == seq![MessageKind::LoadingClient]
                && emitted(old(self).queue(), final(self).queue(), r.1@, msgs),
            r.0 != EnsureStep::Build ==> final(self).queue() == old(self).queue() && r.1@.len() == 0,
    {
        let step = self.connections.ensure(cluster);
        let mut out: Vec<GlobalMessage> = Vec::new();
        match step {
            EnsureStep::Build => {
                let ghost q0 = self.queue();
                let m = GlobalMessage::LoadingClient;
                self.emit(m, &mut out);
                proof {
                    Self::lemma_emit_more(q0, Seq::empty(), m);
                    assert(seq![m] =~= Seq::<GlobalMessage>::empty().push(m));
                    assert(kinds(seq![m]) =~= seq![MessageKind::LoadingClient]);
                    assert(out@ =~= emit_all_delivers(q0, seq![m]));
                }
            },
            _ => {},
        }
        (step, out)
    }

    /// The build of the cluster's connection has ended; returns how many
    /// callers waited on it (each receives this outcome) and the
    /// notifications delivered at once. A connection is cached, the user
    /// interface is told `ClientLoaded`, and a known cluster not yet marked
    /// loaded is marked so, followed by `RefreshClusters`. A failure is not
    /// cached: the user interface is told the error, and a known cluster is
    /// marked failed, followed by `RefreshClusters`.
    pub fn connection_built(&mut self, cluster: &ClusterId, result: Result<C, String>) -> (r: (u64, Vec<GlobalMessage>))
        requires
            old(self).wf(),
        ensures
            final(self).wf(),
            match old(self).slot(cluster@) {
                Some(Slot::Building { waiters }) => r.0 == waiters,
                _ => r.0 == 0,
            },
            final(self).slot(cluster@) == finish_slot(result.ok()),
            forall|k: Seq<char>| k != cluster@ ==> final(self).slot(k) == old(self).slot(k),
            final(self).clusters_view().ids() == old(self).clusters_view().ids(),
            match result {
                Ok(_) => {
                    let mark = old(self).clusters_view().ids().contains(cluster@) && !old(self).clusters_view().is_loaded_spec(cluster@);
                    &&& mark ==> final(self).clusters_view().is_loaded_spec(cluster@)
                    &&& exists|msgs: Seq<GlobalMessage>| kinds(msgs) == (if mark {
                        seq![MessageKind::ClientLoaded, MessageKind::RefreshClusters]
                    } else {
                        seq![MessageKind::ClientLoaded]
                    }) && emitted(old(self).queue(), final(self).queue(), r.1@, msgs)
                },
                Err(e) => {
                    let known = old(self).clusters_view().ids().contains(cluster@);
                    &&& exists|msgs: Seq<GlobalMessage>| kinds(msgs) == (if known {
                        seq![MessageKind::ClientLoadError(e@), MessageKind::RefreshClusters]
                    } else {
                        seq![MessageKind::ClientLoadError(e@)]
                    }) && emitted(old(self).queue(), final(self).queue(), r.1@, msgs)
                },
            },
    {
        let ghost q0 = self.queue();
        let mut out: Vec<GlobalMessage> = Vec::new();
        match result {
            Ok(c) => {
                let woken = self.connections.finish_build(cluster, Some(c));
                let m1 = GlobalMessage::ClientLoaded;
                self.emit(m1, &mut out);
                proof {
                    Self::lemma_emit_more(q0, Seq::empty(), m1);
                    assert(seq![m1] =~= Seq::<GlobalMessage>::empty().push(m1));
                }
                let known = self.clusters.contains(cluster);
                if known && !self.clusters.is_loaded(cluster) {
                    self.clusters.set_load_status(cluster, SimpleLoadStatus::Loaded);
                    let m2 = GlobalMessage::RefreshClusters;
                    let ghost q1 = self.queue();
                    self.emit(m2, &mut out);
                    proof {
                        Self::lemma_emit_more(q0, seq![m1], m2);
                        assert(seq![m1].push(m2) =~= seq![m1, m2]);
                        assert(kinds(seq![m1, m2]) =~= seq![MessageKind::ClientLoaded, MessageKind::RefreshClusters]);
                        assert(out@ =~= emit_all_delivers(q0, seq![m1, m2]));
                        assert(emitted(q0, self.queue(), out@, seq![m1, m2]));
                    }
                } else {
                    proof {
                        assert(kinds(seq![m1]) =~= seq![MessageKind::ClientLoaded]);
                        assert(out@ =~= emit_all_delivers(q0, seq![m1]));
                        assert(emitted(q0, self.queue(), out@, seq![m1]));
                    }
                }
                (woken, out)
            },
            Err(e) => {
                let woken = self.connections.finish_build(cluster, None);
                let m1 = GlobalMessage::ClientLoadError { error: e.clone() };
                self.emit(m1, &mut out);
                proof {
                    Self::lemma_emit_more(q0, Seq::empty(), m1);
                    assert(seq![m1] =~= Seq::<GlobalMessage>::empty().push(m1));
                }
                if self.clusters.set_load_status(cluster, SimpleLoadStatus::Error { error: e }) {
                    let m2 = GlobalMessage::RefreshClusters;
                    self.emit(m2, &mut out);
                    proof {
                        Self::lemma_emit_more(q0, seq![m1], m2);
                        assert(seq![m1].push(m2) =~= seq![m1, m2]);
                        assert(out@ =~= emit_all_delivers(q0, seq![m1, m2]));
                        assert(emitted(q0, self.queue(), out@, seq![m1, m2]));
                        assert(kinds(seq![m1, m2]) =~= seq![kind_of(m1), MessageKind::RefreshClusters]);
                    }
                } else {
                    proof {
                        assert(kinds(seq![m1]) =~= seq![kind_of(m1)]);
                        assert(out@ =~= emit_all_delivers(q0, seq![m1]));
                        assert(emitted(q0, self.queue(), out@, seq![m1]));
                    }
                }
                (woken, out)
            },
        }
    }
}

} // verus!
