use vstd::prelude::*;
use crate::cluster::ClusterId;
use crate::keys::{index_of_key, distinct_keys, lemma_index_of_key};

verus! {

/// The registry's state for one cluster: a build in flight, with the number
/// of callers waiting on it, or a ready connection.
pub enum Slot<C> {
    Building { waiters: u64 },
    Ready(C),
}

/// What a caller of `ensure` does next.
#[derive(Debug, Clone, Copy, PartialEq, Eq)]
pub enum EnsureStep {
    /// A connection is cached: use it.
    Ready,
    /// Nothing is cached or in flight: this caller builds the connection.
    Build,
    /// A build is in flight: wait for its outcome.
    Wait,
}

/// What `ensure` does to a cluster's slot.
pub open spec fn ensure_slot<C>(s: Option<Slot<C>>) -> Option<Slot<C>> {
    match s {
        None => Some(Slot::Building { waiters: 1 }),
        Some(Slot::Building { waiters }) => Some(Slot::Building { waiters: (waiters + 1) as u64 }),
        Some(Slot::Ready(c)) => Some(Slot::Ready(c)),
    }
}

/// What `ensure` tells its caller.
pub open spec fn ensure_step<C>(s: Option<Slot<C>>) -> EnsureStep {
    match s {
        None => EnsureStep::Build,
        Some(Slot::Building { .. }) => EnsureStep::Wait,
        Some(Slot::Ready(_)) => EnsureStep::Ready,
    }
}

/// The slot after `n` calls of `ensure`.
pub open spec fn ensure_n<C>(s: Option<Slot<C>>, n: nat) -> Option<Slot<C>>
    decreases n,
{
    if n == 0 {
        s
    } else {
        ensure_slot(ensure_n(s, (n - 1) as nat))
    }
}

/// How many of `n` calls of `ensure` were told to build.
pub open spec fn builds_in<C>(s: Option<Slot<C>>, n: nat) -> nat
    decreases n,
{
    if n == 0 {
        0
    } else {
        builds_in(s, (n - 1) as nat) + if ensure_step(ensure_n(s, (n - 1) as nat)) == EnsureStep::Build {
            1nat
        } else {
            0nat
        }
    }
}

/// What the end of a build does to the slot: a connection is cached, a
/// failure is not.
pub open spec fn finish_slot<C>(ok: Option<C>) -> Option<Slot<C>> {
    match ok {
        Some(c) => Some(Slot::Ready(c)),
        None => None,
    }
}

/// One cluster's entry in the registry.
pub struct RegistryEntry<C> {
    pub cluster: ClusterId,
    pub slot: Slot<C>,
}

/// Lazily built connections, one per cluster, with concurrent requests for
/// one cluster folded into a single build.
pub struct ConnectionRegistry<C> {
    entries: Vec<RegistryEntry<C>>,
}

impl<C> ConnectionRegistry<C> {
    pub closed spec fn keys(&self) -> Seq<Seq<char>> {
        self.entries@.map_values(|e: RegistryEntry<C>| e.cluster@)
    }

    pub closed spec fn wf(&self) -> bool {
        distinct_keys(self.keys())
    }

    /// The slot of a cluster, if it has one.
    pub closed spec fn slot(&self, k: Seq<char>) -> Option<Slot<C>> {
        let i = index_of_key(self.keys(), k);
        if i < 0 {
            None
        } else {
            Some(self.entries@[i].slot)
        }
    }

    pub fn new() -> (r: Self)
        ensures
            r.wf(),
            forall|k: Seq<char>| r.slot(k) is None,
    {
        ConnectionRegistry { entries: Vec::new() }
    }

    fn find(&self, cluster: &ClusterId) -> (r: Option<usize>)
        requires
            self.wf(),
        ensures
            r is None ==> index_of_key(self.keys(), cluster@) < 0,
            r matches Some(i) ==> i as int == index_of_key(self.keys(), cluster@) && i < self.entries@.len(),
    {
        let mut i: usize = 0;
        while i < self.entries.len()
            invariant
                i <= self.entries@.len(),
                distinct_keys(self.keys()),
                forall|j: int| 0 <= j < i ==> self.keys()[j] != cluster@,
            decreases self.entries@.len() - i,
        {
            if self.entries[i].cluster.same_as(cluster) {
                proof {
                    lemma_index_of_key(self.keys(), cluster@);
                    assert(self.keys()[i as int] == cluster@);
                }
                return Some(i);
            }
            i = i + 1;
        }
        proof {
            lemma_index_of_key(self.keys(), cluster@);
            if self.keys().contains(cluster@) {
                let j = choose|j: int| 0 <= j < self.keys().len() && self.keys()[j] == cluster@;
            }
        }
        None
    }

    /// Whether a connection for the cluster is cached (a build in flight does
    /// not count).
    pub fn contains(&self, cluster: &ClusterId) -> (r: bool)
        requires
            self.wf(),
        ensures
            r == (self.slot(cluster@) matches Some(Slot::Ready(_))),
    {
        match self.find(cluster) {
            Some(i) => match &self.entries[i].slot {
                Slot::Ready(_) => true,
                _ => false,
            },
            None => false,
        }
    }

    /// The cached connection of the cluster.
    pub fn get(&self, cluster: &ClusterId) -> (r: Option<&C>)
        requires
            self.wf(),
        ensures
            match self.slot(cluster@) {
                Some(Slot::Ready(c)) => r == Some(&c),
                _ => r is None,
            },
    {
        match self.find(cluster) {
            Some(i) => match &self.entries[i].slot {
                Slot::Ready(c) => Some(c),
                _ => None,
            },
            None => None,
        }
    }

    /// The number of callers waiting on a build for the cluster (0 when none
    /// is in flight).
    pub fn waiters(&self, cluster: &ClusterId) -> (r: u64)
        requires
            self.wf(),
        ensures
            match self.slot(cluster@) {
                Some(Slot::Building { waiters }) => r == waiters,
                _ => r == 0,
            },
    {
        match self.find(cluster) {
            Some(i) => match &self.entries[i].slot {
                Slot::Building { waiters } => *waiters,
                _ => 0,
            },
            None => 0,
        }
    }

    proof fn lemma_keys_after_set(&self, other: &Self, i: int)
        requires
            0 <= i < self.entries@.len(),
            other.entries@.len() == self.entries@.len(),
            other.entries@[i].cluster@ == self.entries@[i].cluster@,
            forall|j: int| 0 <= j < self.entries@.len() && j != i ==> other.entries@[j] == self.entries@[j],
        ensures
            other.keys() == self.keys(),
    {
        assert(other.keys() =~= self.keys());
    }

    /// A caller asks for the cluster's connection: a cached one is used, a
    /// build in flight gains a waiter, and otherwise the caller is told to
    /// build and the build is recorded as in flight with this one caller.
    pub fn ensure(&mut self, cluster: &ClusterId) -> (step: EnsureStep)
        requires
            old(self).wf(),
            old(self).slot(cluster@) matches Some(Slot::Building { waiters }) ==> waiters < u64::MAX,
        ensures
            final(self).wf(),
            step == ensure_step(old(self).slot(cluster@)),
            final(self).slot(cluster@) == ensure_slot(old(self).slot(cluster@)),
            forall|k: Seq<char>| k != cluster@ ==> final(self).slot(k) == old(self).slot(k),
    {
        let ghost old_self = *self;
        proof {
            lemma_index_of_key(self.keys(), cluster@);
        }
        match self.find(cluster) {
            Some(i) => {
                let is_ready = match &self.entries[i].slot {
                    Slot::Ready(_) => true,
                    _ => false,
                };
                if is_ready {
                    EnsureStep::Ready
                } else {
                    let n = self.waiters(cluster);
                    let e = RegistryEntry { cluster: cluster.clone(), slot: Slot::Building { waiters: n + 1 } };
                    self.entries.set(i, e);
                    proof {
                        old_self.lemma_keys_after_set(self, i as int);
                        assert forall|k: Seq<char>| k != cluster@ implies self.slot(k) == old_self.slot(k) by {
                            lemma_index_of_key(self.keys(), k);
                        }
                    }
                    EnsureStep::Wait
                }
            },
            None => {
                self.entries.push(RegistryEntry { cluster: cluster.clone(), slot: Slot::Building { waiters: 1 } });
                proof {
                    assert(self.keys() =~= old_self.keys().push(cluster@));
                    assert forall|a: int, b: int|
                        0 <= a < self.keys().len() && 0 <= b < self.keys().len() && a != b implies self.keys()[a]
                            != self.keys()[b] by {
                        if a < old_self.keys().len() && b < old_self.keys().len() {
                        } else if a < old_self.keys().len() {
                            assert(old_self.keys().contains(old_self.keys()[a]));
                        } else {
                            assert(old_self.keys().contains(old_self.keys()[b]));
                        }
                    }
                    lemma_index_of_key(self.keys(), cluster@);
                    assert forall|k: Seq<char>| k != cluster@ implies self.slot(k) == old_self.slot(k) by {
                        assert(self.keys().drop_last() =~= old_self.keys());
                        lemma_index_of_key(old_self.keys(), k);
                        let oi = index_of_key(old_self.keys(), k);
                        assert(index_of_key(self.keys(), k) == oi);
                        if oi >= 0 {
                            assert(self.entries@[oi] == old_self.entries@[oi]);
                        }
                    }
                }
                EnsureStep::Build
            },
        }
    }

    /// The build for a cluster has ended. A connection is cached; a failure
    /// is not, so that the next `ensure` builds afresh. Returns the number of
    /// callers that waited on the build: each receives this one outcome.
    pub fn finish_build(&mut self, cluster: &ClusterId, result: Option<C>) -> (woken: u64)
        requires
            old(self).wf(),
        ensures
            final(self).wf(),
            match old(self).slot(cluster@) {
                Some(Slot::Building { waiters }) => woken == waiters,
                _ => woken == 0,
            },
            final(self).slot(cluster@) == finish_slot(result),
            forall|k: Seq<char>| k != cluster@ ==> final(self).slot(k) == old(self).slot(k),
    {
        let ghost old_self = *self;
        let woken = self.waiters(cluster);
        proof {
            lemma_index_of_key(self.keys(), cluster@);
        }
        match self.find(cluster) {
            Some(i) => {
                match result {
                    Some(c) => {
                        let e = RegistryEntry { cluster: cluster.clone(), slot: Slot::Ready(c) };
                        self.entries.set(i, e);
                        proof {
                            old_self.lemma_keys_after_set(self, i as int);
                            assert forall|k: Seq<char>| k != cluster@ implies self.slot(k) == old_self.slot(k) by {
                                lemma_index_of_key(self.keys(), k);
                            }
                        }
                    },
                    None => {
                        self.entries.remove(i);
                        proof {
                            assert(self.keys() =~= old_self.keys().remove(i as int));
                            assert forall|a: int, b: int|
                                0 <= a < self.keys().len() && 0 <= b < self.keys().len() && a != b implies self.keys()[a]
                                    != self.keys()[b] by {
                                let a2 = if a < i { a } else { a + 1 };
                                let b2 = if b < i { b } else { b + 1 };
                                assert(self.keys()[a] == old_self.keys()[a2]);
                                assert(self.keys()[b] == old_self.keys()[b2]);
                            }
                            lemma_index_of_key(self.keys(), cluster@);
                            if self.keys().contains(cluster@) {
                                let j = choose|j: int| 0 <= j < self.keys().len() && self.keys()[j] == cluster@;
                                let j2 = if j < i { j } else { j + 1 };
                                assert(old_self.keys()[j2] == cluster@);
                            }
                            assert forall|k: Seq<char>| k != cluster@ implies self.slot(k) == old_self.slot(k) by {
                                lemma_index_of_key(self.keys(), k);
                                lemma_index_of_key(old_self.keys(), k);
                                let oi = index_of_key(old_self.keys(), k);
                                if oi >= 0 {
                                    let ni = if oi < i { oi } else { oi - 1 };
                                    assert(self.keys()[ni] == k);
                                    assert(self.entries@[ni] == old_self.entries@[oi]);
                                } else {
                                    if self.keys().contains(k) {
                                        let j = choose|j: int| 0 <= j < self.keys().len() && self.keys()[j] == k;
                                        let j2 = if j < i { j } else { j + 1 };
                                        assert(old_self.keys()[j2] == k);
                                    }
                                }
                            }
                        }
                    },
                }
            },
            None => {
                match result {
                    Some(c) => {
                        self.entries.push(RegistryEntry { cluster: cluster.clone(), slot: Slot::Ready(c) });
                        proof {
                            assert(self.keys() =~= old_self.keys().push(cluster@));
                            assert forall|a: int, b: int|
                                0 <= a < self.keys().len() && 0 <= b < self.keys().len() && a != b implies self.keys()[a]
                                    != self.keys()[b] by {
                                if a < old_self.keys().len() && b < old_self.keys().len() {
                                } else if a < old_self.keys().len() {
                                    assert(old_self.keys().contains(old_self.keys()[a]));
                                } else {
                                    assert(old_self.keys().contains(old_self.keys()[b]));
                                }
                            }
                            lemma_index_of_key(self.keys(), cluster@);
                            assert forall|k: Seq<char>| k != cluster@ implies self.slot(k) == old_self.slot(k) by {
                                assert(self.keys().drop_last() =~= old_self.keys());
                                lemma_index_of_key(old_self.keys(), k);
                                let oi = index_of_key(old_self.keys(), k);
                                assert(index_of_key(self.keys(), k) == oi);
                                if oi >= 0 {
                                    assert(self.entries@[oi] == old_self.entries@[oi]);
                                }
                            }
                        }
                    },
                    None => {},
                }
            },
        }
        woken
    }
}

/// N concurrent requests for a cluster that has no slot: exactly one of them
/// is told to build, the others wait on that one build, and the build's
/// outcome goes to all N (the slot counts N waiters). A failure leaves no
/// slot, so the next request builds afresh.
pub proof fn lemma_single_build<C>(n: nat)
    requires
        n >= 1,
        n < u64::MAX,
    ensures
        builds_in(None::<Slot<C>>, n) == 1,
        ensure_n(None::<Slot<C>>, n) == Some(Slot::<C>::Building { waiters: n as u64 }),
        ensure_step(finish_slot(None::<C>)) == EnsureStep::Build,
    decreases n,
{
    if n > 1 {
        lemma_single_build::<C>((n - 1) as nat);
    } else {
        assert(builds_in(None::<Slot<C>>, 0) == 0);
        assert(ensure_n(None::<Slot<C>>, 0) == None::<Slot<C>>);
    }
}

} // verus!
