use vstd::prelude::*;
use crate::cache::{CacheMessage, ResourceCache, upsert_result, upsert_is_silent, notifies_view};
use crate::cluster::ClusterId;
use crate::load_status::LoadStatus;
use crate::resource::{Resource, without, has_key};

verus! {

/// An event of a watch stream.
pub enum WatchEvent<R> {
    /// A resource was created or changed.
    Applied(R),
    /// A resource was removed.
    Deleted(R),
    /// The stream cannot vouch for continuity: the whole collection must be
    /// fetched again.
    Restarted,
}

/// What the driver decided for one event.
pub enum WatchOutcome<R> {
    /// The event belongs to a cancelled subscription: nothing happened.
    Ignored,
    /// The event was applied to the cache; the message, if any, goes to the
    /// user interface.
    Applied(Option<CacheMessage<R>>),
    /// The cache must be fetched again for this cluster.
    Reload(ClusterId),
}

/// Serves at most one subscription (a cluster and a resource type) at a
/// time. Every subscription gets a fresh token; the stream task and the
/// reconciliation task carry it, and the driver accepts their events only
/// while the token is the live one. Starting a subscription or stopping the
/// watch retires the old token, so nothing of an old subscription reaches the
/// cache any more.
pub struct WatchDriver {
    active: Option<(ClusterId, u64)>,
    next_token: u64,
}

impl WatchDriver {
    /// The live subscription: its cluster and token.
    pub closed spec fn active(&self) -> Option<(Seq<char>, u64)> {
        match self.active {
            Some((c, t)) => Some((c@, t)),
            None => None,
        }
    }

    /// The token the next subscription gets.
    pub closed spec fn next_token(&self) -> u64 {
        self.next_token
    }

    /// Events carrying `token` are accepted.
    pub open spec fn accepts_token(&self, token: u64) -> bool {
        self.active() matches Some(s) && s.1 == token
    }

    /// Every token handed out so far is below the next one.
    pub open spec fn wf(&self) -> bool {
        self.active() matches Some(s) ==> s.1 < self.next_token()
    }

    pub fn new() -> (r: WatchDriver)
        ensures
            r.wf(),
            r.active() is None,
            r.next_token() == 0,
    {
        WatchDriver { active: None, next_token: 0 }
    }

    /// Starts a subscription for the cluster, replacing the live one: the
    /// caller cancels the old tasks and starts new ones that carry the token
    /// returned.
    pub fn start(&mut self, cluster: ClusterId) -> (token: u64)
        requires
            old(self).wf(),
            old(self).next_token() < u64::MAX,
        ensures
            final(self).wf(),
            token == old(self).next_token(),
            final(self).next_token() == token + 1,
            final(self).active() == Some((cluster@, token)),
            forall|t: u64| t < token ==> !final(self).accepts_token(t),
    {
        let token = self.next_token;
        self.active = Some((cluster, token));
        self.next_token = token + 1;
        token
    }

    /// Stops the watch: no token is accepted afterwards. The cache is kept.
    pub fn stop_watch(&mut self)
        requires
            old(self).wf(),
        ensures
            final(self).wf(),
            final(self).active() is None,
            final(self).next_token() == old(self).next_token(),
            forall|t: u64| !final(self).accepts_token(t),
    {
        self.active = None;
    }

    /// Whether another subscription can get a fresh token.
    pub fn can_start(&self) -> (r: bool)
        ensures
            r == (self.next_token() < u64::MAX),
    {
        self.next_token < u64::MAX
    }

    /// Whether events carrying `token` are accepted.
    pub fn accepts(&self, token: u64) -> (r: bool)
        ensures
            r == self.accepts_token(token),
    {
        match &self.active {
            Some((_, t)) => *t == token,
            None => false,
        }
    }

    /// The cluster of the live subscription.
    pub fn cluster(&self) -> (r: Option<&ClusterId>)
        ensures
            match self.active() {
                Some(s) => r is Some && r.unwrap()@ == s.0,
                None => r is None,
            },
    {
        match &self.active {
            Some((c, _)) => Some(c),
            None => None,
        }
    }

    /// A tick of the reconciliation timer of the subscription `token`: while
    /// it is live, the cluster's collection is fetched again; a retired
    /// subscription's tick does nothing.
    pub fn reconcile_tick(&self, token: u64) -> (r: Option<ClusterId>)
        ensures
            self.accepts_token(token) ==> (r is Some && r.unwrap()@ == self.active().unwrap().0),
            !self.accepts_token(token) ==> r is None,
    {
        match &self.active {
            Some((c, t)) => {
                if *t == token {
                    Some(c.clone())
                } else {
                    None
                }
            },
            None => None,
        }
    }

    /// Hands one event of the stream of subscription `token` to the cache.
    /// A retired token changes nothing. Otherwise `Applied` is an upsert,
    /// `Deleted` removes the resource's key, and `Restarted` asks for a full
    /// fetch of the subscription's cluster.
    pub fn handle_event<R: Resource>(
        &self,
        token: u64,
        cache: &mut ResourceCache<R>,
        event: WatchEvent<R>,
    ) -> (out: WatchOutcome<R>)
        requires
            old(cache).wf(),
        ensures
            final(cache).wf(),
            final(cache).search() == old(cache).search(),
            !self.accepts_token(token) ==> out is Ignored && final(cache).status() == old(cache).status(),
            self.accepts_token(token) ==> match event {
                WatchEvent::Applied(r) => out matches WatchOutcome::Applied(m) && (!(old(cache).status() is Loaded)
                    ==> final(cache).status() == old(cache).status() && m is None) && (old(cache).status() is Loaded ==> {
                    &&& final(cache).status() == LoadStatus::Loaded(upsert_result(old(cache).entries(), r))
                    &&& upsert_is_silent(old(cache).entries(), r) ==> m is None
                    &&& !upsert_is_silent(old(cache).entries(), r) ==> notifies_view(m, final(cache).entries(), final(cache).search())
                }),
                WatchEvent::Deleted(r) => out matches WatchOutcome::Applied(m) && (!(old(cache).status() is Loaded)
                    ==> final(cache).status() == old(cache).status() && m is None) && (old(cache).status() is Loaded ==> {
                    &&& final(cache).status() == LoadStatus::Loaded(without(old(cache).entries(), r.key()))
                    &&& !has_key(old(cache).entries(), r.key()) ==> m is None
                    &&& has_key(old(cache).entries(), r.key()) ==> notifies_view(m, final(cache).entries(), final(cache).search())
                }),
                WatchEvent::Restarted => out matches WatchOutcome::Reload(c) && c@ == self.active().unwrap().0
                    && final(cache).status() == old(cache).status(),
            },
    {
        match self.reconcile_tick(token) {
            None => WatchOutcome::Ignored,
            Some(cluster) => match event {
                WatchEvent::Applied(r) => WatchOutcome::Applied(cache.apply_upsert(r)),
                WatchEvent::Deleted(r) => WatchOutcome::Applied(cache.apply_delete(r.key_str())),
                WatchEvent::Restarted => WatchOutcome::Reload(cluster),
            },
        }
    }
}

/// Once the watch is stopped no token is accepted, so by the contract of
/// `handle_event` no event of any stream, the cancelled one included, changes
/// the cache; and after a new start, the tokens of earlier subscriptions stay
/// retired.
pub proof fn lemma_cancelled_streams_are_inert(d: WatchDriver, token: u64)
    requires
        d.wf(),
        d.active() is None || token < d.active().unwrap().1,
    ensures
        !d.accepts_token(token),
{
}

} // verus!
