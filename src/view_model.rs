use vstd::prelude::*;
use crate::cache::{CacheMessage, ResourceCache, is_loaded_view, notifies_view, upsert_is_silent, upsert_result};
use crate::cluster::ClusterId;
use crate::delete::{DeleteError, DeletePlan, plan_delete, ns_of, namespaces, ids_in_ns, id_views, missing};
use crate::load_status::LoadStatus;
use crate::pod::{Pod, PodId};
use crate::resource::{Resource, collect_keyed, visible, without, has_key};
use crate::snapshot::models;
use crate::watch::{WatchDriver, WatchEvent, WatchOutcome};

verus! {

/// The state behind one resource view: its cache and the driver of its
/// watch subscription. All mutation of the view goes through here, one
/// message at a time.
pub struct ResourceViewModel<R> {
    cache: ResourceCache<R>,
    driver: WatchDriver,
}

impl<R: Resource> ResourceViewModel<R> {
    pub closed spec fn cache(&self) -> ResourceCache<R> {
        self.cache
    }

    pub closed spec fn driver(&self) -> WatchDriver {
        self.driver
    }

    pub open spec fn wf(&self) -> bool {
        self.cache().wf() && self.driver().wf()
    }

    pub fn new() -> (r: Self)
        ensures
            r.wf(),
            r.cache().status() is Initial,
            r.driver().active() is None,
    {
        ResourceViewModel { cache: ResourceCache::new(), driver: WatchDriver::new() }
    }

    /// Whether another subscription can get a fresh token (`fetch` needs it).
    pub fn can_fetch(&self) -> (r: bool)
        ensures
            r == (self.driver().next_token() < u64::MAX),
    {
        self.driver.can_start()
    }

    /// A fetch for a cluster starts: the view shows `Loading`, and a new
    /// watch subscription replaces the old one. The caller runs the bulk
    /// fetch and starts the stream and timer tasks with the token returned.
    pub fn fetch(&mut self, cluster: ClusterId) -> (r: (u64, CacheMessage<R>))
        requires
            old(self).wf(),
            old(self).driver().next_token() < u64::MAX,
        ensures
            final(self).wf(),
            r.1 is Loading,
            final(self).cache().status() is Loading,
            final(self).cache().search() == old(self).cache().search(),
            final(self).driver().active() == Some((cluster@, r.0)),
            r.0 == old(self).driver().next_token(),
            forall|t: u64| t < r.0 ==> !final(self).driver().accepts_token(t),
    {
        let m = self.cache.start_loading();
        let token = self.driver.start(cluster);
        (token, m)
    }

    /// A bulk fetch (of `fetch`, a reconciliation tick or a restarted
    /// stream) has ended; see `ResourceCache::finish_load`.
    pub fn load_finished(&mut self, result: Result<Vec<R>, String>) -> (m: CacheMessage<R>)
        requires
            old(self).wf(),
        ensures
            final(self).wf(),
            final(self).driver() == old(self).driver(),
            final(self).cache().search() == old(self).cache().search(),
            match result {
                Ok(items) => final(self).cache().status() == LoadStatus::Loaded(collect_keyed(items@))
                    && is_loaded_view(m, final(self).cache().entries(), final(self).cache().search()),
                Err(e) => final(self).cache().status() == LoadStatus::<Seq<R>>::Error(e)
                    && (m matches CacheMessage::LoadingFailed { error } && error@ == e@),
            },
    {
        self.cache.finish_load(result)
    }

    /// An event of the stream of subscription `token`; see
    /// `WatchDriver::handle_event`.
    pub fn on_event(&mut self, token: u64, event: WatchEvent<R>) -> (out: WatchOutcome<R>)
        requires
            old(self).wf(),
        ensures
            final(self).wf(),
            final(self).driver() == old(self).driver(),
            final(self).cache().search() == old(self).cache().search(),
            !old(self).driver().accepts_token(token) ==> out is Ignored && final(self).cache().status() == old(self).cache().status(),
            old(self).driver().accepts_token(token) ==> match event {
                WatchEvent::Applied(r) => out matches WatchOutcome::Applied(m) && (!(old(self).cache().status() is Loaded)
                    ==> final(self).cache().status() == old(self).cache().status() && m is None) && (old(self).cache().status() is Loaded ==> {
                    &&& final(self).cache().status() == LoadStatus::Loaded(upsert_result(old(self).cache().entries(), r))
                    &&& upsert_is_silent(old(self).cache().entries(), r) ==> m is None
                    &&& !upsert_is_silent(old(self).cache().entries(), r) ==> notifies_view(m, final(self).cache().entries(), final(self).cache().search())
                }),
                WatchEvent::Deleted(r) => out matches WatchOutcome::Applied(m) && (!(old(self).cache().status() is Loaded)
                    ==> final(self).cache().status() == old(self).cache().status() && m is None) && (old(self).cache().status() is Loaded ==> {
                    &&& final(self).cache().status() == LoadStatus::Loaded(without(old(self).cache().entries(), r.key()))
                    &&& !has_key(old(self).cache().entries(), r.key()) ==> m is None
                    &&& has_key(old(self).cache().entries(), r.key()) ==> notifies_view(m, final(self).cache().entries(), final(self).cache().search())
                }),
                WatchEvent::Restarted => out matches WatchOutcome::Reload(c) && c@ == old(self).driver().active().unwrap().0
                    && final(self).cache().status() == old(self).cache().status(),
            },
    {
        self.driver.handle_event(token, &mut self.cache, event)
    }

    /// A tick of the reconciliation timer of subscription `token`: the
    /// cluster to fetch again, while the subscription is live.
    pub fn reconcile_tick(&self, token: u64) -> (r: Option<ClusterId>)
        ensures
            self.driver().accepts_token(token) ==> (r is Some && r.unwrap()@ == self.driver().active().unwrap().0),
            !self.driver().accepts_token(token) ==> r is None,
    {
        self.driver.reconcile_tick(token)
    }

    /// Stops the watch; the cache is kept, and no event of the old stream
    /// changes it any more.
    pub fn stop_watch(&mut self)
        requires
            old(self).wf(),
        ensures
            final(self).wf(),
            final(self).cache() == old(self).cache(),
            final(self).driver().active() is None,
            forall|t: u64| !final(self).driver().accepts_token(t),
    {
        self.driver.stop_watch();
    }

    /// The visible entries, `None` until loaded.
    pub fn snapshot(&self) -> (r: Option<Vec<R>>)
        ensures
            r is None <==> !(self.cache().status() is Loaded),
            r matches Some(v) ==> models(v@) == models(visible(self.cache().entries(), self.cache().search())),
    {
        self.cache.snapshot_filtered()
    }

    /// Sets the search; see `ResourceCache::set_search`.
    pub fn set_search(&mut self, search: String) -> (m: Option<CacheMessage<R>>)
        requires
            old(self).wf(),
        ensures
            final(self).wf(),
            final(self).driver() == old(self).driver(),
            final(self).cache().status() == old(self).cache().status(),
            final(self).cache().search() == search@,
            m is None <==> !(old(self).cache().status() is Loaded),
            m matches Some(msg) ==> is_loaded_view(msg, final(self).cache().entries(), search@),
    {
        self.cache.set_search(search)
    }
}

impl ResourceViewModel<Pod> {
    /// Plans a bulk delete against the cached pods; see `plan_delete`.
    pub fn delete_pods(&self, pod_ids: Vec<PodId>) -> (r: Result<DeletePlan, DeleteError>)
        requires
            self.wf(),
        ensures
            pod_ids@.len() == 0 ==> r matches Ok(DeletePlan::Nothing),
            pod_ids@.len() > 0 && !(self.cache().status() is Loaded) ==> r matches Err(DeleteError::NotLoaded),
            pod_ids@.len() == 1 && self.cache().status() is Loaded ==> match r {
                Ok(DeletePlan::Single { namespace, id }) => has_key(self.cache().entries(), pod_ids@[0]@) && id@ == pod_ids@[0]@
                    && namespace@ == ns_of(self.cache().entries(), pod_ids@[0]@),
                Err(DeleteError::NotFound { id }) => !has_key(self.cache().entries(), pod_ids@[0]@) && id@ == pod_ids@[0]@,
                _ => false,
            },
            pod_ids@.len() > 1 && self.cache().status() is Loaded ==> match r {
                Ok(DeletePlan::Grouped { groups, not_found }) => {
                    &&& groups@.len() == namespaces(pod_ids@, self.cache().entries()).len()
                    &&& forall|g: int| 0 <= g < groups@.len() ==> groups@[g].namespace@ == namespaces(pod_ids@, self.cache().entries())[g]
                        && id_views(groups@[g].ids@) == ids_in_ns(pod_ids@, self.cache().entries(), groups@[g].namespace@)
                    &&& id_views(not_found@) == missing(pod_ids@, self.cache().entries())
                },
                _ => false,
            },
    {
        plan_delete(&self.cache, pod_ids)
    }
}

} // verus!
