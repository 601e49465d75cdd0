use vstd::prelude::*;
use crate::load_status::LoadStatus;
use crate::load_status::allowed_transition;
use crate::resource::{Resource, unique_keys, key_index, has_key, put, without, collect_keyed, visible, matches_search, lemma_key_index, lemma_put_unique, lemma_without_unique};
use crate::snapshot::Snapshot;
use crate::snapshot::models;
use crate::text::contains_str;

verus! {

/// A notification from a cache to the user interface.
pub enum CacheMessage<R> {
    Loading,
    Loaded { items: Vec<R> },
    LoadingFailed { error: String },
    ToastWarningMessage { message: String },
    ToastErrorMessage { message: String },
}

/// The message carries exactly the visible entries of `s` under `search`.
pub open spec fn is_loaded_view<R: Resource>(m: CacheMessage<R>, s: Seq<R>, search: Seq<char>) -> bool {
    m matches CacheMessage::Loaded { items } && models(items@) == models(visible(s, search))
}

/// A message goes out, and it carries the visible entries.
pub open spec fn notifies_view<R: Resource>(m: Option<CacheMessage<R>>, s: Seq<R>, search: Seq<char>) -> bool {
    m matches Some(msg) && is_loaded_view(msg, s, search)
}

/// Applying `r` changes nothing: an identical entry with its key is there.
pub open spec fn upsert_is_silent<R: Resource>(s: Seq<R>, r: R) -> bool {
    let i = key_index(s, r.key());
    0 <= i && s[i].model() == r.model()
}

/// The entries after applying `r`.
pub open spec fn upsert_result<R: Resource>(s: Seq<R>, r: R) -> Seq<R> {
    if upsert_is_silent(s, r) {
        s
    } else {
        put(s, r)
    }
}

/// The load status with its collection seen as a sequence.
pub open spec fn status_view<R>(s: LoadStatus<Vec<R>>) -> LoadStatus<Seq<R>> {
    match s {
        LoadStatus::Initial => LoadStatus::Initial,
        LoadStatus::Loading => LoadStatus::Loading,
        LoadStatus::Loaded(v) => LoadStatus::Loaded(v@),
        LoadStatus::Error(e) => LoadStatus::Error(e),
    }
}

/// A keyed collection of resource snapshots with its load status and a
/// search filter.
pub struct ResourceCache<R> {
    status: LoadStatus<Vec<R>>,
    search: String,
}

impl<R: Resource> ResourceCache<R> {
    pub closed spec fn status(&self) -> LoadStatus<Seq<R>> {
        status_view(self.status)
    }

    pub closed spec fn search(&self) -> Seq<char> {
        self.search@
    }

    /// The entries, when loaded.
    pub open spec fn entries(&self) -> Seq<R>
        recommends
            self.status() is Loaded,
    {
        self.status()->Loaded_0
    }

    pub open spec fn wf(&self) -> bool {
        self.status() is Loaded ==> unique_keys(self.entries())
    }

    pub fn new() -> (r: Self)
        ensures
            r.wf(),
            r.status() is Initial,
            r.search().len() == 0,
    {
        ResourceCache { status: LoadStatus::Initial, search: String::new() }
    }

    /// A cache that starts loaded with the given entries (of two with one key
    /// the later stays).
    pub fn with_entries(items: Vec<R>) -> (r: Self)
        ensures
            r.wf(),
            r.status() == LoadStatus::Loaded(collect_keyed(items@)),
            r.search().len() == 0,
    {
        let mut r = ResourceCache { status: LoadStatus::Loading, search: String::new() };
        let _ = r.finish_load(Ok(items));
        r
    }

    pub fn is_loaded(&self) -> (r: bool)
        ensures
            r == (self.status() is Loaded),
    {
        self.status.is_loaded()
    }

    /// The current search text.
    pub fn search_text(&self) -> (r: &String)
        ensures
            r@ == self.search(),
    {
        &self.search
    }

    fn position(items: &Vec<R>, key: &String) -> (r: Option<usize>)
        requires
            unique_keys(items@),
        ensures
            r is None ==> key_index(items@, key@) < 0,
            r matches Some(i) ==> i as int == key_index(items@, key@),
    {
        proof {
            lemma_key_index(items@, key@);
        }
        let mut i: usize = 0;
        while i < items.len()
            invariant
                i <= items@.len(),
                unique_keys(items@),
                forall|j: int| 0 <= j < i ==> items@[j].key() != key@,
            decreases items@.len() - i,
        {
            if items[i].key_str().eq(key) {
                proof {
                    lemma_key_index(items@, key@);
                    assert(items@[i as int].key() == key@);
                    assert(i as int == key_index(items@, key@));
                }
                return Some(i);
            }
            i = i + 1;
        }
        proof {
            if has_key(items@, key@) {
                let j = choose|j: int| 0 <= j < items@.len() && #[trigger] items@[j].key() == key@;
            }
        }
        None
    }

    fn matches(r: &R, search: &String) -> (b: bool)
        ensures
            b == matches_search(*r, search@),
    {
        search.as_str().is_empty() || contains_str(r.key_str().as_str(), search.as_str()) || contains_str(
            r.label_str().as_str(),
            search.as_str(),
        )
    }

    fn visible_copy(items: &Vec<R>, search: &String) -> (r: Vec<R>)
        ensures
            models(r@) == models(visible(items@, search@)),
    {
        let mut r: Vec<R> = Vec::new();
        let mut i: usize = 0;
        while i < items.len()
            invariant
                i <= items@.len(),
                models(r@) == models(visible(items@.subrange(0, i as int), search@)),
            decreases items@.len() - i,
        {
            let ghost prefix = items@.subrange(0, i as int);
            let ghost next = items@.subrange(0, i + 1);
            proof {
                assert(next.drop_last() =~= prefix);
                assert(next.last() == items@[i as int]);
            }
            if Self::matches(&items[i], search) {
                let c = items[i].duplicate();
                let ghost before = r@;
                r.push(c);
                proof {
                    assert(models(r@) =~= models(before).push(c.model()));
                    assert(models(visible(next, search@)) =~= models(visible(prefix, search@)).push(
                        items@[i as int].model(),
                    ));
                }
            }
            i = i + 1;
        }
        proof {
            assert(items@.subrange(0, items@.len() as int) =~= items@);
        }
        r
    }

    /// The visible entries: `None` unless loaded, otherwise copies of the
    /// entries that match the search, in cache order.
    pub fn snapshot_filtered(&self) -> (r: Option<Vec<R>>)
        ensures
            r is None <==> !(self.status() is Loaded),
            r matches Some(v) ==> models(v@) == models(visible(self.entries(), self.search())),
    {
        match &self.status {
            LoadStatus::Loaded(items) => Some(Self::visible_copy(items, &self.search)),
            _ => None,
        }
    }

    fn loaded_message(&self) -> (m: Option<CacheMessage<R>>)
        ensures
            m is None <==> !(self.status() is Loaded),
            m matches Some(msg) ==> is_loaded_view(msg, self.entries(), self.search()),
    {
        match self.snapshot_filtered() {
            Some(items) => Some(CacheMessage::Loaded { items }),
            None => None,
        }
    }

    /// A fetch starts: the status becomes `Loading` and the user interface is
    /// told so.
    pub fn start_loading(&mut self) -> (m: CacheMessage<R>)
        requires
            old(self).wf(),
        ensures
            final(self).wf(),
            final(self).status() is Loading,
            final(self).search() == old(self).search(),
            m is Loading,
            !(old(self).status() is Loading) ==> allowed_transition(old(self).status(), final(self).status()),
    {
        self.status = LoadStatus::Loading;
        CacheMessage::Loading
    }

    /// A bulk fetch has ended: on success its entries replace the whole
    /// collection (of two with one key the later stays), on failure the
    /// status records the error. Either way one message tells the user
    /// interface the outcome.
    pub fn finish_load(&mut self, result: Result<Vec<R>, String>) -> (m: CacheMessage<R>)
        ensures
            final(self).wf(),
            final(self).search() == old(self).search(),
            match result {
                Ok(items) => {
                    &&& final(self).status() == LoadStatus::Loaded(collect_keyed(items@))
                    &&& is_loaded_view(m, final(self).entries(), final(self).search())
                },
                Err(e) => {
                    &&& final(self).status() == LoadStatus::<Seq<R>>::Error(e)
                    &&& m matches CacheMessage::LoadingFailed { error } && error@ == e@
                },
            },
            old(self).status() is Loading ==> allowed_transition(old(self).status(), final(self).status()),
    {
        match result {
            Ok(items) => {
                let mut items = items;
                let ghost all = items@;
                let mut collected: Vec<R> = Vec::new();
                let mut rest: Vec<R> = Vec::new();
                // take the entries in order: reverse into `rest`, then pop
                while items.len() > 0
                    invariant
                        rest@ == all.subrange(items@.len() as int, all.len() as int).reverse(),
                        items@ == all.subrange(0, items@.len() as int),
                        items@.len() <= all.len(),
                    decreases items@.len(),
                {
                    let ghost n = items@.len();
                    let x = items.pop().unwrap();
                    rest.push(x);
                    proof {
                        assert(items@ =~= all.subrange(0, items@.len() as int));
                        assert(rest@ =~= all.subrange(items@.len() as int, all.len() as int).reverse());
                    }
                }
                proof {
                    assert(collected@ =~= collect_keyed(all.subrange(0, 0)));
                }
                while rest.len() > 0
                    invariant
                        rest@.len() <= all.len(),
                        rest@ == all.subrange(all.len() - rest@.len(), all.len() as int).reverse(),
                        collected@ == collect_keyed(all.subrange(0, all.len() - rest@.len())),
                        unique_keys(collected@),
                    decreases rest@.len(),
                {
                    let ghost done = all.len() - rest@.len();
                    let x = rest.pop().unwrap();
                    proof {
                        assert(x == all[done]);
                        assert(all.subrange(0, done + 1).drop_last() =~= all.subrange(0, done));
                        assert(rest@ =~= all.subrange(all.len() - rest@.len(), all.len() as int).reverse());
                        lemma_put_unique(collected@, x);
                    }
                    Self::put_entry(&mut collected, x);
                }
                proof {
                    assert(all.subrange(0, all.len() as int) =~= all);
                }
                self.status = LoadStatus::Loaded(collected);
                self.loaded_message().unwrap()
            },
            Err(e) => {
                let error = e.clone();
                self.status = LoadStatus::Error(e);
                CacheMessage::LoadingFailed { error }
            },
        }
    }

    fn put_entry(items: &mut Vec<R>, r: R)
        requires
            unique_keys(old(items)@),
        ensures
            final(items)@ == put(old(items)@, r),
            unique_keys(final(items)@),
    {
        proof {
            lemma_put_unique(items@, r);
            lemma_key_index(items@, r.key());
        }
        match Self::position(items, r.key_str()) {
            Some(i) => {
                items.set(i, r);
            },
            None => {
                items.push(r);
            },
        }
    }

    /// Applies a created or changed resource. Not loaded: nothing changes.
    /// An identical entry with its key already there: nothing changes and no
    /// message goes out. Otherwise the entry is put in place of the old one,
    /// or appended, and the visible entries go out.
    pub fn apply_upsert(&mut self, r: R) -> (m: Option<CacheMessage<R>>)
        requires
            old(self).wf(),
        ensures
            final(self).wf(),
            final(self).search() == old(self).search(),
            !(old(self).status() is Loaded) ==> final(self).status() == old(self).status() && m is None,
            old(self).status() is Loaded ==> {
                &&& final(self).status() == LoadStatus::Loaded(upsert_result(old(self).entries(), r))
                &&& upsert_is_silent(old(self).entries(), r) ==> m is None
                &&& !upsert_is_silent(old(self).entries(), r) ==> notifies_view(
                    m,
                    final(self).entries(),
                    final(self).search(),
                )
            },
    {
        let mut status = LoadStatus::Initial;
        std::mem::swap(&mut status, &mut self.status);
        match status {
            LoadStatus::Loaded(mut items) => {
                proof {
                    lemma_key_index(items@, r.key());
                }
                match Self::position(&items, r.key_str()) {
                    Some(i) => {
                        if items[i].is_same(&r) {
                            self.status = LoadStatus::Loaded(items);
                            return None;
                        }
                    },
                    None => {},
                }
                Self::put_entry(&mut items, r);
                self.status = LoadStatus::Loaded(items);
                self.loaded_message()
            },
            other => {
                self.status = other;
                None
            },
        }
    }

    /// Applies a removed resource. The entry with the key is removed when
    /// there is one, and the visible entries go out; otherwise nothing
    /// changes and no message goes out.
    pub fn apply_delete(&mut self, key: &String) -> (m: Option<CacheMessage<R>>)
        requires
            old(self).wf(),
        ensures
            final(self).wf(),
            final(self).search() == old(self).search(),
            !(old(self).status() is Loaded) ==> final(self).status() == old(self).status() && m is None,
            old(self).status() is Loaded ==> {
                &&& final(self).status() == LoadStatus::Loaded(without(old(self).entries(), key@))
                &&& !has_key(old(self).entries(), key@) ==> m is None
                &&& has_key(old(self).entries(), key@) ==> notifies_view(
                    m,
                    final(self).entries(),
                    final(self).search(),
                )
            },
    {
        let mut status = LoadStatus::Initial;
        std::mem::swap(&mut status, &mut self.status);
        match status {
            LoadStatus::Loaded(mut items) => {
                proof {
                    lemma_key_index(items@, key@);
                    lemma_without_unique(items@, key@);
                }
                match Self::position(&items, key) {
                    Some(i) => {
                        items.remove(i);
                        self.status = LoadStatus::Loaded(items);
                        self.loaded_message()
                    },
                    None => {
                        self.status = LoadStatus::Loaded(items);
                        None
                    },
                }
            },
            other => {
                self.status = other;
                None
            },
        }
    }

    /// Sets the search text; when loaded the newly visible entries go out.
    /// Nothing is fetched.
    pub fn set_search(&mut self, search: String) -> (m: Option<CacheMessage<R>>)
        requires
            old(self).wf(),
        ensures
            final(self).wf(),
            final(self).status() == old(self).status(),
            final(self).search() == search@,
            m is None <==> !(old(self).status() is Loaded),
            m matches Some(msg) ==> is_loaded_view(msg, final(self).entries(), search@),
    {
        self.search = search;
        self.loaded_message()
    }

    /// The entry with the given key, when loaded and present.
    pub fn get(&self, key: &String) -> (r: Option<&R>)
        requires
            self.wf(),
        ensures
            r is None <==> !(self.status() is Loaded && has_key(self.entries(), key@)),
            r matches Some(x) ==> *x == self.entries()[key_index(self.entries(), key@)],
    {
        match &self.status {
            LoadStatus::Loaded(items) => {
                proof {
                    lemma_key_index(items@, key@);
                }
                match Self::position(items, key) {
                    Some(i) => Some(&items[i]),
                    None => None,
                }
            },
            _ => None,
        }
    }
}

/// Applying the same resource value twice: the second application changes
/// nothing and sends nothing, so the pair sends at most one message (the
/// first application's, which comes exactly when the value was new).
pub proof fn lemma_upsert_idempotent<R: Resource>(s: Seq<R>, r: R, again: R)
    requires
        unique_keys(s),
        again.model() == r.model(),
    ensures
        unique_keys(upsert_result(s, r)),
        upsert_is_silent(upsert_result(s, r), again),
        upsert_result(upsert_result(s, r), again) == upsert_result(s, r),
{
    R::lemma_model_fixes_key(&again, &r);
    lemma_key_index(s, r.key());
    if !upsert_is_silent(s, r) {
        lemma_put_unique(s, r);
        let t = put(s, r);
        lemma_key_index(t, r.key());
        assert(again.key() == r.key());
        assert(t[key_index(t, again.key())] == r);
        assert(upsert_is_silent(t, again));
    } else {
        assert(upsert_is_silent(s, again));
    }
}

/// Deleting a present key removes its entry (and the caller sends one
/// message); deleting an absent key changes nothing and sends nothing. Either
/// way the key is absent afterwards, so deleting it again is silent.
pub proof fn lemma_delete_monotonic<R: Resource>(s: Seq<R>, k: Seq<char>)
    requires
        unique_keys(s),
    ensures
        unique_keys(without(s, k)),
        !has_key(without(s, k), k),
        has_key(s, k) ==> without(s, k).len() == s.len() - 1,
        !has_key(s, k) ==> without(s, k) == s,
        without(without(s, k), k) == without(s, k),
{
    lemma_key_index(s, k);
    lemma_without_unique(s, k);
    lemma_key_index(without(s, k), k);
}

} // verus!
