use vstd::prelude::*;
use crate::cluster::{ClusterId, id_opt_view};
use crate::keys::{index_of_key, distinct_keys, lemma_index_of_key};

verus! {

/// Identifies one window (a user interface surface).
#[derive(Debug, Clone, PartialEq, Eq, Hash)]
pub struct WindowId(pub String);

impl View for WindowId {
    type V = Seq<char>;

    open spec fn view(&self) -> Seq<char> {
        self.0@
    }
}

impl WindowId {
    pub fn new(raw: String) -> (r: WindowId)
        ensures
            r@ == raw@,
    {
        WindowId(raw)
    }

    pub fn duplicate(&self) -> (r: WindowId)
        ensures
            r@ == self@,
    {
        WindowId(self.0.clone())
    }
}

/// The settings of one window.
#[derive(Debug, Clone, Default, PartialEq, Eq)]
pub struct WindowConfig {
    pub selected_cluster: Option<ClusterId>,
}

fn clone_id(o: &Option<ClusterId>) -> (r: Option<ClusterId>)
    ensures
        id_opt_view(r) == id_opt_view(*o),
{
    match o {
        Some(c) => Some(c.clone()),
        None => None,
    }
}

/// The user's settings: the cluster selected last, and per open window the
/// cluster selected there.
#[derive(Debug, Clone, PartialEq, Eq)]
pub struct UserConfig {
    pub selected_cluster: Option<ClusterId>,
    pub window_configs: Vec<(WindowId, WindowConfig)>,
}

impl UserConfig {
    pub open spec fn window_keys(&self) -> Seq<Seq<char>> {
        self.window_configs@.map_values(|e: (WindowId, WindowConfig)| e.0@)
    }

    pub open spec fn wf(&self) -> bool {
        distinct_keys(self.window_keys())
    }

    /// The selection recorded for a window: `None` when the window has no
    /// settings.
    pub open spec fn window_selection(&self, w: Seq<char>) -> Option<Option<Seq<char>>> {
        let i = index_of_key(self.window_keys(), w);
        if i < 0 {
            None
        } else {
            Some(id_opt_view(self.window_configs@[i].1.selected_cluster))
        }
    }

    pub fn new() -> (r: UserConfig)
        ensures
            r.wf(),
            r.selected_cluster is None,
            forall|w: Seq<char>| r.window_selection(w) is None,
    {
        UserConfig { selected_cluster: None, window_configs: Vec::new() }
    }

    fn find(&self, window_id: &WindowId) -> (r: Option<usize>)
        requires
            self.wf(),
        ensures
            r is None ==> index_of_key(self.window_keys(), window_id@) < 0,
            r matches Some(i) ==> i as int == index_of_key(self.window_keys(), window_id@) && i < self.window_configs@.len(),
    {
        let mut i: usize = 0;
        while i < self.window_configs.len()
            invariant
                i <= self.window_configs@.len(),
                distinct_keys(self.window_keys()),
                forall|j: int| 0 <= j < i ==> self.window_keys()[j] != window_id@,
            decreases self.window_configs@.len() - i,
        {
            if self.window_configs[i].0.0.eq(&window_id.0) {
                proof {
                    lemma_index_of_key(self.window_keys(), window_id@);
                    assert(self.window_keys()[i as int] == window_id@);
                }
                return Some(i);
            }
            i = i + 1;
        }
        proof {
            lemma_index_of_key(self.window_keys(), window_id@);
            if self.window_keys().contains(window_id@) {
                let j = choose|j: int| 0 <= j < self.window_keys().len() && self.window_keys()[j] == window_id@;
            }
        }
        None
    }

    /// The cluster to show in a window: the one selected in that window, or
    /// else the one selected last anywhere.
    pub fn get_selected_cluster(&self, window_id: &WindowId) -> (r: Option<ClusterId>)
        requires
            self.wf(),
        ensures
            id_opt_view(r) == match self.window_selection(window_id@) {
                Some(Some(c)) => Some(c),
                _ => id_opt_view(self.selected_cluster),
            },
    {
        match self.find(window_id) {
            Some(i) => match &self.window_configs[i].1.selected_cluster {
                Some(c) => Some(c.clone()),
                None => clone_id(&self.selected_cluster),
            },
            None => clone_id(&self.selected_cluster),
        }
    }

    /// Records a selection in a window; it also becomes the last selection.
    pub fn set_selected_cluster(&mut self, window_id: WindowId, cluster_id: ClusterId)
        requires
            old(self).wf(),
        ensures
            final(self).wf(),
            id_opt_view(final(self).selected_cluster) == Some(cluster_id@),
            final(self).window_selection(window_id@) == Some(Some(cluster_id@)),
            forall|w: Seq<char>| w != window_id@ ==> final(self).window_selection(w) == old(self).window_selection(w),
    {
        let ghost old_self = *self;
        self.selected_cluster = Some(cluster_id.clone());
        proof {
            lemma_index_of_key(old_self.window_keys(), window_id@);
        }
        match self.find(&window_id) {
            Some(i) => {
                let entry = (window_id, WindowConfig { selected_cluster: Some(cluster_id) });
                self.window_configs.set(i, entry);
                proof {
                    assert(self.window_keys() =~= old_self.window_keys());
                    assert forall|w: Seq<char>| w != window_id@ implies self.window_selection(w) == old_self.window_selection(w) by {
                        lemma_index_of_key(self.window_keys(), w);
                    }
                }
            },
            None => {
                let ghost wv = window_id@;
                self.window_configs.push((window_id, WindowConfig { selected_cluster: Some(cluster_id) }));
                proof {
                    assert(self.window_keys() =~= old_self.window_keys().push(wv));
                    assert forall|a: int, b: int|
                        0 <= a < self.window_keys().len() && 0 <= b < self.window_keys().len() && a != b implies self.window_keys()[a]
                            != self.window_keys()[b] by {
                        if a < old_self.window_keys().len() && b < old_self.window_keys().len() {
                        } else if a < old_self.window_keys().len() {
                            assert(old_self.window_keys().contains(old_self.window_keys()[a]));
                        } else {
                            assert(old_self.window_keys().contains(old_self.window_keys()[b]));
                        }
                    }
                    assert forall|w: Seq<char>| w != wv implies self.window_selection(w) == old_self.window_selection(w) by {
                        assert(self.window_keys().drop_last() =~= old_self.window_keys());
                        lemma_index_of_key(old_self.window_keys(), w);
                        let oi = index_of_key(old_self.window_keys(), w);
                        assert(index_of_key(self.window_keys(), w) == oi);
                        if oi >= 0 {
                            assert(self.window_configs@[oi] == old_self.window_configs@[oi]);
                        }
                    }
                }
            },
        }
    }

    /// Forgets a closed window's settings.
    pub fn clear_window_config(&mut self, window_id: &WindowId)
        requires
            old(self).wf(),
        ensures
            final(self).wf(),
            final(self).selected_cluster == old(self).selected_cluster,
            final(self).window_selection(window_id@) is None,
            forall|w: Seq<char>| w != window_id@ ==> final(self).window_selection(w) == old(self).window_selection(w),
    {
        let ghost old_self = *self;
        proof {
            lemma_index_of_key(old_self.window_keys(), window_id@);
        }
        match self.find(window_id) {
            Some(i) => {
                self.window_configs.remove(i);
                proof {
                    let ks = old_self.window_keys();
                    assert(self.window_keys() =~= ks.remove(i as int));
                    assert forall|a: int, b: int|
                        0 <= a < self.window_keys().len() && 0 <= b < self.window_keys().len() && a != b implies self.window_keys()[a]
                            != self.window_keys()[b] by {
                        let a2 = if a < i { a } else { a + 1 };
                        let b2 = if b < i { b } else { b + 1 };
                        assert(self.window_keys()[a] == ks[a2]);
                        assert(self.window_keys()[b] == ks[b2]);
                    }
                    lemma_index_of_key(self.window_keys(), window_id@);
                    if self.window_keys().contains(window_id@) {
                        let j = choose|j: int| 0 <= j < self.window_keys().len() && self.window_keys()[j] == window_id@;
                        let j2 = if j < i { j } else { j + 1 };
                        assert(ks[j2] == window_id@);
                    }
                    assert forall|w: Seq<char>| w != window_id@ implies self.window_selection(w) == old_self.window_selection(w) by {
                        lemma_index_of_key(self.window_keys(), w);
                        lemma_index_of_key(ks, w);
                        let oi = index_of_key(ks, w);
                        if oi >= 0 {
                            let ni = if oi < i { oi } else { oi - 1 };
                            assert(self.window_keys()[ni] == w);
                            assert(self.window_configs@[ni] == old_self.window_configs@[oi]);
                        } else {
                            if self.window_keys().contains(w) {
                                let j = choose|j: int| 0 <= j < self.window_keys().len() && self.window_keys()[j] == w;
                                let j2 = if j < i { j } else { j + 1 };
                                assert(ks[j2] == w);
                            }
                        }
                    }
                }
            },
            None => {},
        }
    }
}

} // verus!
