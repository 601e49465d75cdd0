use vstd::prelude::*;
use crate::cluster::{Cluster, ClusterId, Clusters, id_opt_view};
use crate::key_handler::{FocusRegion, KeyAwareEvent, KeyHandler};
use crate::tab::{Tab, TabGroup, TabGroups, BorrowedTabs, tab_ids, group_ids, first_at, start_at, next_of, previous_of};
use crate::tab_ids::{TabId, TabGroupId};
use crate::text::{lowercase, lowercase_of, contains_str, contains_seq};
use crate::user_config::WindowId;

verus! {

/// A field of the main view that changed, for the window's listener.
#[derive(Debug, Clone)]
pub enum MainViewModelField {
    CurrentFocusRegion { focus_region: FocusRegion },
    SelectedTab { tab_id: TabId },
    TabGroupExpansions { expansions: Vec<(TabGroupId, bool)> },
}

/// Receives the changed fields of a window's main view.
pub trait MainViewModelUpdater {
    fn update(&self, field: MainViewModelField);
}

/// The ids of a group and of its tabs.
pub open spec fn shape(gs: Seq<TabGroup>) -> Seq<(TabGroupId, Seq<TabId>)> {
    gs.map_values(|g: TabGroup| (g.id, tab_ids(g.tabs@)))
}

/// A tab matches a search when the lower-cased search text occurs in its
/// lower-cased title.
pub open spec fn tab_matches(t: Tab, search: Seq<char>) -> bool {
    contains_seq(lowercase_of(t.name@), lowercase_of(search))
}

/// The ids of the tabs that match the search, in order.
pub open spec fn matching_tabs(ts: Seq<Tab>, search: Seq<char>) -> Seq<TabId>
    decreases ts.len(),
{
    if ts.len() == 0 {
        Seq::empty()
    } else if tab_matches(ts.last(), search) {
        matching_tabs(ts.drop_last(), search).push(ts.last().id)
    } else {
        matching_tabs(ts.drop_last(), search)
    }
}

/// The sidebar under a search: every group with its matching tabs, groups
/// without any left out; without a search, everything.
pub open spec fn filtered_shape(gs: Seq<TabGroup>, search: Option<Seq<char>>) -> Seq<(TabGroupId, Seq<TabId>)>
    decreases gs.len(),
{
    match search {
        None => shape(gs),
        Some(s) => if gs.len() == 0 {
            Seq::empty()
        } else {
            let rest = filtered_shape(gs.drop_last(), search);
            let m = matching_tabs(gs.last().tabs@, s);
            if m.len() == 0 {
                rest
            } else {
                rest.push((gs.last().id, m))
            }
        },
    }
}

pub open spec fn ids_of_shape(fs: Seq<(TabGroupId, Seq<TabId>)>) -> Seq<TabGroupId> {
    fs.map_values(|e: (TabGroupId, Seq<TabId>)| e.0)
}

/// The position `next`/`previous` move from: the first position of `x`, or 0.
pub open spec fn start_index<T>(s: Seq<T>, x: T) -> int {
    if s.contains(x) {
        choose|i: int| first_at(s, x, i)
    } else {
        0
    }
}

pub open spec fn next_in<T>(s: Seq<T>, x: T) -> Option<T> {
    let i = start_index(s, x);
    if i + 1 < s.len() {
        Some(s[i + 1])
    } else {
        None
    }
}

pub open spec fn previous_in<T>(s: Seq<T>, x: T) -> Option<T> {
    let i = start_index(s, x);
    if 0 < i < s.len() {
        Some(s[i - 1])
    } else {
        None
    }
}

/// The tabs of the first group with the id.
pub open spec fn tabs_of(fs: Seq<(TabGroupId, Seq<TabId>)>, id: TabGroupId) -> Option<Seq<TabId>> {
    let ids = ids_of_shape(fs);
    if ids.contains(id) {
        Some(fs[start_index(ids, id)].1)
    } else {
        None
    }
}

pub proof fn lemma_first_exists<T>(s: Seq<T>, x: T)
    requires
        s.contains(x),
    ensures
        start_at(s, x, start_index(s, x)),
        first_at(s, x, start_index(s, x)),
    decreases s.len(),
{
    if s.drop_last().contains(x) {
        lemma_first_exists(s.drop_last(), x);
        let i = start_index(s.drop_last(), x);
        assert(first_at(s.drop_last(), x, i));
        assert forall|j: int| 0 <= j < i implies s[j] != x by {
            assert(s[j] == s.drop_last()[j]);
        }
        assert(s[i] == s.drop_last()[i]);
        assert(first_at(s, x, i));
    } else {
        assert(first_at(s, x, s.len() - 1)) by {
            assert forall|j: int| 0 <= j < s.len() - 1 implies s[j] != x by {
                if s[j] == x {
                    assert(s.drop_last()[j] == x);
                }
            }
        }
    }
}

pub proof fn lemma_start_index<T>(s: Seq<T>, x: T)
    ensures
        start_at(s, x, start_index(s, x)),
        forall|i: int| start_at(s, x, i) ==> i == start_index(s, x),
{
    if s.contains(x) {
        lemma_first_exists(s, x);
    }
    assert forall|i: int| start_at(s, x, i) implies i == start_index(s, x) by {
        let k = start_index(s, x);
        if first_at(s, x, i) && first_at(s, x, k) {
            if i < k {
                assert(s[i] != x);
            } else if k < i {
                assert(s[k] != x);
            }
        } else if first_at(s, x, i) || first_at(s, x, k) {
            assert(s.contains(x));
        }
    }
}

/// Where the focus moves on a key, given the sidebar under the search.
pub open spec fn focus_after(focus: FocusRegion, key: KeyAwareEvent, fs: Seq<(TabGroupId, Seq<TabId>)>) -> FocusRegion {
    let ids = ids_of_shape(fs);
    match (focus, key) {
        (FocusRegion::SidebarSearch, KeyAwareEvent::TabKey) => if fs.len() > 0 {
            FocusRegion::SidebarGroup { id: fs[0].0 }
        } else {
            FocusRegion::Content
        },
        (FocusRegion::SidebarGroup { id }, KeyAwareEvent::ShiftTab)
        | (FocusRegion::InTabGroup { tab_group_id: id, .. }, KeyAwareEvent::ShiftTab) => match previous_in(ids, id) {
            Some(p) => FocusRegion::SidebarGroup { id: p },
            None => FocusRegion::SidebarSearch,
        },
        (FocusRegion::SidebarGroup { id }, KeyAwareEvent::TabKey)
        | (FocusRegion::InTabGroup { tab_group_id: id, .. }, KeyAwareEvent::TabKey) => match next_in(ids, id) {
            Some(n) => FocusRegion::SidebarGroup { id: n },
            None => FocusRegion::ClusterSelection,
        },
        (FocusRegion::ClusterSelection, KeyAwareEvent::TabKey) => FocusRegion::Content,
        (FocusRegion::ClusterSelection, KeyAwareEvent::ShiftTab) => if fs.len() > 0 {
            FocusRegion::SidebarGroup { id: fs.last().0 }
        } else {
            FocusRegion::SidebarSearch
        },
        (FocusRegion::Content, KeyAwareEvent::ShiftTab) => FocusRegion::ClusterSelection,
        (FocusRegion::Content, KeyAwareEvent::TabKey) => FocusRegion::SidebarSearch,
        (FocusRegion::SidebarGroup { .. }, KeyAwareEvent::Escape)
        | (FocusRegion::SidebarSearch, KeyAwareEvent::Escape) => FocusRegion::Content,
        (FocusRegion::SidebarGroup { id }, KeyAwareEvent::DownArrow)
        | (FocusRegion::SidebarGroup { id }, KeyAwareEvent::UpArrow)
        | (FocusRegion::InTabGroup { tab_group_id: id, .. }, KeyAwareEvent::DownArrow)
        | (FocusRegion::InTabGroup { tab_group_id: id, .. }, KeyAwareEvent::UpArrow) => match selects(focus, key, fs) {
            Some(t) => FocusRegion::InTabGroup { tab_group_id: id, tab_id: t },
            None => focus,
        },
        (FocusRegion::InTabGroup { .. }, KeyAwareEvent::Space)
        | (FocusRegion::InTabGroup { .. }, KeyAwareEvent::Enter)
        | (FocusRegion::SidebarGroup { .. }, KeyAwareEvent::Space)
        | (FocusRegion::SidebarGroup { .. }, KeyAwareEvent::Enter) => focus,
        (_, KeyAwareEvent::OptionF) => FocusRegion::SidebarSearch,
        _ => focus,
    }
}

/// The tab a key selects, if any: the first or last tab of a focused group,
/// or the next or previous tab within the focused group (wrapping around).
pub open spec fn selects(focus: FocusRegion, key: KeyAwareEvent, fs: Seq<(TabGroupId, Seq<TabId>)>) -> Option<TabId> {
    match (focus, key) {
        (FocusRegion::SidebarGroup { id }, KeyAwareEvent::DownArrow) => match tabs_of(fs, id) {
            Some(ts) => if ts.len() > 0 { Some(ts[0]) } else { None },
            None => None,
        },
        (FocusRegion::SidebarGroup { id }, KeyAwareEvent::UpArrow) => match tabs_of(fs, id) {
            Some(ts) => if ts.len() > 0 { Some(ts.last()) } else { None },
            None => None,
        },
        (FocusRegion::InTabGroup { tab_group_id, tab_id }, KeyAwareEvent::DownArrow) => match tabs_of(fs, tab_group_id) {
            Some(ts) => match next_in(ts, tab_id) {
                Some(n) => Some(n),
                None => if ts.len() > 0 { Some(ts[0]) } else { None },
            },
            None => None,
        },
        (FocusRegion::InTabGroup { tab_group_id, tab_id }, KeyAwareEvent::UpArrow) => match tabs_of(fs, tab_group_id) {
            Some(ts) => match previous_in(ts, tab_id) {
                Some(p) => Some(p),
                None => if ts.len() > 0 { Some(ts.last()) } else { None },
            },
            None => None,
        },
        _ => None,
    }
}

/// The group whose expansion a key toggles, if any.
pub open spec fn toggles(focus: FocusRegion, key: KeyAwareEvent) -> Option<TabGroupId> {
    match (focus, key) {
        (FocusRegion::InTabGroup { tab_group_id: id, .. }, KeyAwareEvent::Space)
        | (FocusRegion::InTabGroup { tab_group_id: id, .. }, KeyAwareEvent::Enter)
        | (FocusRegion::SidebarGroup { id }, KeyAwareEvent::Space)
        | (FocusRegion::SidebarGroup { id }, KeyAwareEvent::Enter) => Some(id),
        _ => None,
    }
}

/// Whether the focus logic handles a key (and so the default action is
/// prevented).
pub open spec fn handles(focus: FocusRegion, key: KeyAwareEvent) -> bool {
    match (focus, key) {
        (FocusRegion::SidebarSearch, KeyAwareEvent::TabKey) => true,
        (FocusRegion::SidebarGroup { .. }, KeyAwareEvent::ShiftTab) => true,
        (FocusRegion::SidebarGroup { .. }, KeyAwareEvent::TabKey) => true,
        (FocusRegion::InTabGroup { .. }, KeyAwareEvent::ShiftTab) => true,
        (FocusRegion::InTabGroup { .. }, KeyAwareEvent::TabKey) => true,
        (FocusRegion::ClusterSelection, KeyAwareEvent::TabKey) => true,
        (FocusRegion::ClusterSelection, KeyAwareEvent::ShiftTab) => true,
        (FocusRegion::Content, KeyAwareEvent::ShiftTab) => true,
        (FocusRegion::Content, KeyAwareEvent::TabKey) => true,
        (FocusRegion::SidebarGroup { .. }, KeyAwareEvent::Escape) => true,
        (FocusRegion::SidebarSearch, KeyAwareEvent::Escape) => true,
        (FocusRegion::SidebarGroup { .. }, KeyAwareEvent::DownArrow) => true,
        (FocusRegion::SidebarGroup { .. }, KeyAwareEvent::UpArrow) => true,
        (FocusRegion::InTabGroup { .. }, KeyAwareEvent::DownArrow) => true,
        (FocusRegion::InTabGroup { .. }, KeyAwareEvent::UpArrow) => true,
        (FocusRegion::InTabGroup { .. }, KeyAwareEvent::Space) => true,
        (FocusRegion::InTabGroup { .. }, KeyAwareEvent::Enter) => true,
        (FocusRegion::SidebarGroup { .. }, KeyAwareEvent::Space) => true,
        (FocusRegion::SidebarGroup { .. }, KeyAwareEvent::Enter) => true,
        (_, KeyAwareEvent::OptionF) => true,
        _ => false,
    }
}

/// Every entry of group `g` set to `v`.
pub open spec fn set_expansion(s: Seq<(TabGroupId, bool)>, g: TabGroupId, v: bool) -> Seq<(TabGroupId, bool)> {
    s.map_values(|e: (TabGroupId, bool)| if e.0 == g { (g, v) } else { e })
}

/// Every entry of group `g` flipped.
pub open spec fn toggle_expansion(s: Seq<(TabGroupId, bool)>, g: TabGroupId) -> Seq<(TabGroupId, bool)> {
    s.map_values(|e: (TabGroupId, bool)| if e.0 == g { (g, !e.1) } else { e })
}

/// The first group that holds the tab.
pub open spec fn holder(gs: Seq<TabGroup>, t: TabId) -> Option<TabGroupId> {
    if exists|g: int| 0 <= g < gs.len() && tab_ids(gs[g].tabs@).contains(t) {
        let g = choose|g: int|
            0 <= g < gs.len() && tab_ids(gs[g].tabs@).contains(t) && forall|h: int| 0 <= h < g ==> !tab_ids(gs[h].tabs@).contains(t);
        Some(gs[g].id)
    } else {
        None
    }
}

proof fn lemma_holder(gs: Seq<TabGroup>, t: TabId, g: int)
    requires
        0 <= g < gs.len(),
        tab_ids(gs[g].tabs@).contains(t),
        forall|h: int| 0 <= h < g ==> !tab_ids(gs[h].tabs@).contains(t),
    ensures
        holder(gs, t) == Some(gs[g].id),
{
    let c = choose|c: int|
        0 <= c < gs.len() && tab_ids(gs[c].tabs@).contains(t) && forall|h: int| 0 <= h < c ==> !tab_ids(gs[h].tabs@).contains(t);
    if c < g {
        assert(!tab_ids(gs[c].tabs@).contains(t));
    } else if g < c {
        assert(!tab_ids(gs[g].tabs@).contains(t));
    }
}

/// The expansions after selecting tab `t`: its group is expanded.
pub open spec fn expanded_for(s: Seq<(TabGroupId, bool)>, gs: Seq<TabGroup>, t: TabId) -> Seq<(TabGroupId, bool)> {
    match holder(gs, t) {
        Some(g) => set_expansion(s, g, true),
        None => s,
    }
}

/// The fixed sidebar layout: each group with its tabs.
pub open spec fn default_layout() -> Seq<(TabGroupId, Seq<TabId>)> {
    seq![
        (TabGroupId::General, seq![TabId::ClusterTab, TabId::Nodes, TabId::NameSpaces, TabId::Events]),
        (TabGroupId::Workloads, seq![TabId::Overview, TabId::Pods, TabId::Deployments, TabId::DaemonSets, TabId::StatefulSets, TabId::ReplicaSets, TabId::Jobs, TabId::CronJobs]),
        (TabGroupId::Config, seq![TabId::ConfigMaps, TabId::Secrets, TabId::ResourceQuotas, TabId::LimitRanges, TabId::HorizontalPodAutoscalers, TabId::PodDisruptionBudgets, TabId::PriorityClasses, TabId::RuntimeClasses, TabId::Leases]),
        (TabGroupId::Network, seq![TabId::Services, TabId::Endpoints, TabId::Ingresses, TabId::NetworkPolicies, TabId::PortForwarding]),
        (TabGroupId::Storage, seq![TabId::PersistentVolumes, TabId::PersistentVolumeClaims, TabId::StorageClasses]),
        (TabGroupId::AccessControl, seq![TabId::Roles, TabId::RoleBindings, TabId::ClusterRoles, TabId::ClusterRoleBindings, TabId::ServiceAccounts, TabId::PodSecurityPolicies]),
    ]
}

/// The ids of all tabs of a layout, group after group.
pub open spec fn flat(fs: Seq<(TabGroupId, Seq<TabId>)>) -> Seq<TabId>
    decreases fs.len(),
{
    if fs.len() == 0 {
        Seq::empty()
    } else {
        flat(fs.drop_last()) + fs.last().1
    }
}

/// The focus after a forward move from group `id`: the next group, or the
/// cluster selection after the last group.
pub fn get_next_tab_group_focus(tab_groups: &TabGroups, tab_group_id: &TabGroupId) -> (r: FocusRegion)
    ensures
        r == match next_in(group_ids(tab_groups.0@), *tab_group_id) {
            Some(n) => FocusRegion::SidebarGroup { id: n },
            None => FocusRegion::ClusterSelection,
        },
{
    proof {
        lemma_start_index(group_ids(tab_groups.0@), *tab_group_id);
    }
    match tab_groups.next_tab_group_id(tab_group_id) {
        Some(next_tab_group_id) => FocusRegion::SidebarGroup { id: next_tab_group_id },
        None => FocusRegion::ClusterSelection,
    }
}

/// The focus after a backward move from group `id`: the previous group, or
/// the search field before the first group.
pub fn get_previous_tab_group_focus(tab_groups: &TabGroups, tab_group_id: &TabGroupId) -> (r: FocusRegion)
    ensures
        r == match previous_in(group_ids(tab_groups.0@), *tab_group_id) {
            Some(p) => FocusRegion::SidebarGroup { id: p },
            None => FocusRegion::SidebarSearch,
        },
{
    proof {
        lemma_start_index(group_ids(tab_groups.0@), *tab_group_id);
    }
    match tab_groups.previous_tab_group_id(tab_group_id) {
        Some(previous_tab_group_id) => FocusRegion::SidebarGroup { id: previous_tab_group_id },
        None => FocusRegion::SidebarSearch,
    }
}

/// The tabs of the first group with the id.
fn group_tabs(groups: &TabGroups, id: TabGroupId) -> (r: Option<&Vec<Tab>>)
    ensures
        match tabs_of(shape(groups.0@), id) {
            Some(ts) => r is Some && tab_ids(r.unwrap()@) == ts,
            None => r is None,
        },
{
    proof {
        assert(group_ids(groups.0@) =~= ids_of_shape(shape(groups.0@)));
        lemma_start_index(group_ids(groups.0@), id);
    }
    match groups.get_by_id(&id) {
        Some(group) => Some(&group.tabs),
        None => None,
    }
}

/// The focus after a key that neither selects a tab nor toggles a group, and
/// whether the key is handled.
fn plain_move(focus: FocusRegion, key_input: KeyAwareEvent, filtered: &TabGroups) -> (r: (FocusRegion, bool))
    requires
        key_input != KeyAwareEvent::DownArrow,
        key_input != KeyAwareEvent::UpArrow,
        key_input != KeyAwareEvent::Space,
        key_input != KeyAwareEvent::Enter,
    ensures
        r.0 == focus_after(focus, key_input, shape(filtered.0@)),
        r.1 == handles(focus, key_input),
{
    proof {
        assert(group_ids(filtered.0@) =~= ids_of_shape(shape(filtered.0@)));
    }
    match (focus, key_input) {
        (FocusRegion::SidebarSearch, KeyAwareEvent::TabKey) => {
            if filtered.0.len() > 0 {
                (FocusRegion::SidebarGroup { id: filtered.0[0].id }, true)
            } else {
                (FocusRegion::Content, true)
            }
        },
        (FocusRegion::SidebarGroup { id }, KeyAwareEvent::ShiftTab)
        | (FocusRegion::InTabGroup { tab_group_id: id, .. }, KeyAwareEvent::ShiftTab) => {
            (get_previous_tab_group_focus(filtered, &id), true)
        },
        (FocusRegion::SidebarGroup { id }, KeyAwareEvent::TabKey)
        | (FocusRegion::InTabGroup { tab_group_id: id, .. }, KeyAwareEvent::TabKey) => {
            (get_next_tab_group_focus(filtered, &id), true)
        },
        (FocusRegion::ClusterSelection, KeyAwareEvent::TabKey) => (FocusRegion::Content, true),
        (FocusRegion::ClusterSelection, KeyAwareEvent::ShiftTab) => {
            if filtered.0.len() > 0 {
                let last_index = filtered.0.len() - 1;
                (FocusRegion::SidebarGroup { id: filtered.0[last_index].id }, true)
            } else {
                (FocusRegion::SidebarSearch, true)
            }
        },
        (FocusRegion::Content, KeyAwareEvent::ShiftTab) => (FocusRegion::ClusterSelection, true),
        (FocusRegion::Content, KeyAwareEvent::TabKey) => (FocusRegion::SidebarSearch, true),
        (FocusRegion::SidebarGroup { .. }, KeyAwareEvent::Escape)
        | (FocusRegion::SidebarSearch, KeyAwareEvent::Escape) => (FocusRegion::Content, true),
        (_, KeyAwareEvent::OptionF) => (FocusRegion::SidebarSearch, true),
        _ => (focus, false),
    }
}

/// The tab an arrow key lands on when pressed on group `id`: its first tab
/// going down, its last going up.
fn enter_target(filtered: &TabGroups, id: TabGroupId, key_input: KeyAwareEvent) -> (r: Option<TabId>)
    requires
        key_input == KeyAwareEvent::DownArrow || key_input == KeyAwareEvent::UpArrow,
    ensures
        r == selects(FocusRegion::SidebarGroup { id }, key_input, shape(filtered.0@)),
{
    match group_tabs(filtered, id) {
        Some(tabs) => {
            if tabs.len() == 0 {
                None
            } else if key_input == KeyAwareEvent::DownArrow {
                Some(tabs[0].id)
            } else {
                Some(tabs[tabs.len() - 1].id)
            }
        },
        None => None,
    }
}

/// The tab an arrow key moves to from tab `tab_id` of group `g`: the next
/// (or previous) one, wrapping around to the first (or last).
fn move_target(filtered: &TabGroups, g: TabGroupId, tab_id: TabId, key_input: KeyAwareEvent) -> (r: Option<TabId>)
    requires
        key_input == KeyAwareEvent::DownArrow || key_input == KeyAwareEvent::UpArrow,
    ensures
        r == selects(FocusRegion::InTabGroup { tab_group_id: g, tab_id }, key_input, shape(filtered.0@)),
{
    match group_tabs(filtered, g) {
        Some(tabs) => {
            proof {
                lemma_start_index(tab_ids(tabs@), tab_id);
            }
            if key_input == KeyAwareEvent::DownArrow {
                match BorrowedTabs::from(tabs).next_tab_id(&tab_id) {
                    Some(n) => Some(n),
                    None => if tabs.len() > 0 {
                        Some(tabs[0].id)
                    } else {
                        None
                    },
                }
            } else {
                match BorrowedTabs::from(tabs).previous_tab_id(&tab_id) {
                    Some(p) => Some(p),
                    None => if tabs.len() > 0 {
                        Some(tabs[tabs.len() - 1].id)
                    } else {
                        None
                    },
                }
            }
        },
        None => None,
    }
}

fn set_all(exps: &mut Vec<(TabGroupId, bool)>, g: TabGroupId, v: bool) -> (changed: bool)
    ensures
        final(exps)@ == set_expansion(old(exps)@, g, v),
        changed == exists|i: int| 0 <= i < old(exps)@.len() && old(exps)@[i].0 == g && old(exps)@[i].1 != v,
{
    let ghost orig = exps@;
    let mut changed = false;
    let mut i: usize = 0;
    while i < exps.len()
        invariant
            i <= exps@.len(),
            exps@.len() == orig.len(),
            forall|j: int| 0 <= j < i ==> exps@[j] == (if orig[j].0 == g { (g, v) } else { orig[j] }),
            forall|j: int| i <= j < exps@.len() ==> exps@[j] == orig[j],
            changed == exists|j: int| 0 <= j < i && orig[j].0 == g && orig[j].1 != v,
        decreases exps@.len() - i,
    {
        let e = exps[i];
        if e.0 == g {
            if e.1 != v {
                changed = true;
            }
            exps.set(i, (g, v));
        }
        i = i + 1;
    }
    proof {
        assert(exps@ =~= set_expansion(orig, g, v));
    }
    changed
}

fn toggle_all(exps: &mut Vec<(TabGroupId, bool)>, g: TabGroupId) -> (found: bool)
    ensures
        final(exps)@ == toggle_expansion(old(exps)@, g),
{
    let ghost orig = exps@;
    let mut found = false;
    let mut i: usize = 0;
    while i < exps.len()
        invariant
            i <= exps@.len(),
            exps@.len() == orig.len(),
            forall|j: int| 0 <= j < i ==> exps@[j] == (if orig[j].0 == g { (g, !orig[j].1) } else { orig[j] }),
            forall|j: int| i <= j < exps@.len() ==> exps@[j] == orig[j],
        decreases exps@.len() - i,
    {
        let e = exps[i];
        if e.0 == g {
            found = true;
            exps.set(i, (g, !e.1));
        }
        i = i + 1;
    }
    proof {
        assert(exps@ =~= toggle_expansion(orig, g));
    }
    found
}

fn copy_expansions(exps: &Vec<(TabGroupId, bool)>) -> (r: Vec<(TabGroupId, bool)>)
    ensures
        r@ == exps@,
{
    let mut r: Vec<(TabGroupId, bool)> = Vec::new();
    let mut i: usize = 0;
    while i < exps.len()
        invariant
            i <= exps@.len(),
            r@ == exps@.subrange(0, i as int),
        decreases exps@.len() - i,
    {
        r.push(exps[i]);
        i = i + 1;
    }
    proof {
        assert(exps@.subrange(0, exps@.len() as int) =~= exps@);
    }
    r
}

/// The state of one window's main view: the sidebar layout, the selected
/// tab, the expanded groups, the search and the keyboard focus. Changed
/// fields that the window's listener must hear of are collected until taken.
pub struct MainViewModel {
    window_id: WindowId,
    key_handler: KeyHandler,
    selected_cluster: Option<ClusterId>,
    tabs: Vec<Tab>,
    tab_groups: TabGroups,
    tab_group_expansions: Vec<(TabGroupId, bool)>,
    selected_tab: TabId,
    search: Option<String>,
    updates: Vec<MainViewModelField>,
}

impl MainViewModel {
    pub closed spec fn focus(&self) -> FocusRegion {
        self.key_handler.current_focus_region
    }

    pub closed spec fn groups(&self) -> Seq<TabGroup> {
        self.tab_groups.0@
    }

    pub closed spec fn all_tabs(&self) -> Seq<Tab> {
        self.tabs@
    }

    pub closed spec fn expansions(&self) -> Seq<(TabGroupId, bool)> {
        self.tab_group_expansions@
    }

    pub closed spec fn selected(&self) -> TabId {
        self.selected_tab
    }

    pub closed spec fn search_view(&self) -> Option<Seq<char>> {
        match self.search {
            Some(s) => Some(s@),
            None => None,
        }
    }

    /// The changed fields not yet taken.
    pub closed spec fn pending_updates(&self) -> Seq<MainViewModelField> {
        self.updates@
    }

    pub closed spec fn cluster_view(&self) -> Option<Seq<char>> {
        id_opt_view(self.selected_cluster)
    }

    /// The sidebar as it stands under the current search.
    pub open spec fn visible_shape(&self) -> Seq<(TabGroupId, Seq<TabId>)> {
        filtered_shape(self.groups(), self.search_view())
    }

    /// A window's main view: the fixed sidebar layout with every group
    /// expanded, the cluster tab selected, focus on the first group, no
    /// search, and the given cluster selected.
    pub fn new(window_id: WindowId, selected_cluster: Option<ClusterId>) -> (r: MainViewModel)
        ensures
            shape(r.groups()) == default_layout(),
            tab_ids(r.all_tabs()) == flat(default_layout()),
            r.expansions() == ids_of_shape(default_layout()).map_values(|g: TabGroupId| (g, true)),
            r.selected() == TabId::ClusterTab,
            r.focus() == (FocusRegion::SidebarGroup { id: TabGroupId::General }),
            r.search_view() is None,
            r.cluster_view() == id_opt_view(selected_cluster),
    {
        let mut groups: Vec<TabGroup> = Vec::new();
        let mut t0: Vec<Tab> = Vec::new();
        t0.push(Tab::new(TabId::ClusterTab, String::from_str("helm")));
        t0.push(Tab::new(TabId::Nodes, String::from_str("server.rack")));
        t0.push(Tab::new(TabId::NameSpaces, String::from_str("list.dash")));
        t0.push(Tab::new(TabId::Events, String::from_str("clock.arrow.circlepath")));
        proof {
            assert(tab_ids(t0@) =~= seq![TabId::ClusterTab, TabId::Nodes, TabId::NameSpaces, TabId::Events]);
        }
        groups.push(TabGroup::new(TabGroupId::General, t0));
        let mut t1: Vec<Tab> = Vec::new();
        t1.push(Tab::new(TabId::Overview, String::from_str("circle")));
        t1.push(Tab::new(TabId::Pods, String::from_str("circle")));
        t1.push(Tab::new(TabId::Deployments, String::from_str("circle")));
        t1.push(Tab::new(TabId::DaemonSets, String::from_str("circle")));
        t1.push(Tab::new(TabId::StatefulSets, String::from_str("circle")));
        t1.push(Tab::new(TabId::ReplicaSets, String::from_str("circle")));
        t1.push(Tab::new(TabId::Jobs, String::from_str("circle")));
        t1.push(Tab::new(TabId::CronJobs, String::from_str("circle")));
        proof {
            assert(tab_ids(t1@) =~= seq![TabId::Overview, TabId::Pods, TabId::Deployments, TabId::DaemonSets, TabId::StatefulSets, TabId::ReplicaSets, TabId::Jobs, TabId::CronJobs]);
        }
        groups.push(TabGroup::new(TabGroupId::Workloads, t1));
        let mut t2: Vec<Tab> = Vec::new();
        t2.push(Tab::new(TabId::ConfigMaps, String::from_str("gear")));
        t2.push(Tab::new(TabId::Secrets, String::from_str("gear")));
        t2.push(Tab::new(TabId::ResourceQuotas, String::from_str("gear")));
        t2.push(Tab::new(TabId::LimitRanges, String::from_str("gear")));
        t2.push(Tab::new(TabId::HorizontalPodAutoscalers, String::from_str("gear")));
        t2.push(Tab::new(TabId::PodDisruptionBudgets, String::from_str("gear")));
        t2.push(Tab::new(TabId::PriorityClasses, String::from_str("gear")));
        t2.push(Tab::new(TabId::RuntimeClasses, String::from_str("gear")));
        t2.push(Tab::new(TabId::Leases, String::from_str("gear")));
        proof {
            assert(tab_ids(t2@) =~= seq![TabId::ConfigMaps, TabId::Secrets, TabId::ResourceQuotas, TabId::LimitRanges, TabId::HorizontalPodAutoscalers, TabId::PodDisruptionBudgets, TabId::PriorityClasses, TabId::RuntimeClasses, TabId::Leases]);
        }
        groups.push(TabGroup::new(TabGroupId::Config, t2));
        let mut t3: Vec<Tab> = Vec::new();
        t3.push(Tab::new(TabId::Services, String::from_str("network")));
        t3.push(Tab::new(TabId::Endpoints, String::from_str("network")));
        t3.push(Tab::new(TabId::Ingresses, String::from_str("network")));
        t3.push(Tab::new(TabId::NetworkPolicies, String::from_str("network")));
        t3.push(Tab::new(TabId::PortForwarding, String::from_str("network")));
        proof {
            assert(tab_ids(t3@) =~= seq![TabId::Services, TabId::Endpoints, TabId::Ingresses, TabId::NetworkPolicies, TabId::PortForwarding]);
        }
        groups.push(TabGroup::new(TabGroupId::Network, t3));
        let mut t4: Vec<Tab> = Vec::new();
        t4.push(Tab::new(TabId::PersistentVolumes, String::from_str("externaldrive")));
        t4.push(Tab::new(TabId::PersistentVolumeClaims, String::from_str("externaldrive")));
        t4.push(Tab::new(TabId::StorageClasses, String::from_str("externaldrive")));
        proof {
            assert(tab_ids(t4@) =~= seq![TabId::PersistentVolumes, TabId::PersistentVolumeClaims, TabId::StorageClasses]);
        }
        groups.push(TabGroup::new(TabGroupId::Storage, t4));
        let mut t5: Vec<Tab> = Vec::new();
        t5.push(Tab::new(TabId::Roles, String::from_str("shield.lefthalf.filled")));
        t5.push(Tab::new(TabId::RoleBindings, String::from_str("shield.lefthalf.filled")));
        t5.push(Tab::new(TabId::ClusterRoles, String::from_str("shield.lefthalf.filled")));
        t5.push(Tab::new(TabId::ClusterRoleBindings, String::from_str("shield.lefthalf.filled")));
        t5.push(Tab::new(TabId::ServiceAccounts, String::from_str("shield.lefthalf.filled")));
        t5.push(Tab::new(TabId::PodSecurityPolicies, String::from_str("shield.lefthalf.filled")));
        proof {
            assert(tab_ids(t5@) =~= seq![TabId::Roles, TabId::RoleBindings, TabId::ClusterRoles, TabId::ClusterRoleBindings, TabId::ServiceAccounts, TabId::PodSecurityPolicies]);
        }
        groups.push(TabGroup::new(TabGroupId::AccessControl, t5));
        proof {
            assert(shape(groups@) =~= default_layout());
        }
        let mut tabs: Vec<Tab> = Vec::new();
        let mut expansions: Vec<(TabGroupId, bool)> = Vec::new();
        let mut g: usize = 0;
        while g < groups.len()
            invariant
                g <= groups@.len(),
                shape(groups@) == default_layout(),
                tab_ids(tabs@) == flat(shape(groups@).subrange(0, g as int)),
                expansions@ == ids_of_shape(shape(groups@).subrange(0, g as int)).map_values(|x: TabGroupId| (x, true)),
            decreases groups@.len() - g,
        {
            let mut k: usize = 0;
            let ghost before = tabs@;
            while k < groups[g].tabs.len()
                invariant
                    g < groups@.len(),
                    k <= groups@[g as int].tabs@.len(),
                    tab_ids(tabs@) == tab_ids(before) + tab_ids(groups@[g as int].tabs@).subrange(0, k as int),
                decreases groups@[g as int].tabs@.len() - k,
            {
                let ghost prev = tabs@;
                let copy = groups[g].tabs[k].duplicate();
                tabs.push(copy);
                proof {
                    assert(tab_ids(tabs@) =~= tab_ids(prev).push(copy.id));
                    assert(tab_ids(groups@[g as int].tabs@).subrange(0, k + 1) =~= tab_ids(groups@[g as int].tabs@).subrange(0, k as int).push(groups@[g as int].tabs@[k as int].id));
                    assert(tab_ids(tabs@) =~= tab_ids(before) + tab_ids(groups@[g as int].tabs@).subrange(0, k + 1));
                }
                k = k + 1;
            }
            expansions.push((groups[g].id, true));
            proof {
                let sh = shape(groups@);
                assert(sh.subrange(0, g + 1).drop_last() =~= sh.subrange(0, g as int));
                assert(tab_ids(groups@[g as int].tabs@).subrange(0, k as int) =~= sh[g as int].1);
                assert(ids_of_shape(sh.subrange(0, g + 1)).map_values(|x: TabGroupId| (x, true)) =~= ids_of_shape(
                    sh.subrange(0, g as int),
                ).map_values(|x: TabGroupId| (x, true)).push((groups@[g as int].id, true)));
            }
            g = g + 1;
        }
        proof {
            assert(shape(groups@).subrange(0, g as int) =~= shape(groups@));
        }
        MainViewModel {
            window_id,
            key_handler: KeyHandler::new(),
            selected_cluster,
            tabs,
            tab_groups: TabGroups(groups),
            tab_group_expansions: expansions,
            selected_tab: TabId::ClusterTab,
            search: None,
            updates: Vec::new(),
        }
    }

    /// The selected cluster's record, if it is still known.
    pub fn selected_cluster(&self, clusters: &Clusters) -> (r: Option<Cluster>)
        requires
            clusters.wf(),
        ensures
            self.cluster_view() is None ==> r is None,
            self.cluster_view() matches Some(c) ==> (r is None <==> !clusters.ids().contains(c)),
            r matches Some(cl) ==> self.cluster_view() == Some(cl.id@) && exists|i: int|
                0 <= i < clusters.entries().len() && clusters.entries()[i].id@ == cl.id@ && cl.same(&clusters.entries()[i]),
    {
        match &self.selected_cluster {
            Some(c) => clusters.get_cluster(c),
            None => None,
        }
    }

    /// Selects a cluster for this window.
    pub fn set_selected_cluster(&mut self, cluster: ClusterId)
        ensures
            final(self).cluster_view() == Some(cluster@),
            final(self).groups() == old(self).groups(),
            final(self).focus() == old(self).focus(),
            final(self).selected() == old(self).selected(),
    {
        self.selected_cluster = Some(cluster);
    }

    pub fn selected_tab(&self) -> (r: TabId)
        ensures
            r == self.selected(),
    {
        self.selected_tab
    }

    pub fn current_focus_region(&self) -> (r: FocusRegion)
        ensures
            r == self.focus(),
    {
        self.key_handler.current_focus_region()
    }

    pub fn set_current_focus_region(&mut self, focus_region: FocusRegion)
        ensures
            final(self).focus() == focus_region,
            final(self).groups() == old(self).groups(),
            final(self).expansions() == old(self).expansions(),
            final(self).selected() == old(self).selected(),
            final(self).search_view() == old(self).search_view(),
    {
        self.key_handler.set_current_focus_region(focus_region);
    }

    pub fn tabs(&self) -> (r: &Vec<Tab>)
        ensures
            r@ == self.all_tabs(),
    {
        &self.tabs
    }

    pub fn tab_groups(&self) -> (r: &TabGroups)
        ensures
            r.0@ == self.groups(),
    {
        &self.tab_groups
    }

    pub fn tab_group_expansions(&self) -> (r: Vec<(TabGroupId, bool)>)
        ensures
            r@ == self.expansions(),
    {
        copy_expansions(&self.tab_group_expansions)
    }

    pub fn set_tab_group_expansions(&mut self, expansions: Vec<(TabGroupId, bool)>)
        ensures
            final(self).expansions() == expansions@,
            final(self).groups() == old(self).groups(),
            final(self).focus() == old(self).focus(),
            final(self).selected() == old(self).selected(),
            final(self).search_view() == old(self).search_view(),
    {
        self.tab_group_expansions = expansions;
    }

    /// Sets the sidebar search; an empty text means no search.
    pub fn set_search(&mut self, search: String)
        ensures
            final(self).search_view() == (if search@.len() == 0 { None } else { Some(search@) }),
            final(self).groups() == old(self).groups(),
            final(self).focus() == old(self).focus(),
            final(self).selected() == old(self).selected(),
            final(self).expansions() == old(self).expansions(),
    {
        if search.as_str().is_empty() {
            self.search = None;
        } else {
            self.search = Some(search);
        }
    }

    /// Hands over the changed fields collected so far, oldest first.
    pub fn take_updates(&mut self) -> (r: Vec<MainViewModelField>)
        ensures
            r@ == old(self).pending_updates(),
            final(self).pending_updates().len() == 0,
            final(self).groups() == old(self).groups(),
            final(self).focus() == old(self).focus(),
            final(self).selected() == old(self).selected(),
            final(self).expansions() == old(self).expansions(),
            final(self).search_view() == old(self).search_view(),
    {
        let mut r: Vec<MainViewModelField> = Vec::new();
        std::mem::swap(&mut r, &mut self.updates);
        r
    }

    /// Expands the group of the selected tab; reports the change when the
    /// group was collapsed. `None` when no group holds the selected tab.
    pub fn expand_selected_tabs_tab_group(&mut self) -> (r: Option<()>)
        ensures
            r is None <==> holder(old(self).groups(), old(self).selected()) is None,
            final(self).expansions() == expanded_for(old(self).expansions(), old(self).groups(), old(self).selected()),
            final(self).groups() == old(self).groups(),
            final(self).focus() == old(self).focus(),
            final(self).selected() == old(self).selected(),
            final(self).search_view() == old(self).search_view(),
    {
        let gid = match self.tab_groups.get_by_tab_id(&self.selected_tab) {
            Some(group) => {
                proof {
                    let gs = self.groups();
                    let t = self.selected_tab;
                    let g = choose|g: int| 0 <= g < gs.len() && *group == gs[g] && tab_ids(group.tabs@).contains(t)
                        && forall|h: int| 0 <= h < g ==> !tab_ids(gs[h].tabs@).contains(t);
                    lemma_holder(gs, t, g);
                }
                group.id
            },
            None => {
                return None;
            },
        };
        if set_all(&mut self.tab_group_expansions, gid, true) {
            let expansions = copy_expansions(&self.tab_group_expansions);
            self.updates.push(MainViewModelField::TabGroupExpansions { expansions });
        }
        Some(())
    }

    /// Selects a tab and expands its group.
    pub fn select_tab(&mut self, selected_tab: TabId)
        ensures
            final(self).selected() == selected_tab,
            final(self).expansions() == expanded_for(old(self).expansions(), old(self).groups(), selected_tab),
            final(self).groups() == old(self).groups(),
            final(self).focus() == old(self).focus(),
            final(self).search_view() == old(self).search_view(),
    {
        self.selected_tab = selected_tab;
        let _ = self.expand_selected_tabs_tab_group();
    }

    /// The sidebar under the current search: every group with the tabs whose
    /// lower-cased title contains the lower-cased search, groups left empty
    /// dropped; without a search, every group.
    pub fn tab_groups_filtered(&self) -> (r: TabGroups)
        ensures
            shape(r.0@) == self.visible_shape(),
    {
        match &self.search {
            None => {
                let mut out: Vec<TabGroup> = Vec::new();
                let mut g: usize = 0;
                while g < self.tab_groups.0.len()
                    invariant
                        g <= self.groups().len(),
                        self.groups() == self.tab_groups.0@,
                        shape(out@) == shape(self.groups().subrange(0, g as int)),
                    decreases self.groups().len() - g,
                {
                    let copy = self.tab_groups.0[g].duplicate();
                    let ghost before = out@;
                    out.push(copy);
                    proof {
                        assert(tab_ids(copy.tabs@) =~= tab_ids(self.groups()[g as int].tabs@));
                        assert(shape(out@) =~= shape(before).push((copy.id, tab_ids(copy.tabs@))));
                        assert(shape(self.groups().subrange(0, g + 1)) =~= shape(self.groups().subrange(0, g as int)).push(
                            (self.groups()[g as int].id, tab_ids(self.groups()[g as int].tabs@)),
                        ));
                    }
                    g = g + 1;
                }
                proof {
                    assert(self.groups().subrange(0, g as int) =~= self.groups());
                }
                TabGroups(out)
            },
            Some(search) => {
                let needle = lowercase(search.as_str());
                let mut out: Vec<TabGroup> = Vec::new();
                let mut g: usize = 0;
                while g < self.tab_groups.0.len()
                    invariant
                        g <= self.groups().len(),
                        self.groups() == self.tab_groups.0@,
                        self.search_view() == Some(search@),
                        needle@ == lowercase_of(search@),
                        shape(out@) == filtered_shape(self.groups().subrange(0, g as int), Some(search@)),
                    decreases self.groups().len() - g,
                {
                    let group = &self.tab_groups.0[g];
                    let mut kept: Vec<Tab> = Vec::new();
                    let mut k: usize = 0;
                    while k < group.tabs.len()
                        invariant
                            k <= group.tabs@.len(),
                            needle@ == lowercase_of(search@),
                            tab_ids(kept@) == matching_tabs(group.tabs@.subrange(0, k as int), search@),
                        decreases group.tabs@.len() - k,
                    {
                        let tab = &group.tabs[k];
                        let title = lowercase(tab.name.as_str());
                        proof {
                            assert(group.tabs@.subrange(0, k + 1).drop_last() =~= group.tabs@.subrange(0, k as int));
                        }
                        if contains_str(title.as_str(), needle.as_str()) {
                            let ghost before = kept@;
                            kept.push(tab.duplicate());
                            proof {
                                assert(tab_ids(kept@) =~= tab_ids(before).push(tab.id));
                            }
                        }
                        k = k + 1;
                    }
                    proof {
                        assert(group.tabs@.subrange(0, group.tabs@.len() as int) =~= group.tabs@);
                        assert(self.groups().subrange(0, g + 1).drop_last() =~= self.groups().subrange(0, g as int));
                    }
                    if kept.len() > 0 {
                        let ghost before = out@;
                        out.push(TabGroup { id: group.id, name: group.name.clone(), tabs: kept });
                        proof {
                            assert(shape(out@) =~= shape(before).push((group.id, tab_ids(kept@))));
                        }
                    }
                    g = g + 1;
                }
                proof {
                    assert(self.groups().subrange(0, g as int) =~= self.groups());
                }
                TabGroups(out)
            },
        }
    }

    /// The first tab under the current search, when there is a search.
    pub fn get_first_filtered_tab(&self) -> (r: Option<TabId>)
        ensures
            match self.search_view() {
                None => r is None,
                Some(s) => if s.len() == 0 || self.visible_shape().len() == 0 || self.visible_shape()[0].1.len() == 0 {
                    r is None
                } else {
                    r == Some(self.visible_shape()[0].1[0])
                },
            },
    {
        let search = match &self.search {
            Some(s) => s,
            None => {
                return None;
            },
        };
        if search.as_str().is_empty() {
            return None;
        }
        let groups = self.tab_groups_filtered();
        if groups.0.len() == 0 {
            return None;
        }
        if groups.0[0].tabs.len() == 0 {
            proof {
                assert(shape(groups.0@)[0].1.len() == 0);
            }
            return None;
        }
        proof {
            assert(shape(groups.0@)[0].1[0] == groups.0@[0].tabs@[0].id);
        }
        Some(groups.0[0].tabs[0].id)
    }

    /// Selects the first tab under the current search, if there is one.
    pub fn set_first_filtered_tab(&mut self) -> (r: Option<()>)
        ensures
            r is None ==> final(self).selected() == old(self).selected() && final(self).expansions() == old(self).expansions(),
            r is Some ==> final(self).selected() == old(self).visible_shape()[0].1[0],
            final(self).groups() == old(self).groups(),
            final(self).focus() == old(self).focus(),
            final(self).search_view() == old(self).search_view(),
    {
        match self.get_first_filtered_tab() {
            Some(tab) => {
                self.select_tab(tab);
                Some(())
            },
            None => None,
        }
    }

    /// Moves the keyboard focus on a key press, given the sidebar under the
    /// current search (see `focus_after`); a key that moves into or within a
    /// group selects the tab it lands on (see `selects`), and Space or Enter
    /// on a group toggles its expansion (see `toggles`). Returns whether the
    /// key was handled.
    pub fn handle_key_input(&mut self, key_input: KeyAwareEvent) -> (r: bool)
        ensures
            r == handles(old(self).focus(), key_input),
            final(self).focus() == focus_after(old(self).focus(), key_input, old(self).visible_shape()),
            final(self).groups() == old(self).groups(),
            final(self).search_view() == old(self).search_view(),
            match selects(old(self).focus(), key_input, old(self).visible_shape()) {
                Some(t) => final(self).selected() == t && final(self).expansions() == expanded_for(
                    old(self).expansions(),
                    old(self).groups(),
                    t,
                ),
                None => final(self).selected() == old(self).selected() && final(self).expansions() == match toggles(
                    old(self).focus(),
                    key_input,
                ) {
                    Some(g) => toggle_expansion(old(self).expansions(), g),
                    None => old(self).expansions(),
                },
            },
    {
        let focus = self.key_handler.current_focus_region;
        let filtered = self.tab_groups_filtered();
        match key_input {
            KeyAwareEvent::DownArrow | KeyAwareEvent::UpArrow => self.arrow_key(focus, key_input, &filtered),
            KeyAwareEvent::Space | KeyAwareEvent::Enter => self.toggle_key(focus, key_input),
            _ => {
                let (next, handled) = plain_move(focus, key_input, &filtered);
                self.key_handler.current_focus_region = next;
                handled
            },
        }
    }

    /// Space or Enter: toggles the focused group's expansion.
    fn toggle_key(&mut self, focus: FocusRegion, key_input: KeyAwareEvent) -> (r: bool)
        requires
            key_input == KeyAwareEvent::Space || key_input == KeyAwareEvent::Enter,
            focus == old(self).focus(),
        ensures
            r == handles(focus, key_input),
            final(self).focus() == focus,
            final(self).groups() == old(self).groups(),
            final(self).search_view() == old(self).search_view(),
            final(self).selected() == old(self).selected(),
            final(self).expansions() == match toggles(focus, key_input) {
                Some(g) => toggle_expansion(old(self).expansions(), g),
                None => old(self).expansions(),
            },
    {
        let target = match focus {
            FocusRegion::InTabGroup { tab_group_id, .. } => Some(tab_group_id),
            FocusRegion::SidebarGroup { id } => Some(id),
            _ => None,
        };
        match target {
            Some(id) => {
                if toggle_all(&mut self.tab_group_expansions, id) {
                    let expansions = copy_expansions(&self.tab_group_expansions);
                    self.updates.push(MainViewModelField::TabGroupExpansions { expansions });
                }
                true
            },
            None => false,
        }
    }

    /// Up or Down: enters the focused group at its first or last tab, or
    /// moves to the next or previous tab of the group, wrapping around.
    fn arrow_key(&mut self, focus: FocusRegion, key_input: KeyAwareEvent, filtered: &TabGroups) -> (r: bool)
        requires
            key_input == KeyAwareEvent::DownArrow || key_input == KeyAwareEvent::UpArrow,
            focus == old(self).focus(),
            shape(filtered.0@) == old(self).visible_shape(),
        ensures
            r == handles(focus, key_input),
            final(self).focus() == focus_after(focus, key_input, shape(filtered.0@)),
            final(self).groups() == old(self).groups(),
            final(self).search_view() == old(self).search_view(),
            match selects(focus, key_input, shape(filtered.0@)) {
                Some(t) => final(self).selected() == t && final(self).expansions() == expanded_for(
                    old(self).expansions(),
                    old(self).groups(),
                    t,
                ),
                None => final(self).selected() == old(self).selected() && final(self).expansions() == old(self).expansions(),
            },
    {
        let target = match focus {
            FocusRegion::SidebarGroup { id } => enter_target(filtered, id, key_input),
            FocusRegion::InTabGroup { tab_group_id, tab_id } => move_target(filtered, tab_group_id, tab_id, key_input),
            _ => None,
        };
        match (focus, target) {
            (FocusRegion::SidebarGroup { id }, Some(t)) => {
                self.enter_tab(id, t);
                true
            },
            (FocusRegion::InTabGroup { tab_group_id, .. }, Some(t)) => {
                self.enter_tab(tab_group_id, t);
                true
            },
            (FocusRegion::SidebarGroup { .. }, None) | (FocusRegion::InTabGroup { .. }, None) => true,
            _ => false,
        }
    }

    /// Focuses a tab within a group and selects it.
    fn enter_tab(&mut self, tab_group_id: TabGroupId, tab_id: TabId)
        ensures
            final(self).focus() == (FocusRegion::InTabGroup { tab_group_id, tab_id }),
            final(self).selected() == tab_id,
            final(self).expansions() == expanded_for(old(self).expansions(), old(self).groups(), tab_id),
            final(self).groups() == old(self).groups(),
            final(self).search_view() == old(self).search_view(),
    {
        self.select_tab(tab_id);
        self.key_handler.current_focus_region = FocusRegion::InTabGroup { tab_group_id, tab_id };
        self.updates.push(MainViewModelField::SelectedTab { tab_id });
    }

}

} // verus!
