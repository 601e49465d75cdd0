use vstd::prelude::*;
use crate::tab_ids::{TabId, TabGroupId, tab_name, group_name};

verus! {

/// A tab: its id, icon and title.
#[derive(Debug, Clone, PartialEq, Eq, Hash)]
pub struct Tab {
    pub id: TabId,
    pub icon: String,
    pub name: String,
}

impl Tab {
    /// A tab titled after its id.
    pub fn new(id: TabId, icon: String) -> (r: Tab)
        ensures
            r.id == id,
            r.icon@ == icon@,
            r.name@ == tab_name(id),
    {
        Tab { name: id.name(), id, icon }
    }

    pub fn duplicate(&self) -> (r: Tab)
        ensures
            r.id == self.id,
            r.icon@ == self.icon@,
            r.name@ == self.name@,
    {
        Tab { id: self.id, icon: self.icon.clone(), name: self.name.clone() }
    }
}

/// A titled group of tabs.
#[derive(Debug, Clone, PartialEq, Eq, Hash)]
pub struct TabGroup {
    pub id: TabGroupId,
    pub name: String,
    pub tabs: Vec<Tab>,
}

/// The ids of a sequence of tabs.
pub open spec fn tab_ids(s: Seq<Tab>) -> Seq<TabId> {
    s.map_values(|t: Tab| t.id)
}

/// The ids of a sequence of groups.
pub open spec fn group_ids(s: Seq<TabGroup>) -> Seq<TabGroupId> {
    s.map_values(|g: TabGroup| g.id)
}

/// `i` is the first position of `x` in `s`.
pub open spec fn first_at<T>(s: Seq<T>, x: T, i: int) -> bool {
    0 <= i < s.len() && s[i] == x && forall|j: int| 0 <= j < i ==> s[j] != x
}

/// The position `next`/`previous` start from: the first position of `x`, or
/// 0 when `x` does not occur.
pub open spec fn start_at<T>(s: Seq<T>, x: T, i: int) -> bool {
    first_at(s, x, i) || (i == 0 && !s.contains(x))
}

/// The element after the start position, none at the end.
pub open spec fn next_of<T>(s: Seq<T>, x: T, r: Option<T>) -> bool {
    forall|i: int| start_at(s, x, i) ==> r == (if i + 1 < s.len() { Some(s[i + 1]) } else { None::<T> })
}

/// The element before the start position, none at the start.
pub open spec fn previous_of<T>(s: Seq<T>, x: T, r: Option<T>) -> bool {
    forall|i: int| start_at(s, x, i) ==> r == (if 0 < i < s.len() { Some(s[i - 1]) } else { None::<T> })
}

proof fn lemma_start_unique<T>(s: Seq<T>, x: T, i: int, j: int)
    requires
        start_at(s, x, i),
        start_at(s, x, j),
    ensures
        i == j,
{
    if first_at(s, x, i) && first_at(s, x, j) {
        if i < j {
            assert(s[i] != x);
        } else if j < i {
            assert(s[j] != x);
        }
    } else if first_at(s, x, i) {
        assert(s.contains(x));
    } else if first_at(s, x, j) {
        assert(s.contains(x));
    }
}

fn position_of_tab(tabs: &Vec<Tab>, id: TabId) -> (r: Option<usize>)
    ensures
        r matches Some(i) ==> first_at(tab_ids(tabs@), id, i as int),
        r is None ==> !tab_ids(tabs@).contains(id),
{
    let mut i: usize = 0;
    while i < tabs.len()
        invariant
            i <= tabs@.len(),
            forall|j: int| 0 <= j < i ==> tab_ids(tabs@)[j] != id,
        decreases tabs@.len() - i,
    {
        if tabs[i].id == id {
            return Some(i);
        }
        i = i + 1;
    }
    proof {
        if tab_ids(tabs@).contains(id) {
            let j = choose|j: int| 0 <= j < tab_ids(tabs@).len() && tab_ids(tabs@)[j] == id;
        }
    }
    None
}

fn position_of_group(groups: &Vec<TabGroup>, id: TabGroupId) -> (r: Option<usize>)
    ensures
        r matches Some(i) ==> first_at(group_ids(groups@), id, i as int),
        r is None ==> !group_ids(groups@).contains(id),
{
    let mut i: usize = 0;
    while i < groups.len()
        invariant
            i <= groups@.len(),
            forall|j: int| 0 <= j < i ==> group_ids(groups@)[j] != id,
        decreases groups@.len() - i,
    {
        if groups[i].id == id {
            return Some(i);
        }
        i = i + 1;
    }
    proof {
        if group_ids(groups@).contains(id) {
            let j = choose|j: int| 0 <= j < group_ids(groups@).len() && group_ids(groups@)[j] == id;
        }
    }
    None
}

impl TabGroup {
    /// A group titled after its id.
    pub fn new(id: TabGroupId, tabs: Vec<Tab>) -> (r: TabGroup)
        ensures
            r.id == id,
            r.name@ == group_name(id),
            r.tabs == tabs,
    {
        TabGroup { name: id.name(), id, tabs }
    }

    pub fn duplicate(&self) -> (r: TabGroup)
        ensures
            r.id == self.id,
            r.name@ == self.name@,
            r.tabs@.len() == self.tabs@.len(),
            forall|i: int| 0 <= i < r.tabs@.len() ==> r.tabs@[i].id == self.tabs@[i].id
                && r.tabs@[i].name@ == self.tabs@[i].name@ && r.tabs@[i].icon@ == self.tabs@[i].icon@,
    {
        let mut tabs: Vec<Tab> = Vec::new();
        let mut i: usize = 0;
        while i < self.tabs.len()
            invariant
                i <= self.tabs@.len(),
                tabs@.len() == i,
                forall|j: int| 0 <= j < i ==> tabs@[j].id == self.tabs@[j].id
                    && tabs@[j].name@ == self.tabs@[j].name@ && tabs@[j].icon@ == self.tabs@[j].icon@,
            decreases self.tabs@.len() - i,
        {
            tabs.push(self.tabs[i].duplicate());
            i = i + 1;
        }
        TabGroup { id: self.id, name: self.name.clone(), tabs }
    }
}

/// The groups of the sidebar, in order.
#[derive(Debug, Clone, PartialEq, Eq, Hash)]
pub struct TabGroups(pub Vec<TabGroup>);

impl TabGroups {
    /// The group after the one with the id (or after the first group, when
    /// no group has the id); none after the last group.
    pub fn next_tab_group_id(&self, id: &TabGroupId) -> (r: Option<TabGroupId>)
        ensures
            next_of(group_ids(self.0@), *id, r),
    {
        let current_index = match self.get_index_by_id(id) {
            Some(i) => i,
            None => 0,
        };
        proof {
            assert forall|i: int| start_at(group_ids(self.0@), *id, i) implies i == current_index by {
                lemma_start_unique(group_ids(self.0@), *id, i, current_index as int);
            }
        }
        if self.0.len() == 0 || current_index >= self.0.len() - 1 {
            return None;
        }
        Some(self.0[current_index + 1].id)
    }

    /// The group before the one with the id (or none, when no group has the
    /// id); none before the first group.
    pub fn previous_tab_group_id(&self, id: &TabGroupId) -> (r: Option<TabGroupId>)
        ensures
            previous_of(group_ids(self.0@), *id, r),
    {
        let current_index = match self.get_index_by_id(id) {
            Some(i) => i,
            None => 0,
        };
        proof {
            assert forall|i: int| start_at(group_ids(self.0@), *id, i) implies i == current_index by {
                lemma_start_unique(group_ids(self.0@), *id, i, current_index as int);
            }
        }
        if current_index == 0 || current_index >= self.0.len() {
            return None;
        }
        Some(self.0[current_index - 1].id)
    }

    /// The first group with the id.
    pub fn get_by_id(&self, id: &TabGroupId) -> (r: Option<&TabGroup>)
        ensures
            r is None <==> !group_ids(self.0@).contains(*id),
            r matches Some(g) ==> exists|i: int| first_at(group_ids(self.0@), *id, i) && *g == self.0@[i],
    {
        match position_of_group(&self.0, *id) {
            Some(i) => Some(&self.0[i]),
            None => None,
        }
    }

    /// The position of the first group with the id.
    pub fn get_index_by_id(&self, id: &TabGroupId) -> (r: Option<usize>)
        ensures
            r matches Some(i) ==> first_at(group_ids(self.0@), *id, i as int),
            r is None ==> !group_ids(self.0@).contains(*id),
    {
        position_of_group(&self.0, *id)
    }

    /// The first group that holds a tab with the id.
    pub fn get_by_tab_id(&self, id: &TabId) -> (r: Option<&TabGroup>)
        ensures
            r is None <==> forall|g: int| 0 <= g < self.0@.len() ==> !tab_ids(self.0@[g].tabs@).contains(*id),
            r matches Some(grp) ==> exists|g: int| 0 <= g < self.0@.len() && *grp == self.0@[g]
                && tab_ids(grp.tabs@).contains(*id)
                && forall|h: int| 0 <= h < g ==> !tab_ids(self.0@[h].tabs@).contains(*id),
    {
        let mut g: usize = 0;
        while g < self.0.len()
            invariant
                g <= self.0@.len(),
                forall|h: int| 0 <= h < g ==> !tab_ids(self.0@[h].tabs@).contains(*id),
            decreases self.0@.len() - g,
        {
            match position_of_tab(&self.0[g].tabs, *id) {
                Some(i) => {
                    proof {
                        assert(tab_ids(self.0@[g as int].tabs@)[i as int] == *id);
                    }
                    return Some(&self.0[g]);
                },
                None => {},
            }
            g = g + 1;
        }
        None
    }
}

/// The tabs of the sidebar, in order.
#[derive(Debug, Clone, PartialEq, Eq, Hash)]
pub struct Tabs(pub Vec<Tab>);

/// A borrowed view of a list of tabs, for moving through it.
#[derive(Debug, Clone, PartialEq, Eq, Hash)]
pub struct BorrowedTabs<'a>(pub &'a Vec<Tab>);

impl<'a> BorrowedTabs<'a> {
    /// The tab after the one with the id (or after the first tab, when no
    /// tab has the id); none after the last tab.
    pub fn next_tab_id(&self, id: &TabId) -> (r: Option<TabId>)
        ensures
            next_of(tab_ids(self.0@), *id, r),
    {
        let current_index = match self.get_index_by_id(id) {
            Some(i) => i,
            None => 0,
        };
        proof {
            assert forall|i: int| start_at(tab_ids(self.0@), *id, i) implies i == current_index by {
                lemma_start_unique(tab_ids(self.0@), *id, i, current_index as int);
            }
        }
        if self.0.len() == 0 || current_index >= self.0.len() - 1 {
            return None;
        }
        Some(self.0[current_index + 1].id)
    }

    /// The tab before the one with the id (or none, when no tab has the id);
    /// none before the first tab.
    pub fn previous_tab_id(&self, id: &TabId) -> (r: Option<TabId>)
        ensures
            previous_of(tab_ids(self.0@), *id, r),
    {
        let current_index = match self.get_index_by_id(id) {
            Some(i) => i,
            None => 0,
        };
        proof {
            assert forall|i: int| start_at(tab_ids(self.0@), *id, i) implies i == current_index by {
                lemma_start_unique(tab_ids(self.0@), *id, i, current_index as int);
            }
        }
        if current_index == 0 || current_index >= self.0.len() {
            return None;
        }
        Some(self.0[current_index - 1].id)
    }

    /// The first tab with the id.
    pub fn get_by_id(&self, id: &TabId) -> (r: Option<&Tab>)
        ensures
            r is None <==> !tab_ids(self.0@).contains(*id),
            r matches Some(t) ==> exists|i: int| first_at(tab_ids(self.0@), *id, i) && *t == self.0@[i],
    {
        match position_of_tab(self.0, *id) {
            Some(i) => Some(&self.0[i]),
            None => None,
        }
    }

    /// The position of the first tab with the id.
    pub fn get_index_by_id(&self, id: &TabId) -> (r: Option<usize>)
        ensures
            r matches Some(i) ==> first_at(tab_ids(self.0@), *id, i as int),
            r is None ==> !tab_ids(self.0@).contains(*id),
    {
        position_of_tab(self.0, *id)
    }
}

impl<'a> BorrowedTabs<'a> {
    pub fn from(tabs: &'a Vec<Tab>) -> (r: BorrowedTabs<'a>)
        ensures
            r.0 == tabs,
    {
        BorrowedTabs(tabs)
    }
}

impl Tabs {
    pub fn from(tabs: Vec<Tab>) -> (r: Tabs)
        ensures
            r.0 == tabs,
    {
        Tabs(tabs)
    }

    pub fn borrow(&self) -> (r: BorrowedTabs<'_>)
        ensures
            *r.0 == self.0,
    {
        BorrowedTabs(&self.0)
    }
}

} // verus!
