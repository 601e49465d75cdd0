use vstd::prelude::*;
use crate::tab_ids::{TabId, TabGroupId};

verus! {

/// Where the keyboard focus is.
#[derive(Debug, Clone, Copy, PartialEq, Eq, Structural, Hash)]
pub enum FocusRegion {
    SidebarSearch,
    SidebarGroup { id: TabGroupId },
    InTabGroup { tab_group_id: TabGroupId, tab_id: TabId },
    ClusterSelection,
    Content,
}

/// A key the focus logic reacts to.
#[derive(Debug, Clone, Copy, PartialEq, Eq, Structural, Hash)]
pub enum KeyAwareEvent {
    Delete,
    UpArrow,
    DownArrow,
    LeftArrow,
    RightArrow,
    Space,
    Enter,
    ShiftTab,
    TabKey,
    Escape,
    OptionF,
}

/// Holds the current focus.
#[derive(Debug, Clone, Copy, PartialEq, Eq, Structural)]
pub struct KeyHandler {
    pub current_focus_region: FocusRegion,
}

impl KeyHandler {
    /// Focus starts on the first sidebar group.
    pub fn new() -> (r: KeyHandler)
        ensures
            r.current_focus_region == (FocusRegion::SidebarGroup { id: TabGroupId::General }),
    {
        KeyHandler { current_focus_region: FocusRegion::SidebarGroup { id: TabGroupId::General } }
    }

    pub fn current_focus_region(&self) -> (r: FocusRegion)
        ensures
            r == self.current_focus_region,
    {
        self.current_focus_region
    }

    pub fn set_current_focus_region(&mut self, focus_region: FocusRegion)
        ensures
            final(self).current_focus_region == focus_region,
    {
        self.current_focus_region = focus_region;
    }
}

} // verus!
