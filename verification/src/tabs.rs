//! Tabbed container: the tabs, which one is selected, and what a pointer
//! over the tab strip and a click there do.

use vstd::prelude::*;
use crate::text::{owned, str_eq};

verus! {

/// Single tab definition
pub struct Tab {
    pub id: String,
    pub label: String,
    pub icon: Option<String>,
    pub closeable: bool,
    pub badge: Option<String>,
}

impl Tab {
    pub fn new(id: &str, label: &str) -> (r: Self)
        ensures
            r.id@ == id@,
            r.label@ == label@,
            r.icon is None,
            !r.closeable,
            r.badge is None,
    {
        Tab { id: owned(id), label: owned(label), icon: None, closeable: false, badge: None }
    }

    pub fn with_icon(self, icon: &str) -> (r: Self)
        ensures
            r == (Tab { icon: r.icon, ..self }),
            r.icon matches Some(i) && i@ == icon@,
    {
        let mut t = self;
        t.icon = Some(owned(icon));
        t
    }

    pub fn closeable(self) -> (r: Self)
        ensures
            r == (Tab { closeable: true, ..self }),
    {
        let mut t = self;
        t.closeable = true;
        t
    }

    pub fn with_badge(self, badge: &str) -> (r: Self)
        ensures
            r == (Tab { badge: r.badge, ..self }),
            r.badge matches Some(b) && b@ == badge@,
    {
        let mut t = self;
        t.badge = Some(owned(badge));
        t
    }
}

/// Position of the tab bar
#[derive(Clone, Copy, Debug, PartialEq, Eq, Structural)]
pub enum TabPosition {
    Top,
    Bottom,
    Left,
    Right,
}

/// What a click on the tab strip did.
pub enum TabClick {
    /// The close button of the tab at this index was hit and the tab
    /// removed; its id.
    Closed(usize, String),
    /// The tab at this index was selected; its id.
    Selected(usize, String),
    /// The click hit no tab.
    Missed,
}

/// Tabbed container state
pub struct TabView {
    pub tabs: Vec<Tab>,
    pub selected_index: usize,
    pub tab_position: TabPosition,
    pub hovered_tab: Option<usize>,
    pub hovered_close: Option<usize>,
}

/// The index of the first tab with the given id, if any.
pub open spec fn first_with_id(tabs: Seq<Tab>, id: Seq<char>) -> Option<int>
    decreases tabs.len(),
{
    if tabs.len() == 0 {
        None
    } else {
        match first_with_id(tabs.drop_last(), id) {
            Some(i) => Some(i),
            None => if tabs.last().id@ == id {
                Some(tabs.len() - 1)
            } else {
                None
            },
        }
    }
}

/// Once a prefix holds a tab with the id, every longer prefix finds the
/// same first one.
pub proof fn lemma_first_with_id_prefix(tabs: Seq<Tab>, id: Seq<char>, k: int)
    requires
        0 <= k <= tabs.len(),
        first_with_id(tabs.take(k), id) is Some,
    ensures
        first_with_id(tabs, id) == first_with_id(tabs.take(k), id),
    decreases tabs.len(),
{
    if k == tabs.len() {
        assert(tabs.take(k) =~= tabs);
    } else {
        assert(tabs.drop_last().take(k) =~= tabs.take(k));
        lemma_first_with_id_prefix(tabs.drop_last(), id, k);
    }
}

/// Closing a tab after the selected one keeps the same tab selected, at
/// the same index. Closing any tab moves the selection only when it would
/// otherwise fall off the end: the selected index stays put while it still
/// names a tab, and otherwise steps back by one to the new last tab.
pub proof fn lemma_remove_tab_selection(v: TabView, index: int)
    requires
        0 <= index < v.tabs@.len(),
        v.selection_valid(),
    ensures
        index > v.selected_index ==> v.selection_after_remove(index) == v.selected_index
            && v.tabs@.remove(index)[v.selected_index as int] == v.tabs@[v.selected_index as int],
        v.selected_index < v.tabs@.len() - 1 ==> v.selection_after_remove(index) == v.selected_index,
        v.selected_index == v.tabs@.len() - 1 && v.selected_index > 0 ==> v.selection_after_remove(index)
            == v.tabs@.len() - 2,
        v.tabs@.len() > 1 ==> v.selection_after_remove(index) < v.tabs@.len() - 1,
{
}

impl TabView {
    /// The selection names a tab, or is 0 when there are none.
    pub open spec fn selection_valid(&self) -> bool {
        if self.tabs@.len() == 0 {
            self.selected_index == 0
        } else {
            self.selected_index < self.tabs@.len()
        }
    }

    /// Where the selection goes when the tab at `index` is removed.
    pub open spec fn selection_after_remove(&self, index: int) -> usize {
        if index < self.tabs@.len() && self.selected_index >= self.tabs@.len() - 1
            && self.selected_index > 0 {
            (self.selected_index - 1) as usize
        } else {
            self.selected_index
        }
    }

    pub fn new() -> (r: Self)
        ensures
            r.tabs@.len() == 0,
            r.selected_index == 0,
            r.tab_position == TabPosition::Top,
            r.hovered_tab is None,
            r.hovered_close is None,
            r.selection_valid(),
    {
        TabView {
            tabs: Vec::new(),
            selected_index: 0,
            tab_position: TabPosition::Top,
            hovered_tab: None,
            hovered_close: None,
        }
    }

    /// Add a tab
    pub fn add_tab(&mut self, tab: Tab)
        ensures
            *final(self) == (TabView { tabs: final(self).tabs, ..*old(self) }),
            final(self).tabs@ == old(self).tabs@.push(tab),
            old(self).selection_valid() ==> final(self).selection_valid(),
    {
        self.tabs.push(tab);
    }

    /// Remove a tab by index; an index past the end changes nothing.
    pub fn remove_tab(&mut self, index: usize)
        ensures
            index < old(self).tabs@.len() ==> {
                &&& final(self).tabs@ == old(self).tabs@.remove(index as int)
                &&& final(self).selected_index == old(self).selection_after_remove(index as int)
            },
            index >= old(self).tabs@.len() ==> *final(self) == *old(self),
            final(self).tab_position == old(self).tab_position,
            final(self).hovered_tab == old(self).hovered_tab,
            final(self).hovered_close == old(self).hovered_close,
            old(self).selection_valid() ==> final(self).selection_valid(),
    {
        if index < self.tabs.len() {
            self.tabs.remove(index);
            if self.selected_index >= self.tabs.len() && self.selected_index > 0 {
                self.selected_index = self.selected_index - 1;
            }
        }
    }

    /// Select a tab by index; an index past the end changes nothing.
    pub fn select(&mut self, index: usize)
        ensures
            *final(self) == if index < old(self).tabs@.len() {
                TabView { selected_index: index, ..*old(self) }
            } else {
                *old(self)
            },
            old(self).selection_valid() ==> final(self).selection_valid(),
    {
        if index < self.tabs.len() {
            self.selected_index = index;
        }
    }

    /// Select the first tab with the given id, if there is one.
    pub fn select_by_id(&mut self, id: &str)
        ensures
            *final(self) == match first_with_id(old(self).tabs@, id@) {
                Some(i) => TabView { selected_index: i as usize, ..*old(self) },
                None => *old(self),
            },
            old(self).selection_valid() ==> final(self).selection_valid(),
    {
        let mut i: usize = 0;
        while i < self.tabs.len()
            invariant
                *self == *old(self),
                i <= self.tabs@.len(),
                first_with_id(self.tabs@.take(i as int), id@) is None,
            decreases self.tabs@.len() - i,
        {
            proof {
                assert(self.tabs@.take(i + 1).drop_last() =~= self.tabs@.take(i as int));
            }
            if str_eq(self.tabs[i].id.as_str(), id) {
                proof {
                    lemma_first_with_id_prefix(self.tabs@, id@, i + 1);
                }
                self.select(i);
                return;
            }
            i = i + 1;
        }
        proof {
            assert(self.tabs@.take(i as int) =~= self.tabs@);
        }
    }

    /// Get currently selected tab
    pub fn selected_tab(&self) -> (r: Option<&Tab>)
        ensures
            r == if self.selected_index < self.tabs@.len() {
                Some(&self.tabs@[self.selected_index as int])
            } else {
                None
            },
    {
        if self.selected_index < self.tabs.len() {
            Some(&self.tabs[self.selected_index])
        } else {
            None
        }
    }

    /// The pointer is over the tab strip at tab `tab`, and `over_close`
    /// tells whether it is over that tab's close-button area; or it is
    /// over no tab. The close button only counts on closeable tabs.
    pub fn point_at(&mut self, tab: Option<usize>, over_close: bool)
        requires
            tab matches Some(i) ==> i < old(self).tabs@.len(),
        ensures
            final(self).tabs == old(self).tabs,
            final(self).selected_index == old(self).selected_index,
            final(self).tab_position == old(self).tab_position,
            final(self).hovered_tab == tab,
            final(self).hovered_close == match tab {
                Some(i) => if over_close && old(self).tabs@[i as int].closeable {
                    Some(i)
                } else {
                    None
                },
                None => None,
            },
    {
        self.hovered_tab = tab;
        self.hovered_close = None;
        if let Some(i) = tab {
            if over_close && self.tabs[i].closeable {
                self.hovered_close = Some(i);
            }
        }
    }

    /// A left click on the tab strip: closes the tab whose close button is
    /// hovered, or else selects the hovered tab.
    pub fn click(&mut self) -> (r: TabClick)
        requires
            old(self).hovered_close matches Some(i) ==> i < old(self).tabs@.len(),
            old(self).hovered_tab matches Some(i) ==> i < old(self).tabs@.len(),
        ensures
            match old(self).hovered_close {
                Some(i) => {
                    &&& r matches TabClick::Closed(j, id) && j == i && id@ == old(self).tabs@[i as int].id@
                    &&& final(self).tabs@ == old(self).tabs@.remove(i as int)
                    &&& final(self).selected_index == old(self).selection_after_remove(i as int)
                },
                None => match old(self).hovered_tab {
                    Some(i) => {
                        &&& r matches TabClick::Selected(j, id) && j == i && id@ == old(self).tabs@[i as int].id@
                        &&& *final(self) == (TabView { selected_index: i, ..*old(self) })
                    },
                    None => r is Missed && *final(self) == *old(self),
                },
            },
            old(self).selection_valid() ==> final(self).selection_valid(),
    {
        if let Some(index) = self.hovered_close {
            let tab_id = self.tabs[index].id.clone();
            self.remove_tab(index);
            TabClick::Closed(index, tab_id)
        } else if let Some(index) = self.hovered_tab {
            self.select(index);
            TabClick::Selected(index, self.tabs[index].id.clone())
        } else {
            TabClick::Missed
        }
    }
}

impl Default for TabView {
    fn default() -> (r: Self)
        ensures
            r.tabs@.len() == 0,
            r.selected_index == 0,
            r.tab_position == TabPosition::Top,
            r.hovered_tab is None,
            r.hovered_close is None,
    {
        Self::new()
    }
}

/// Tab bar switching between views: the tab names, the active tab and the
/// tab under the pointer. The views themselves belong to the caller, one
/// per tab, and the active one gets what the bar does not take.
pub struct TabBar {
    pub tabs: Vec<String>,
    pub active_index: usize,
    pub hovered_index: Option<usize>,
}

impl TabBar {
    pub fn new() -> (r: Self)
        ensures
            r.tabs@.len() == 0,
            r.active_index == 0,
            r.hovered_index is None,
    {
        TabBar { tabs: Vec::new(), active_index: 0, hovered_index: None }
    }

    pub fn add_tab(self, name: &str) -> (r: Self)
        ensures
            r.tabs@.len() == self.tabs@.len() + 1,
            r.tabs@.drop_last() == self.tabs@,
            r.tabs@.last()@ == name@,
            r.active_index == self.active_index,
            r.hovered_index == self.hovered_index,
    {
        let mut s = self;
        s.tabs.push(owned(name));
        proof {
            assert(s.tabs@.drop_last() =~= self.tabs@);
        }
        s
    }

    /// The pointer's part of the bar's event handling. `slot` is `None`
    /// when the pointer is off the bar, else the slot under it counted
    /// from the left (which may lie past the last tab); `press` tells
    /// whether the left button went down. A slot holding a tab becomes the
    /// hovered tab; a press on the bar activates the hovered tab, if any,
    /// and is then consumed.
    pub fn handle_pointer(&mut self, slot: Option<usize>, press: bool) -> (consumed: bool)
        ensures
            final(self).tabs == old(self).tabs,
            final(self).hovered_index == match slot {
                Some(i) => if i < old(self).tabs@.len() {
                    Some(i)
                } else {
                    old(self).hovered_index
                },
                None => None,
            },
            consumed == (slot is Some && press && final(self).hovered_index is Some),
            final(self).active_index == if consumed {
                final(self).hovered_index->0
            } else {
                old(self).active_index
            },
    {
        match slot {
            Some(i) => {
                if i < self.tabs.len() {
                    self.hovered_index = Some(i);
                }
                if press {
                    match self.hovered_index {
                        Some(h) => {
                            self.active_index = h;
                            return true;
                        },
                        None => {},
                    }
                }
                false
            },
            None => {
                self.hovered_index = None;
                false
            },
        }
    }
}

impl Default for TabBar {
    fn default() -> (r: Self)
        ensures
            r.tabs@.len() == 0,
            r.active_index == 0,
            r.hovered_index is None,
    {
        Self::new()
    }
}

} // verus!
