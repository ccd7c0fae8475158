//! Tab manager: the tabs in their order and the active one
use vstd::prelude::*;
use super::pane::PaneId;
use super::split::{Direction, SplitDirection};
use super::tab::{Tab, TabId, pane_position, pane_closed, focus_moved, focused_resized};
use super::split::{resized, split_leaf};
use super::tabbar::{TabBar, bar_content_height};
use crate::text::str_to_string;

verus! {

/// The position of the first tab with id `id`.
pub open spec fn tab_position<P>(tabs: Seq<Tab<P>>, id: TabId) -> Option<int>
    decreases tabs.len(),
{
    if tabs.len() == 0 {
        None
    } else {
        match tab_position(tabs.drop_last(), id) {
            Some(i) => Some(i),
            None => if tabs.last().id == id { Some(tabs.len() - 1) } else { None },
        }
    }
}

/// The tab after the active one (the first after the last); the active
/// tab stays when it is not in the list.
pub open spec fn next_active<P>(tabs: Seq<Tab<P>>, active: TabId) -> TabId {
    match tab_position(tabs, active) {
        Some(i) => tabs[if i + 1 < tabs.len() { i + 1 } else { 0 }].id,
        None => active,
    }
}

/// The tab before the active one (the last before the first); the active
/// tab stays when it is not in the list.
pub open spec fn prev_active<P>(tabs: Seq<Tab<P>>, active: TabId) -> TabId {
    match tab_position(tabs, active) {
        Some(i) => tabs[if i == 0 { tabs.len() - 1 } else { i - 1 }].id,
        None => active,
    }
}

/// No two tabs share an id.
pub open spec fn ids_distinct<P>(tabs: Seq<Tab<P>>) -> bool {
    forall|i: int, j: int| 0 <= i < j < tabs.len() ==> (#[trigger] tabs[i]).id != (#[trigger] tabs[j]).id
}

/// Two tabs that differ at most in their titles.
pub open spec fn same_but_title<P>(a: Tab<P>, b: Tab<P>) -> bool {
    &&& a.id == b.id
    &&& a.layout == b.layout
    &&& a.panes@ == b.panes@
    &&& a.focused == b.focused
    &&& a.next_pane_id == b.next_pane_id
}

/// Whether `i` is the first tab (in tab order) holding pane `pane_id`.
pub open spec fn first_holding<P>(tabs: Seq<Tab<P>>, pane_id: PaneId, i: int) -> bool {
    &&& 0 <= i < tabs.len()
    &&& pane_position(tabs[i].panes@, pane_id) is Some
    &&& forall|j: int| 0 <= j < i ==> pane_position(#[trigger] tabs[j].panes@, pane_id) is None
}

/// A tab with the focus moved to pane `id`, and nothing else changed.
pub open spec fn focused_on<P>(before: Tab<P>, after: Tab<P>, id: PaneId) -> bool {
    &&& after.focused == id
    &&& after.panes@ == before.panes@
    &&& after.layout == before.layout
    &&& after.id == before.id
    &&& after.next_id() == before.next_id()
    &&& after.title@ == before.title@
}

/// The tabs after pane `exit.1` of tab `exit.0` exited: the pane is closed
/// unless it is the last of its tab; every other tab stays.
pub open spec fn exit_applied<P>(before: Seq<Tab<P>>, exit: (TabId, PaneId), after: Seq<Tab<P>>) -> bool {
    match tab_position(before, exit.0) {
        Some(i) => if before[i].panes@.len() > 1 {
            &&& after.len() == before.len()
            &&& pane_closed(before[i], after[i], exit.1)
            &&& forall|j: int| 0 <= j < before.len() && j != i ==> #[trigger] after[j] == before[j]
        } else {
            after == before
        },
        None => after == before,
    }
}

/// Whether `states` runs from `before` through the listed exits, applied
/// in order: each state is the one before it with the next exit applied.
pub open spec fn exit_steps<P>(before: Seq<Tab<P>>, exits: Seq<(TabId, PaneId)>, states: Seq<Seq<Tab<P>>>) -> bool {
    &&& states.len() == exits.len() + 1
    &&& states[0] == before
    &&& forall|k: int| 0 <= k < exits.len() ==> exit_applied(#[trigger] states[k], exits[k], states[k + 1])
}

/// The tabs and the active tab after dropping, from position `i` on, the
/// tabs without panes while more than one tab is left; when the active
/// tab is dropped the first tab becomes active.
pub open spec fn empty_tabs_dropped<P>(tabs: Seq<Tab<P>>, active: TabId, i: int) -> (Seq<Tab<P>>, TabId)
    decreases tabs.len() - i,
{
    if i < 0 || i >= tabs.len() {
        (tabs, active)
    } else if tabs[i].panes@.len() == 0 && tabs.len() > 1 {
        let rest = tabs.remove(i);
        empty_tabs_dropped(rest, if active == tabs[i].id { rest[0].id } else { active }, i)
    } else {
        empty_tabs_dropped(tabs, active, i + 1)
    }
}

/// Every tab satisfies its invariant.
pub open spec fn tabs_wf<P>(tabs: Seq<Tab<P>>) -> bool {
    forall|i: int| 0 <= i < tabs.len() ==> (#[trigger] tabs[i]).wf()
}

/// Manages all tabs and their panes
pub struct TabManager<P> {
    /// The tabs, in the order the tab bar shows them
    tabs: Vec<Tab<P>>,
    /// Currently active tab
    active_tab: TabId,
    /// Tab bar placement
    tab_bar: TabBar,
    /// Next tab ID
    next_tab_id: u32,
    /// Shell to use for new panes
    shell: String,
}

impl<P> TabManager<P> {
    /// The tabs in order.
    pub closed spec fn tab_list(&self) -> Seq<Tab<P>> {
        self.tabs@
    }

    /// The active tab's id.
    pub closed spec fn active(&self) -> TabId {
        self.active_tab
    }

    /// The id the next tab gets.
    pub closed spec fn next_id(&self) -> u32 {
        self.next_tab_id
    }

    /// The shell for new panes.
    pub closed spec fn shell_name(&self) -> Seq<char> {
        self.shell@
    }

    /// The tab bar.
    pub closed spec fn bar(&self) -> TabBar {
        self.tab_bar
    }

    /// The manager's invariant: every tab's.
    pub open spec fn wf(&self) -> bool {
        tabs_wf(self.tab_list())
    }

    /// A manager with one tab (id 0) holding `first_pane`.
    pub fn new(shell: &str, first_pane: P) -> (r: Self)
        ensures
            r.wf(),
            r.tab_list().len() == 1,
            r.tab_list()[0].id == TabId(0),
            r.tab_list()[0].panes@ == seq![(PaneId(0), first_pane)],
            r.active() == TabId(0),
            r.next_id() == 1,
            r.shell_name() == shell@,
            r.bar() == super::tabbar::default_tab_bar(),
    {
        let tab = Tab::new(TabId(0), first_pane);
        let mut tabs: Vec<Tab<P>> = Vec::new();
        tabs.push(tab);
        TabManager { tabs, active_tab: TabId(0), tab_bar: TabBar::new(), next_tab_id: 1, shell: str_to_string(shell) }
    }

    /// The tab bar placement
    pub fn tab_bar(&self) -> (r: TabBar)
        ensures
            r == self.bar(),
    {
        self.tab_bar
    }

    /// Replace the tab bar placement (from the configuration)
    pub fn set_tab_bar(&mut self, bar: TabBar)
        ensures
            final(self).bar() == bar,
            final(self).tab_list() == old(self).tab_list(),
            final(self).active() == old(self).active(),
            final(self).next_id() == old(self).next_id(),
    {
        self.tab_bar = bar;
    }

    /// Shell to use for new panes
    pub fn shell(&self) -> (r: &str)
        ensures
            r@ == self.shell_name(),
    {
        self.shell.as_str()
    }

    /// The tabs in order
    pub fn tabs(&self) -> (r: &Vec<Tab<P>>)
        ensures
            r@ == self.tab_list(),
    {
        &self.tabs
    }

    /// The position of tab `id`.
    pub fn tab_index(&self, id: TabId) -> (r: Option<usize>)
        ensures
            match r {
                Some(i) => tab_position(self.tab_list(), id) == Some(i as int) && i < self.tab_list().len(),
                None => tab_position(self.tab_list(), id) is None,
            },
    {
        let mut i: usize = 0;
        while i < self.tabs.len()
            invariant
                i <= self.tabs@.len(),
                tab_position(self.tabs@.take(i as int), id) is None,
            decreases self.tabs@.len() - i,
        {
            proof {
                assert(self.tabs@.take(i + 1).drop_last() =~= self.tabs@.take(i as int));
            }
            if self.tabs[i].id == id {
                proof {
                    lemma_tab_position_in_prefix(self.tabs@, id, i + 1);
                }
                return Some(i);
            }
            i += 1;
        }
        assert(self.tabs@.take(i as int) =~= self.tabs@);
        None
    }

    /// Get the active tab
    pub fn active_tab(&self) -> (r: Option<&Tab<P>>)
        ensures
            match tab_position(self.tab_list(), self.active()) {
                Some(i) => r == Some(&self.tab_list()[i]),
                None => r is None,
            },
    {
        match self.tab_index(self.active_tab) {
            Some(i) => Some(&self.tabs[i]),
            None => None,
        }
    }

    /// Get the focused pane of the active tab
    pub fn focused_pane(&self) -> (r: Option<&P>)
        ensures
            match tab_position(self.tab_list(), self.active()) {
                Some(i) => match pane_position(self.tab_list()[i].panes@, self.tab_list()[i].focused) {
                    Some(j) => r == Some(&self.tab_list()[i].panes@[j].1),
                    None => r is None,
                },
                None => r is None,
            },
    {
        match self.active_tab() {
            Some(tab) => tab.focused_pane(),
            None => None,
        }
    }

    /// Whether another tab can get an id (what `new_tab` needs)
    pub fn can_open_tab(&self) -> (r: bool)
        ensures
            r == (self.next_id() < u32::MAX),
    {
        self.next_tab_id < u32::MAX
    }

    /// Add a new tab holding `pane` (which gets id 0 in it) and activate it
    pub fn new_tab(&mut self, pane: P) -> (r: TabId)
        requires
            old(self).wf(),
            old(self).next_id() < u32::MAX,
        ensures
            final(self).wf(),
            r == TabId(old(self).next_id()),
            final(self).tab_list().len() == old(self).tab_list().len() + 1,
            final(self).tab_list().drop_last() == old(self).tab_list(),
            final(self).tab_list().last().id == r,
            final(self).tab_list().last().panes@ == seq![(PaneId(0), pane)],
            final(self).active() == r,
            final(self).next_id() == old(self).next_id() + 1,
            final(self).bar() == old(self).bar(),
    {
        let tab_id = TabId(self.next_tab_id);
        self.next_tab_id = self.next_tab_id + 1;
        let tab = Tab::new(tab_id, pane);
        self.tabs.push(tab);
        self.active_tab = tab_id;
        proof {
            assert(self.tabs@.drop_last() =~= old(self).tabs@);
        }
        tab_id
    }

    /// Close the active tab (never the last one); the tab now at its
    /// position (or the new last one) becomes active
    pub fn close_tab(&mut self) -> (r: bool)
        requires
            old(self).wf(),
        ensures
            final(self).wf(),
            r == (old(self).tab_list().len() > 1),
            old(self).tab_list().len() <= 1 ==> final(self).tab_list() == old(self).tab_list() && final(self).active()
                == old(self).active(),
            old(self).tab_list().len() > 1 ==> match tab_position(old(self).tab_list(), old(self).active()) {
                Some(i) => {
                    let rest = old(self).tab_list().remove(i);
                    &&& final(self).tab_list() == rest
                    &&& final(self).active() == rest[if i < rest.len() { i } else { rest.len() - 1 }].id
                },
                None => final(self).tab_list() == old(self).tab_list() && final(self).active() == old(self).active(),
            },
            final(self).next_id() == old(self).next_id(),
            final(self).bar() == old(self).bar(),
    {
        if self.tabs.len() <= 1 {
            // Can't close the last tab
            return false;
        }
        match self.tab_index(self.active_tab) {
            Some(idx) => {
                self.tabs.remove(idx);
                let new_idx = if idx < self.tabs.len() { idx } else { self.tabs.len() - 1 };
                self.active_tab = self.tabs[new_idx].id;
            },
            None => {},
        }
        true
    }

    /// Switch to a tab by ID (nothing happens for an unknown id)
    pub fn switch_to(&mut self, id: TabId)
        ensures
            final(self).active() == (if tab_position(old(self).tab_list(), id) is Some { id } else { old(self).active() }),
            final(self).tab_list() == old(self).tab_list(),
            final(self).next_id() == old(self).next_id(),
            final(self).bar() == old(self).bar(),
    {
        if self.tab_index(id).is_some() {
            self.active_tab = id;
        }
    }

    /// Switch to next tab (the first after the last)
    pub fn next_tab(&mut self)
        ensures
            final(self).active() == next_active(old(self).tab_list(), old(self).active()),
            final(self).tab_list() == old(self).tab_list(),
            final(self).next_id() == old(self).next_id(),
            final(self).bar() == old(self).bar(),
    {
        match self.tab_index(self.active_tab) {
            Some(idx) => {
                let next_idx = if idx < self.tabs.len() - 1 { idx + 1 } else { 0 };
                self.active_tab = self.tabs[next_idx].id;
            },
            None => {},
        }
    }

    /// Switch to previous tab (the last before the first)
    pub fn prev_tab(&mut self)
        ensures
            final(self).active() == prev_active(old(self).tab_list(), old(self).active()),
            final(self).tab_list() == old(self).tab_list(),
            final(self).next_id() == old(self).next_id(),
            final(self).bar() == old(self).bar(),
    {
        match self.tab_index(self.active_tab) {
            Some(idx) => {
                let prev_idx = if idx == 0 { self.tabs.len() - 1 } else { idx - 1 };
                self.active_tab = self.tabs[prev_idx].id;
            },
            None => {},
        }
    }

    /// Switch to tab by 1-based index
    pub fn switch_to_tab(&mut self, index: usize)
        ensures
            final(self).active() == (if 0 < index <= old(self).tab_list().len() {
                old(self).tab_list()[index - 1].id
            } else {
                old(self).active()
            }),
            final(self).tab_list() == old(self).tab_list(),
            final(self).next_id() == old(self).next_id(),
            final(self).bar() == old(self).bar(),
    {
        if index > 0 && index <= self.tabs.len() {
            self.active_tab = self.tabs[index - 1].id;
        }
    }

    /// Split the focused pane of the active tab, adding `pane` (which must
    /// carry the id `next_pane_id` of the active tab gave); its id, or
    /// `None` without an active tab
    pub fn split(&mut self, direction: SplitDirection, pane: P) -> (r: Option<PaneId>)
        requires
            old(self).wf(),
            forall|i: int|
                0 <= i < old(self).tab_list().len() ==> (#[trigger] old(self).tab_list()[i]).next_pane_id < u32::MAX,
        ensures
            final(self).wf(),
            final(self).active() == old(self).active(),
            final(self).tab_list().len() == old(self).tab_list().len(),
            match tab_position(old(self).tab_list(), old(self).active()) {
                Some(i) => {
                    let t = old(self).tab_list()[i];
                    &&& r == Some(PaneId(t.next_pane_id))
                    &&& final(self).tab_list()[i].panes@ == t.panes@.push((PaneId(t.next_pane_id), pane))
                    &&& final(self).tab_list()[i].focused == PaneId(t.next_pane_id)
                    &&& final(self).tab_list()[i].layout == split_leaf(
                        t.layout,
                        t.focused,
                        direction,
                        PaneId(t.next_pane_id),
                        true,
                    )
                    &&& final(self).tab_list()[i].id == t.id
                    &&& final(self).tab_list()[i].next_id() == t.next_id() + 1
                    &&& final(self).tab_list()[i].title@ == t.title@
                    &&& forall|j: int|
                        0 <= j < old(self).tab_list().len() && j != i ==> #[trigger] final(self).tab_list()[j]
                            == old(self).tab_list()[j]
                },
                None => r is None && final(self).tab_list() == old(self).tab_list(),
            },
            final(self).next_id() == old(self).next_id(),
            final(self).bar() == old(self).bar(),
    {
        match self.tab_index(self.active_tab) {
            Some(i) => {
                let mut tabs = Vec::new();
                std::mem::swap(&mut tabs, &mut self.tabs);
                let mut tab = tabs.remove(i);
                assert(tab == old(self).tab_list()[i as int]);
                let id = tab.split(direction, pane);
                tabs.insert(i, tab);
                std::mem::swap(&mut tabs, &mut self.tabs);
                proof {
                    assert forall|j: int| 0 <= j < self.tabs@.len() implies (#[trigger] self.tabs@[j]).wf() by {
                        if j != i {
                            assert(self.tabs@[j] == old(self).tab_list()[j]);
                        }
                    }
                }
                Some(id)
            },
            None => None,
        }
    }

    /// Close the focused pane of the active tab; with one pane left the tab
    /// is closed instead
    pub fn close_pane(&mut self) -> (r: bool)
        requires
            old(self).wf(),
        ensures
            final(self).wf(),
            match tab_position(old(self).tab_list(), old(self).active()) {
                Some(i) => if old(self).tab_list()[i].panes@.len() > 1 {
                    let t = old(self).tab_list()[i];
                    &&& r
                    &&& final(self).active() == old(self).active()
                    &&& final(self).tab_list().len() == old(self).tab_list().len()
                    &&& pane_closed(t, final(self).tab_list()[i], t.focused)
                    &&& forall|j: int|
                        0 <= j < old(self).tab_list().len() && j != i ==> #[trigger] final(self).tab_list()[j]
                            == old(self).tab_list()[j]
                } else if old(self).tab_list().len() > 1 {
                    let rest = old(self).tab_list().remove(i);
                    &&& r
                    &&& final(self).tab_list() == rest
                    &&& final(self).active() == rest[if i < rest.len() { i } else { rest.len() - 1 }].id
                } else {
                    &&& !r
                    &&& final(self).tab_list() == old(self).tab_list()
                    &&& final(self).active() == old(self).active()
                },
                None => !r && final(self).tab_list() == old(self).tab_list() && final(self).active() == old(
                    self,
                ).active(),
            },
            final(self).next_id() == old(self).next_id(),
            final(self).bar() == old(self).bar(),
    {
        match self.tab_index(self.active_tab) {
            Some(i) => {
                if self.tabs[i].panes.len() > 1 {
                    let mut tabs = Vec::new();
                    std::mem::swap(&mut tabs, &mut self.tabs);
                    let mut tab = tabs.remove(i);
                    assert(tab == old(self).tab_list()[i as int]);
                    let focused = tab.focused;
                    tab.close_pane(focused);
                    tabs.insert(i, tab);
                    std::mem::swap(&mut tabs, &mut self.tabs);
                    proof {
                        assert forall|j: int| 0 <= j < self.tabs@.len() implies (#[trigger] self.tabs@[j]).wf() by {
                            if j != i {
                                assert(self.tabs@[j] == old(self).tab_list()[j]);
                            }
                        }
                    }
                    true
                } else {
                    self.close_tab()
                }
            },
            None => false,
        }
    }

    /// Move focus in a direction within the active tab, whose panes share a
    /// `width` x `height` window below (or above) the tab bar
    pub fn focus_direction(&mut self, direction: Direction, width: u32, height: u32)
        requires
            old(self).wf(),
        ensures
            final(self).wf(),
            final(self).active() == old(self).active(),
            final(self).tab_list().len() == old(self).tab_list().len(),
            match tab_position(old(self).tab_list(), old(self).active()) {
                Some(i) => {
                    &&& focus_moved(
                        old(self).tab_list()[i],
                        final(self).tab_list()[i],
                        direction,
                        width,
                        bar_content_height(old(self).bar(), height, old(self).tab_list().len()),
                    )
                    &&& forall|j: int|
                        0 <= j < old(self).tab_list().len() && j != i ==> #[trigger] final(self).tab_list()[j]
                            == old(self).tab_list()[j]
                },
                None => final(self).tab_list() == old(self).tab_list(),
            },
            final(self).next_id() == old(self).next_id(),
            final(self).bar() == old(self).bar(),
    {
        let content_height = self.tab_bar.content_height(height, self.tabs.len());
        match self.tab_index(self.active_tab) {
            Some(i) => {
                let mut tabs = Vec::new();
                std::mem::swap(&mut tabs, &mut self.tabs);
                let mut tab = tabs.remove(i);
                assert(tab == old(self).tab_list()[i as int]);
                tab.focus_direction(direction, width, content_height);
                tabs.insert(i, tab);
                std::mem::swap(&mut tabs, &mut self.tabs);
                proof {
                    assert forall|j: int| 0 <= j < self.tabs@.len() implies (#[trigger] self.tabs@[j]).wf() by {
                        if j != i {
                            assert(self.tabs@[j] == old(self).tab_list()[j]);
                        }
                    }
                }
            },
            None => {},
        }
    }

    /// Offset of the panes from the top of the window
    pub fn content_offset(&self) -> (r: u32)
        ensures
            r == (if super::tabbar::bar_shown(self.bar(), self.tab_list().len()) && self.bar().top {
                self.bar().height
            } else {
                0
            }),
    {
        self.tab_bar.content_offset(self.tabs.len())
    }

    /// Number of tabs
    pub fn tab_count(&self) -> (r: usize)
        ensures
            r == self.tab_list().len(),
    {
        self.tabs.len()
    }

    /// Whether there are tabs
    pub fn has_tabs(&self) -> (r: bool)
        ensures
            r == (self.tab_list().len() > 0),
    {
        self.tabs.len() > 0
    }

    /// The active tab's id
    pub fn active_tab_id(&self) -> (r: TabId)
        ensures
            r == self.active(),
    {
        self.active_tab
    }

    /// The tab holding pane `pane_id` (the first in tab order)
    pub fn find_pane_tab(&self, pane_id: PaneId) -> (r: Option<TabId>)
        ensures
            match r {
                Some(t) => exists|i: int| #[trigger] first_holding(self.tab_list(), pane_id, i) && self.tab_list()[i].id == t,
                None => forall|i: int|
                    0 <= i < self.tab_list().len() ==> pane_position(#[trigger] self.tab_list()[i].panes@, pane_id)
                        is None,
            },
    {
        let mut i: usize = 0;
        while i < self.tabs.len()
            invariant
                i <= self.tabs@.len(),
                forall|j: int| 0 <= j < i ==> pane_position(#[trigger] self.tabs@[j].panes@, pane_id) is None,
            decreases self.tabs@.len() - i,
        {
            if self.tabs[i].pane_index(pane_id).is_some() {
                assert(first_holding(self.tab_list(), pane_id, i as int));
                return Some(self.tabs[i].id);
            }
            i += 1;
        }
        None
    }

    /// Activate the tab holding pane `pane_id` and focus the pane
    pub fn focus_pane(&mut self, pane_id: PaneId) -> (r: bool)
        requires
            old(self).wf(),
        ensures
            final(self).wf(),
            final(self).tab_list().len() == old(self).tab_list().len(),
            r == exists|i: int|
                0 <= i < old(self).tab_list().len() && pane_position(#[trigger] old(self).tab_list()[i].panes@, pane_id)
                    is Some,
            r ==> exists|i: int| #[trigger]
                first_holding(old(self).tab_list(), pane_id, i) && {
                    &&& final(self).active() == old(self).tab_list()[i].id
                    &&& focused_on(old(self).tab_list()[i], final(self).tab_list()[i], pane_id)
                    &&& forall|j: int|
                        0 <= j < old(self).tab_list().len() && j != i ==> #[trigger] final(self).tab_list()[j]
                            == old(self).tab_list()[j]
                },
            !r ==> final(self).tab_list() == old(self).tab_list() && final(self).active() == old(self).active(),
            final(self).next_id() == old(self).next_id(),
            final(self).bar() == old(self).bar(),
    {
        let mut i: usize = 0;
        while i < self.tabs.len()
            invariant
                i <= self.tabs@.len(),
                self.tabs@ == old(self).tab_list(),
                self.active_tab == old(self).active(),
                self.next_tab_id == old(self).next_id(),
                self.tab_bar == old(self).bar(),
                tabs_wf(self.tabs@),
                forall|j: int| 0 <= j < i ==> pane_position(#[trigger] self.tabs@[j].panes@, pane_id) is None,
            decreases self.tabs@.len() - i,
        {
            if self.tabs[i].pane_index(pane_id).is_some() {
                self.active_tab = self.tabs[i].id;
                let mut tabs = Vec::new();
                std::mem::swap(&mut tabs, &mut self.tabs);
                let mut tab = tabs.remove(i);
                tab.focus(pane_id);
                tabs.insert(i, tab);
                std::mem::swap(&mut tabs, &mut self.tabs);
                proof {
                    assert forall|j: int| 0 <= j < self.tabs@.len() implies (#[trigger] self.tabs@[j]).wf() by {
                        if j != i {
                            assert(self.tabs@[j] == old(self).tab_list()[j]);
                        } else {
                            assert(self.tabs@[j].layout == old(self).tab_list()[j].layout);
                        }
                    }
                    assert(first_holding(old(self).tab_list(), pane_id, i as int));
                }
                return true;
            }
            i += 1;
        }
        false
    }

    /// Resize the focused pane of the active tab by `delta` thousandths
    pub fn resize_focused_pane(&mut self, delta: i32) -> (r: bool)
        requires
            old(self).wf(),
        ensures
            final(self).wf(),
            final(self).tab_list().len() == old(self).tab_list().len(),
            match tab_position(old(self).tab_list(), old(self).active()) {
                Some(i) => {
                    let t = old(self).tab_list()[i];
                    &&& r == resized(t.layout, t.focused, delta as int).1
                    &&& focused_resized(t, final(self).tab_list()[i], delta as int)
                    &&& forall|j: int|
                        0 <= j < old(self).tab_list().len() && j != i ==> #[trigger] final(self).tab_list()[j]
                            == old(self).tab_list()[j]
                },
                None => !r && final(self).tab_list() == old(self).tab_list(),
            },
            final(self).active() == old(self).active(),
            final(self).next_id() == old(self).next_id(),
            final(self).bar() == old(self).bar(),
    {
        match self.tab_index(self.active_tab) {
            Some(i) => {
                let mut tabs = Vec::new();
                std::mem::swap(&mut tabs, &mut self.tabs);
                let mut tab = tabs.remove(i);
                assert(tab == old(self).tab_list()[i as int]);
                let r = tab.resize_focused_pane(delta);
                tabs.insert(i, tab);
                std::mem::swap(&mut tabs, &mut self.tabs);
                proof {
                    assert forall|j: int| 0 <= j < self.tabs@.len() implies (#[trigger] self.tabs@[j]).wf() by {
                        if j != i {
                            assert(self.tabs@[j] == old(self).tab_list()[j]);
                        }
                    }
                }
                r
            },
            None => false,
        }
    }

    /// Set the title of tab `tab_id`
    pub fn set_tab_title(&mut self, tab_id: TabId, title: String)
        requires
            old(self).wf(),
        ensures
            final(self).wf(),
            final(self).tab_list().len() == old(self).tab_list().len(),
            final(self).active() == old(self).active(),
            final(self).next_id() == old(self).next_id(),
            final(self).bar() == old(self).bar(),
            match tab_position(old(self).tab_list(), tab_id) {
                Some(i) => {
                    &&& final(self).tab_list()[i].title@ == title@
                    &&& same_but_title(final(self).tab_list()[i], old(self).tab_list()[i])
                    &&& forall|j: int|
                        0 <= j < old(self).tab_list().len() && j != i ==> #[trigger] final(self).tab_list()[j]
                            == old(self).tab_list()[j]
                },
                None => final(self).tab_list() == old(self).tab_list(),
            },
    {
        match self.tab_index(tab_id) {
            Some(i) => {
                let mut tabs = Vec::new();
                std::mem::swap(&mut tabs, &mut self.tabs);
                let mut tab = tabs.remove(i);
                assert(tab == old(self).tab_list()[i as int]);
                tab.set_title(title);
                tabs.insert(i, tab);
                std::mem::swap(&mut tabs, &mut self.tabs);
                proof {
                    assert forall|j: int| 0 <= j < self.tabs@.len() implies (#[trigger] self.tabs@[j]).wf() by {
                        if j != i {
                            assert(self.tabs@[j] == old(self).tab_list()[j]);
                        }
                    }
                }
            },
            None => {},
        }
    }

    /// Take the focused pane's title (when not empty) as the title of the
    /// tab at position `index`
    pub fn update_tab_title(&mut self, index: usize, focused_title: &str)
        requires
            old(self).wf(),
            index < old(self).tab_list().len(),
        ensures
            final(self).wf(),
            final(self).tab_list().len() == old(self).tab_list().len(),
            final(self).tab_list()[index as int].title@ == (if focused_title@.len() == 0 {
                old(self).tab_list()[index as int].title@
            } else {
                focused_title@
            }),
            same_but_title(final(self).tab_list()[index as int], old(self).tab_list()[index as int]),
            forall|j: int|
                0 <= j < old(self).tab_list().len() && j != index ==> #[trigger] final(self).tab_list()[j]
                    == old(self).tab_list()[j],
            final(self).active() == old(self).active(),
            final(self).next_id() == old(self).next_id(),
            final(self).bar() == old(self).bar(),
            final(self).shell_name() == old(self).shell_name(),
    {
        let mut tabs = Vec::new();
        std::mem::swap(&mut tabs, &mut self.tabs);
        let mut tab = tabs.remove(index);
        assert(tab == old(self).tab_list()[index as int]);
        tab.update_title(focused_title);
        tabs.insert(index, tab);
        std::mem::swap(&mut tabs, &mut self.tabs);
        proof {
            assert forall|j: int| 0 <= j < self.tabs@.len() implies (#[trigger] self.tabs@[j]).wf() by {
                if j != index {
                    assert(self.tabs@[j] == old(self).tab_list()[j]);
                }
            }
        }
    }

    /// The pane at position `p` of the tab at position `t`, to change in place
    pub fn pane_mut(&mut self, t: usize, p: usize) -> (r: &mut P)
        requires
            old(self).wf(),
            t < old(self).tab_list().len(),
            p < old(self).tab_list()[t as int].panes@.len(),
        ensures
            *r == old(self).tab_list()[t as int].panes@[p as int].1,
            final(self).wf(),
            final(self).tab_list().len() == old(self).tab_list().len(),
            forall|j: int|
                0 <= j < old(self).tab_list().len() && j != t ==> #[trigger] final(self).tab_list()[j]
                    == old(self).tab_list()[j],
            final(self).tab_list()[t as int].id == old(self).tab_list()[t as int].id,
            final(self).tab_list()[t as int].title == old(self).tab_list()[t as int].title,
            final(self).tab_list()[t as int].layout == old(self).tab_list()[t as int].layout,
            final(self).tab_list()[t as int].focused == old(self).tab_list()[t as int].focused,
            final(self).tab_list()[t as int].next_pane_id == old(self).tab_list()[t as int].next_pane_id,
            final(self).tab_list()[t as int].panes@ == old(self).tab_list()[t as int].panes@.update(
                p as int,
                (old(self).tab_list()[t as int].panes@[p as int].0, *final(r)),
            ),
            final(self).active() == old(self).active(),
            final(self).next_id() == old(self).next_id(),
            final(self).bar() == old(self).bar(),
            final(self).shell_name() == old(self).shell_name(),
    {
        let tab = &mut self.tabs[t];
        let entry = &mut tab.panes[p];
        &mut entry.1
    }

    /// After panes exited: each listed pane is closed unless it is the last
    /// of its tab; then tabs left without panes are dropped (never the last
    /// tab). Whether anything exited.
    pub fn remove_exited(&mut self, exits: &Vec<(TabId, PaneId)>) -> (r: bool)
        requires
            old(self).wf(),
        ensures
            final(self).wf(),
            r == (exits@.len() > 0 || exists|i: int|
                0 <= i < old(self).tab_list().len() && (#[trigger] old(self).tab_list()[i]).panes@.len() == 0),
            exists|states: Seq<Seq<Tab<P>>>| #[trigger]
                exit_steps(old(self).tab_list(), exits@, states) && (final(self).tab_list(), final(self).active())
                    == empty_tabs_dropped(states.last(), old(self).active(), 0),
            final(self).next_id() == old(self).next_id(),
            final(self).bar() == old(self).bar(),
    {
        let had_exits = exits.len() > 0;
        let mut had_empty = false;
        let ghost mut states: Seq<Seq<Tab<P>>> = seq![old(self).tab_list()];
        assert(!exists|m: int| 0 <= m < 0 && (#[trigger] old(self).tab_list()[m]).panes@.len() == 0);
        let mut k: usize = 0;
        // The panes of a tab only go when another stays, so no tab empties here.
        while k < exits.len()
            invariant
                k <= exits@.len(),
                tabs_wf(self.tabs@),
                self.tabs@.len() == old(self).tab_list().len(),
                forall|j: int|
                    0 <= j < self.tabs@.len() ==> ((#[trigger] self.tabs@[j]).panes@.len() == 0 <==> old(
                        self,
                    ).tab_list()[j].panes@.len() == 0),
                self.next_tab_id == old(self).next_id(),
                self.tab_bar == old(self).bar(),
                self.active_tab == old(self).active(),
                exit_steps(old(self).tab_list(), exits@.take(k as int), states),
                states.last() == self.tabs@,
            decreases exits@.len() - k,
        {
            let ghost prev = self.tabs@;
            let (tab_id, pane_id) = exits[k];
            match self.tab_index(tab_id) {
                Some(i) => {
                    if self.tabs[i].panes.len() > 1 {
                        let mut tabs = Vec::new();
                        std::mem::swap(&mut tabs, &mut self.tabs);
                        let mut tab = tabs.remove(i);
                        let ghost before = tabs@;
                        let ghost t0 = tab;
                        tab.close_pane(pane_id);
                        assert(tab.panes@.len() > 0) by {
                            if pane_position(t0.panes@, pane_id) is Some {
                                let p = pane_position(t0.panes@, pane_id)->0;
                                lemma_pane_position_bounds(t0.panes@, pane_id);
                            }
                        }
                        tabs.insert(i, tab);
                        std::mem::swap(&mut tabs, &mut self.tabs);
                        proof {
                            assert forall|j: int| 0 <= j < self.tabs@.len() implies (#[trigger] self.tabs@[j]).wf() by {
                                if j < i {
                                    assert(self.tabs@[j] == before[j]);
                                } else if j > i {
                                    assert(self.tabs@[j] == before[j - 1]);
                                }
                            }
                            assert forall|j: int| 0 <= j < prev.len() && j != i implies #[trigger] self.tabs@[j]
                                == prev[j] by {
                                if j < i {
                                    assert(self.tabs@[j] == before[j]);
                                } else {
                                    assert(self.tabs@[j] == before[j - 1]);
                                }
                            }
                        }
                    }
                },
                None => {},
            }
            proof {
                assert(exit_applied(prev, exits@[k as int], self.tabs@));
                let s0 = states;
                states = states.push(self.tabs@);
                assert forall|m: int| 0 <= m < k + 1 implies exit_applied(
                    #[trigger] states[m],
                    exits@.take(k + 1)[m],
                    states[m + 1],
                ) by {
                    if m < k {
                        assert(states[m] == s0[m] && states[m + 1] == s0[m + 1]);
                        assert(exits@.take(k + 1)[m] == exits@.take(k as int)[m]);
                    }
                }
            }
            k += 1;
        }
        proof {
            assert(exits@.take(k as int) =~= exits@);
        }
        let ghost mid = self.tabs@;
        assert(exit_steps(old(self).tab_list(), exits@, states));
        // Drop tabs left without panes, keeping at least one tab
        let mut j: usize = 0;
        while j < self.tabs.len()
            invariant
                j <= self.tabs@.len(),
                self.tabs@.len() == old(self).tab_list().len(),
                forall|m: int|
                    0 <= m < self.tabs@.len() ==> ((#[trigger] self.tabs@[m]).panes@.len() == 0 <==> old(
                        self,
                    ).tab_list()[m].panes@.len() == 0),
                had_empty == exists|m: int| 0 <= m < j && (#[trigger] old(self).tab_list()[m]).panes@.len() == 0,
            decreases self.tabs@.len() - j,
        {
            if self.tabs[j].panes.len() == 0 {
                had_empty = true;
            }
            j += 1;
        }
        let mut i: usize = 0;
        while i < self.tabs.len()
            invariant
                i <= self.tabs@.len(),
                tabs_wf(self.tabs@),
                self.next_tab_id == old(self).next_id(),
                self.tab_bar == old(self).bar(),
                empty_tabs_dropped(mid, old(self).active(), 0) == empty_tabs_dropped(
                    self.tabs@,
                    self.active_tab,
                    i as int,
                ),
            decreases self.tabs@.len() - i,
        {
            if self.tabs[i].panes.len() == 0 && self.tabs.len() > 1 {
                let id = self.tabs[i].id;
                let ghost before = self.tabs@;
                self.tabs.remove(i);
                proof {
                    assert forall|j: int| 0 <= j < self.tabs@.len() implies (#[trigger] self.tabs@[j]).wf() by {
                        if j < i {
                            assert(self.tabs@[j] == before[j]);
                        } else {
                            assert(self.tabs@[j] == before[j + 1]);
                        }
                    }
                }
                if self.active_tab == id && self.tabs.len() > 0 {
                    self.active_tab = self.tabs[0].id;
                }
            } else {
                i += 1;
            }
        }
        had_exits || had_empty
    }

    /// The tabs in order as the tab bar shows them: id, title, active or not
    pub fn tab_entries(&self) -> (r: Vec<(TabId, String, bool)>)
        ensures
            r@.len() == self.tab_list().len(),
            forall|i: int|
                0 <= i < r@.len() ==> (#[trigger] r@[i]).0 == self.tab_list()[i].id && r@[i].1@
                    == self.tab_list()[i].title@ && r@[i].2 == (self.tab_list()[i].id == self.active()),
    {
        let mut out: Vec<(TabId, String, bool)> = Vec::new();
        let mut i: usize = 0;
        while i < self.tabs.len()
            invariant
                i <= self.tabs@.len(),
                out@.len() == i,
                forall|j: int|
                    0 <= j < i ==> (#[trigger] out@[j]).0 == self.tabs@[j].id && out@[j].1@ == self.tabs@[j].title@
                        && out@[j].2 == (self.tabs@[j].id == self.active_tab),
            decreases self.tabs@.len() - i,
        {
            let t = &self.tabs[i];
            out.push((t.id, t.title.clone(), t.id == self.active_tab));
            i += 1;
        }
        out
    }
}

/// When the first `k` tabs hold one with id `id`, the first such tab is
/// also the first in the whole list.
proof fn lemma_tab_position_in_prefix<P>(tabs: Seq<Tab<P>>, id: TabId, k: int)
    requires
        0 <= k <= tabs.len(),
        tab_position(tabs.take(k), id) is Some,
    ensures
        tab_position(tabs, id) == tab_position(tabs.take(k), id),
    decreases tabs.len(),
{
    if k < tabs.len() {
        assert(tabs.drop_last().take(k) =~= tabs.take(k));
        lemma_tab_position_in_prefix(tabs.drop_last(), id, k);
    } else {
        assert(tabs.take(k) =~= tabs);
    }
}

/// A pane position lies within the list.
proof fn lemma_pane_position_bounds<P>(panes: Seq<(PaneId, P)>, id: PaneId)
    ensures
        pane_position(panes, id) matches Some(i) ==> 0 <= i < panes.len(),
    decreases panes.len(),
{
    if panes.len() > 0 {
        lemma_pane_position_bounds(panes.drop_last(), id);
    }
}

/// `tab_position` finds the first tab with the id, and only one that has it.
proof fn lemma_tab_position_first<P>(tabs: Seq<Tab<P>>, id: TabId)
    ensures
        match tab_position(tabs, id) {
            Some(i) => {
                &&& 0 <= i < tabs.len()
                &&& tabs[i].id == id
                &&& forall|j: int| 0 <= j < i ==> (#[trigger] tabs[j]).id != id
            },
            None => forall|j: int| 0 <= j < tabs.len() ==> (#[trigger] tabs[j]).id != id,
        },
    decreases tabs.len(),
{
    if tabs.len() > 0 {
        let d = tabs.drop_last();
        lemma_tab_position_first(d, id);
        assert forall|j: int| 0 <= j < d.len() implies #[trigger] d[j] == tabs[j] by {}
        assert(tabs[tabs.len() - 1] == tabs.last());
        match tab_position(d, id) {
            Some(i) => {
                assert(d[i] == tabs[i]);
                assert forall|j: int| 0 <= j < i implies (#[trigger] tabs[j]).id != id by {
                    assert(d[j] == tabs[j]);
                }
            },
            None => {
                assert forall|j: int| 0 <= j < tabs.len() - 1 implies (#[trigger] tabs[j]).id != id by {
                    assert(d[j] == tabs[j]);
                }
            },
        }
    }
}

/// With distinct ids, the tab at position `k` is found at `k`.
proof fn lemma_tab_found_at<P>(tabs: Seq<Tab<P>>, k: int)
    requires
        ids_distinct(tabs),
        0 <= k < tabs.len(),
    ensures
        tab_position(tabs, tabs[k].id) == Some(k),
{
    lemma_tab_position_first(tabs, tabs[k].id);
    match tab_position(tabs, tabs[k].id) {
        Some(i) => {
            if i != k {
                if i < k {
                    assert(tabs[i].id != tabs[k].id);
                } else {
                    assert(tabs[k].id != tabs[k].id);
                }
            }
        },
        None => {
            assert(tabs[k].id != tabs[k].id);
        },
    }
}

/// When no two tabs share an id, switching to the previous tab undoes
/// switching to the next one, and the other way round.
pub proof fn lemma_prev_undoes_next<P>(tabs: Seq<Tab<P>>, active: TabId)
    requires
        ids_distinct(tabs),
    ensures
        prev_active(tabs, next_active(tabs, active)) == active,
        next_active(tabs, prev_active(tabs, active)) == active,
{
    lemma_tab_position_first(tabs, active);
    match tab_position(tabs, active) {
        Some(i) => {
            let n = if i + 1 < tabs.len() { i + 1 } else { 0 };
            let p = if i == 0 { tabs.len() - 1 } else { i - 1 };
            lemma_tab_found_at(tabs, n);
            lemma_tab_found_at(tabs, p);
        },
        None => {},
    }
}

/// Adding a tab with an id above every id so far keeps the ids distinct.
pub proof fn lemma_fresh_id_keeps_distinct<P>(tabs: Seq<Tab<P>>, t: Tab<P>, next: u32)
    requires
        ids_distinct(tabs),
        forall|i: int| 0 <= i < tabs.len() ==> (#[trigger] tabs[i]).id.0 < next,
        t.id == TabId(next),
    ensures
        ids_distinct(tabs.push(t)),
        forall|i: int| 0 <= i < tabs.len() + 1 ==> (#[trigger] tabs.push(t)[i]).id.0 < next + 1,
{
    let s = tabs.push(t);
    assert forall|i: int, j: int| 0 <= i < j < s.len() implies (#[trigger] s[i]).id != (#[trigger] s[j]).id by {
        assert(s[i] == tabs[i]);
        if j < tabs.len() {
            assert(s[j] == tabs[j]);
        }
    }
    assert forall|i: int| 0 <= i < tabs.len() + 1 implies (#[trigger] s[i]).id.0 < next + 1 by {
        if i < tabs.len() {
            assert(s[i] == tabs[i]);
        }
    }
}

} // verus!
