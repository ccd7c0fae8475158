//! Tab: a split tree of panes with one of them focused
//!
//! The tab holds its panes (of any type `P`) with their ids; creating a
//! pane (and its process) is left to the caller, which hands it over.
use vstd::prelude::*;
use super::pane::PaneId;
use super::split::{
    Direction, PaneLayout, SplitDirection, SplitNode, ratios_ok, found, removed, resized, split_leaf,
    layouts_of, neighbor_of, first_of, lemma_split_keeps_ratios, lemma_remove_keeps_ratios,
    lemma_resize_keeps_ratios, lemma_layout_tiles, layouts_fit,
};
use crate::text::str_to_string;

verus! {

/// Unique identifier for a tab
#[derive(Debug, Clone, Copy, PartialEq, Eq, Hash, Structural)]
pub struct TabId(pub u32);

/// The position of the first pane with id `id`.
pub open spec fn pane_position<P>(panes: Seq<(PaneId, P)>, id: PaneId) -> Option<int>
    decreases panes.len(),
{
    if panes.len() == 0 {
        None
    } else {
        match pane_position(panes.drop_last(), id) {
            Some(i) => Some(i),
            None => if panes.last().0 == id { Some(panes.len() - 1) } else { None },
        }
    }
}

/// A tab after closing pane `id`: with more than one pane the pane leaves
/// the tree and the list, and when it had the focus the pane that takes
/// its space (or the first pane) gets it; a tab's last pane stays.
pub open spec fn pane_closed<P>(before: Tab<P>, after: Tab<P>, id: PaneId) -> bool {
    &&& if before.panes@.len() <= 1 {
        &&& after.panes@ == before.panes@
        &&& after.layout == before.layout
        &&& after.focused == before.focused
    } else {
        let (layout, sibling) = removed(before.layout, id);
        &&& after.layout == layout
        &&& after.panes@ == match pane_position(before.panes@, id) {
            Some(i) => before.panes@.remove(i),
            None => before.panes@,
        }
        &&& after.focused == (if before.focused == id {
            let target = match sibling {
                Some(s) => s,
                None => first_of(layout),
            };
            if pane_position(after.panes@, target) is Some { target } else { before.focused }
        } else {
            before.focused
        })
    }
    &&& after.id == before.id
    &&& after.next_id() == before.next_id()
    &&& after.title@ == before.title@
}

/// A tab after moving the focus in `direction`, its panes laid out in a
/// `width` x `height` area: the neighbor there gets the focus.
pub open spec fn focus_moved<P>(before: Tab<P>, after: Tab<P>, direction: Direction, width: u32, height: u32) -> bool {
    &&& after.focused == (match neighbor_of(layouts_of(before.layout, 0, 0, width, height), before.focused, direction) {
        Some(n) => if pane_position(before.panes@, n) is Some { n } else { before.focused },
        None => before.focused,
    })
    &&& after.panes@ == before.panes@
    &&& after.layout == before.layout
    &&& after.id == before.id
    &&& after.next_id() == before.next_id()
    &&& after.title@ == before.title@
}

/// A tab after resizing its focused pane by `delta` thousandths.
pub open spec fn focused_resized<P>(before: Tab<P>, after: Tab<P>, delta: int) -> bool {
    &&& after.layout == resized(before.layout, before.focused, delta).0
    &&& after.panes@ == before.panes@
    &&& after.focused == before.focused
    &&& after.id == before.id
    &&& after.next_id() == before.next_id()
    &&& after.title@ == before.title@
}

/// A tab: panes laid out in a split tree, one of them focused
pub struct Tab<P> {
    pub id: TabId,
    pub title: String,
    pub layout: SplitNode,
    pub panes: Vec<(PaneId, P)>,
    pub focused: PaneId,
    /// The id the next pane of this tab gets
    pub next_pane_id: u32,
}

impl<P> Tab<P> {
    /// The id the next pane of this tab gets.
    pub open spec fn next_id(&self) -> u32 {
        self.next_pane_id
    }

    /// The tab's invariant: every split ratio within a whole.
    pub open spec fn wf(&self) -> bool {
        ratios_ok(self.layout)
    }

    /// A tab holding one pane (id 0), focused.
    pub fn new(id: TabId, pane: P) -> (r: Self)
        ensures
            r.wf(),
            r.id == id,
            r.title@ == "shell"@,
            r.layout == SplitNode::Leaf(PaneId(0)),
            r.panes@ == seq![(PaneId(0), pane)],
            r.focused == PaneId(0),
            r.next_id() == 1,
    {
        let pane_id = PaneId(0);
        let mut panes: Vec<(PaneId, P)> = Vec::new();
        panes.push((pane_id, pane));
        assert(panes@ =~= seq![(pane_id, pane)]);
        Tab { id, title: str_to_string("shell"), layout: SplitNode::leaf(pane_id), panes, focused: pane_id, next_pane_id: 1 }
    }

    /// The id that the next pane of this tab gets.
    pub fn next_pane_id(&self) -> (r: PaneId)
        ensures
            r == PaneId(self.next_id()),
    {
        PaneId(self.next_pane_id)
    }

    /// The position of pane `id` among the panes.
    pub fn pane_index(&self, id: PaneId) -> (r: Option<usize>)
        ensures
            match r {
                Some(i) => pane_position(self.panes@, id) == Some(i as int) && i < self.panes@.len(),
                None => pane_position(self.panes@, id) is None,
            },
    {
        let mut i: usize = 0;
        while i < self.panes.len()
            invariant
                i <= self.panes@.len(),
                pane_position(self.panes@.take(i as int), id) is None,
            decreases self.panes@.len() - i,
        {
            proof {
                assert(self.panes@.take(i + 1).drop_last() =~= self.panes@.take(i as int));
            }
            if self.panes[i].0 == id {
                proof {
                    lemma_position_in_prefix(self.panes@, id, i + 1);
                }
                return Some(i);
            }
            i += 1;
        }
        assert(self.panes@.take(i as int) =~= self.panes@);
        None
    }

    /// The focused pane
    pub fn focused_pane(&self) -> (r: Option<&P>)
        ensures
            match pane_position(self.panes@, self.focused) {
                Some(i) => r == Some(&self.panes@[i].1),
                None => r is None,
            },
    {
        match self.pane_index(self.focused) {
            Some(i) => Some(&self.panes[i].1),
            None => None,
        }
    }

    /// Add `pane` (which must have the id `next_pane_id` gave) by splitting
    /// the focused pane; the new pane goes after it and takes the focus.
    pub fn split(&mut self, direction: SplitDirection, pane: P) -> (r: PaneId)
        requires
            old(self).wf(),
            old(self).next_id() < u32::MAX,
        ensures
            final(self).wf(),
            r == PaneId(old(self).next_id()),
            final(self).next_id() == old(self).next_id() + 1,
            final(self).panes@ == old(self).panes@.push((r, pane)),
            final(self).layout == split_leaf(old(self).layout, old(self).focused, direction, r, true),
            final(self).focused == r,
            final(self).id == old(self).id,
            final(self).title@ == old(self).title@,
    {
        let new_id = PaneId(self.next_pane_id);
        self.next_pane_id = self.next_pane_id + 1;
        self.panes.push((new_id, pane));
        let focused = self.focused;
        self.layout.split_pane(focused, direction, new_id, true);
        proof {
            lemma_split_keeps_ratios(old(self).layout, focused, direction, new_id, true);
            assert(pane_position(self.panes@, new_id) is Some) by {
                lemma_position_of_last(self.panes@, new_id);
            }
        }
        self.focus(new_id);
        new_id
    }

    /// Close a pane; the pane that takes its space is returned (and focused
    /// when the closed pane had the focus). A tab's last pane stays.
    pub fn close_pane(&mut self, id: PaneId) -> (r: Option<PaneId>)
        requires
            old(self).wf(),
        ensures
            final(self).wf(),
            pane_closed(*old(self), *final(self), id),
            r == (if old(self).panes@.len() > 1 { removed(old(self).layout, id).1 } else { None }),
    {
        if self.panes.len() <= 1 {
            return None;
        }
        let sibling = self.layout.remove(id);
        proof {
            lemma_remove_keeps_ratios(old(self).layout, id);
        }
        match self.pane_index(id) {
            Some(i) => {
                self.panes.remove(i);
            },
            None => {},
        }
        if self.focused == id {
            let target = match sibling {
                Some(s) => s,
                None => match self.layout.first_pane() {
                    Some(f) => f,
                    None => id,
                },
            };
            self.focus(target);
        }
        sibling
    }

    /// Focus a pane (nothing happens for an id the tab does not hold)
    pub fn focus(&mut self, id: PaneId)
        ensures
            final(self).focused == (if pane_position(old(self).panes@, id) is Some {
                id
            } else {
                old(self).focused
            }),
            final(self).panes@ == old(self).panes@,
            final(self).layout == old(self).layout,
            final(self).id == old(self).id,
            final(self).next_id() == old(self).next_id(),
            final(self).title@ == old(self).title@,
    {
        if self.pane_index(id).is_some() {
            self.focused = id;
        }
    }

    /// Move focus to the neighbor in a direction
    pub fn focus_direction(&mut self, direction: Direction, width: u32, height: u32)
        requires
            old(self).wf(),
        ensures
            final(self).wf(),
            focus_moved(*old(self), *final(self), direction, width, height),
    {
        let layouts = self.layout.layout(0, 0, width, height);
        proof {
            lemma_layout_tiles(self.layout, 0, 0, width, height);
            assert(layouts_fit(layouts@));
        }
        match self.layout.find_neighbor(self.focused, direction, &layouts) {
            Some(neighbor) => self.focus(neighbor),
            None => {},
        }
    }

    /// Layouts of all panes of the tab in a `width` x `height` area
    pub fn get_layouts(&self, width: u32, height: u32) -> (r: Vec<PaneLayout>)
        requires
            self.wf(),
        ensures
            r@ == layouts_of(self.layout, 0, 0, width, height),
    {
        self.layout.layout(0, 0, width, height)
    }

    /// Get all pane IDs
    pub fn pane_ids(&self) -> (r: Vec<PaneId>)
        ensures
            r@ == super::split::panes_of(self.layout),
    {
        self.layout.all_panes()
    }

    /// Take the focused pane's terminal title as the tab title, unless empty
    pub fn update_title(&mut self, focused_title: &str)
        ensures
            final(self).title@ == (if focused_title@.len() == 0 { old(self).title@ } else { focused_title@ }),
            final(self).panes@ == old(self).panes@,
            final(self).layout == old(self).layout,
            final(self).focused == old(self).focused,
            final(self).id == old(self).id,
            final(self).next_id() == old(self).next_id(),
    {
        if !focused_title.is_empty() {
            self.title = str_to_string(focused_title);
        }
    }

    /// Set the tab title
    pub fn set_title(&mut self, title: String)
        ensures
            final(self).title@ == title@,
            final(self).panes@ == old(self).panes@,
            final(self).layout == old(self).layout,
            final(self).focused == old(self).focused,
            final(self).id == old(self).id,
            final(self).next_id() == old(self).next_id(),
    {
        self.title = title;
    }

    /// Resize the focused pane by `delta` thousandths of its split
    pub fn resize_focused_pane(&mut self, delta: i32) -> (r: bool)
        requires
            old(self).wf(),
        ensures
            final(self).wf(),
            focused_resized(*old(self), *final(self), delta as int),
            r == resized(old(self).layout, old(self).focused, delta as int).1,
    {
        let focused = self.focused;
        proof {
            lemma_resize_keeps_ratios(self.layout, focused, delta as int);
        }
        self.layout.resize_pane(focused, delta)
    }
}

/// When the first `k` panes hold one with id `id`, the first such pane is
/// also the first in the whole list.
proof fn lemma_position_in_prefix<P>(panes: Seq<(PaneId, P)>, id: PaneId, k: int)
    requires
        0 <= k <= panes.len(),
        pane_position(panes.take(k), id) is Some,
    ensures
        pane_position(panes, id) == pane_position(panes.take(k), id),
    decreases panes.len(),
{
    if k < panes.len() {
        assert(panes.drop_last().take(k) =~= panes.take(k));
        lemma_position_in_prefix(panes.drop_last(), id, k);
    } else {
        assert(panes.take(k) =~= panes);
    }
}

/// A list whose last pane has id `id` holds a pane with that id.
proof fn lemma_position_of_last<P>(panes: Seq<(PaneId, P)>, id: PaneId)
    requires
        panes.len() > 0,
        panes.last().0 == id,
    ensures
        pane_position(panes, id) is Some,
{
}

} // verus!
