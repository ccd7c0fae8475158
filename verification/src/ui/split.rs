//! Binary split tree for pane layout
//!
//! Split ratios are kept in thousandths of the parent's size (500 is an even
//! split) so that layouts are computed exactly.
use vstd::prelude::*;
use super::pane::PaneId;

verus! {

/// Split direction
#[derive(Debug, Clone, Copy, PartialEq, Eq, Structural)]
pub enum SplitDirection {
    /// Side by side (left | right)
    Horizontal,
    /// Stacked (top / bottom)
    Vertical,
}

/// The ratio of an even split, in thousandths.
pub const EVEN_RATIO: u32 = 500;

/// The smallest ratio a resize leaves, in thousandths.
pub const MIN_RATIO: u32 = 100;

/// The largest ratio a resize leaves, in thousandths.
pub const MAX_RATIO: u32 = 900;

/// A node in the split tree
#[derive(Debug)]
pub enum SplitNode {
    /// A leaf containing a pane
    Leaf(PaneId),
    /// A split containing two children
    Split {
        direction: SplitDirection,
        /// The first child's share of the space, in thousandths
        ratio: u32,
        first: Box<SplitNode>,
        second: Box<SplitNode>,
    },
}

/// Layout information for a pane
#[derive(Debug, Clone, Copy, PartialEq, Eq, Structural)]
pub struct PaneLayout {
    pub id: PaneId,
    pub x: u32,
    pub y: u32,
    pub width: u32,
    pub height: u32,
}

/// Direction for focus navigation
#[derive(Debug, Clone, Copy, PartialEq, Eq, Structural)]
pub enum Direction {
    Up,
    Down,
    Left,
    Right,
}

/// The panes of a tree, first child before second.
pub open spec fn panes_of(n: SplitNode) -> Seq<PaneId>
    decreases n,
{
    match n {
        SplitNode::Leaf(id) => seq![id],
        SplitNode::Split { first, second, .. } => panes_of(*first) + panes_of(*second),
    }
}

/// Whether a tree holds pane `id`.
pub open spec fn holds(n: SplitNode, id: PaneId) -> bool
    decreases n,
{
    match n {
        SplitNode::Leaf(l) => l == id,
        SplitNode::Split { first, second, .. } => holds(*first, id) || holds(*second, id),
    }
}

/// The leaf of pane `id` (the first one, searching the first child first).
pub open spec fn found(n: SplitNode, id: PaneId) -> Option<SplitNode>
    decreases n,
{
    match n {
        SplitNode::Leaf(l) => if l == id { Some(n) } else { None },
        SplitNode::Split { first, second, .. } => match found(*first, id) {
            Some(f) => Some(f),
            None => found(*second, id),
        },
    }
}

/// The first pane of a tree.
pub open spec fn first_of(n: SplitNode) -> PaneId
    decreases n,
{
    match n {
        SplitNode::Leaf(id) => id,
        SplitNode::Split { first, .. } => first_of(*first),
    }
}

/// The share of `size` that a ratio in thousandths gives the first child.
pub open spec fn share(size: u32, ratio: u32) -> u32 {
    ((size as int * ratio as int) / 1000) as u32
}

/// The layouts of the panes of a tree in the rectangle at `x`, `y` of size
/// `width` x `height`, in the order of `panes_of`.
pub open spec fn layouts_of(n: SplitNode, x: u32, y: u32, width: u32, height: u32) -> Seq<PaneLayout>
    decreases n,
{
    match n {
        SplitNode::Leaf(id) => seq![PaneLayout { id, x, y, width, height }],
        SplitNode::Split { direction, ratio, first, second } => match direction {
            SplitDirection::Horizontal => {
                let w1 = share(width, ratio);
                layouts_of(*first, x, y, w1, height) + layouts_of(
                    *second,
                    (x + w1) as u32,
                    y,
                    (width - w1) as u32,
                    height,
                )
            },
            SplitDirection::Vertical => {
                let h1 = share(height, ratio);
                layouts_of(*first, x, y, width, h1) + layouts_of(
                    *second,
                    x,
                    (y + h1) as u32,
                    width,
                    (height - h1) as u32,
                )
            },
        },
    }
}

/// Whether every ratio in the tree is at most a whole (1000 thousandths).
pub open spec fn ratios_ok(n: SplitNode) -> bool
    decreases n,
{
    match n {
        SplitNode::Leaf(_) => true,
        SplitNode::Split { ratio, first, second, .. } => ratio <= 1000 && ratios_ok(*first) && ratios_ok(*second),
    }
}

/// The tree after removing pane `id`: the split holding it as a direct child
/// is replaced by the other child, whose first pane is returned; nothing
/// happens (and nothing is returned) when the tree is that leaf alone or
/// does not hold it.
pub open spec fn removed(n: SplitNode, id: PaneId) -> (SplitNode, Option<PaneId>)
    decreases n,
{
    match n {
        SplitNode::Leaf(_) => (n, None),
        SplitNode::Split { direction, ratio, first, second } => {
            if *first == SplitNode::Leaf(id) {
                (*second, Some(first_of(*second)))
            } else if *second == SplitNode::Leaf(id) {
                (*first, Some(first_of(*first)))
            } else if found(*first, id) is Some {
                let (f, r) = removed(*first, id);
                (SplitNode::Split { direction, ratio, first: Box::new(f), second }, r)
            } else {
                let (s, r) = removed(*second, id);
                (SplitNode::Split { direction, ratio, first, second: Box::new(s) }, r)
            }
        },
    }
}

/// A ratio moved by `delta` thousandths and kept between 100 and 900.
pub open spec fn clamped_ratio(ratio: int, delta: int) -> u32 {
    let r = ratio + delta;
    (if r < MIN_RATIO { MIN_RATIO as int } else if r > MAX_RATIO { MAX_RATIO as int } else { r }) as u32
}

/// The tree after resizing pane `id` by `delta` thousandths: the topmost
/// split with the pane on one side only moves its ratio towards (first
/// side) or away from (second side) the pane's share. Also whether a split
/// was found.
pub open spec fn resized(n: SplitNode, id: PaneId, delta: int) -> (SplitNode, bool)
    decreases n,
{
    match n {
        SplitNode::Leaf(_) => (n, false),
        SplitNode::Split { direction, ratio, first, second } => {
            let in_first = found(*first, id) is Some;
            let in_second = found(*second, id) is Some;
            if in_first && !in_second {
                (SplitNode::Split { direction, ratio: clamped_ratio(ratio as int, delta), first, second }, true)
            } else if in_second && !in_first {
                (SplitNode::Split { direction, ratio: clamped_ratio(ratio as int, -delta), first, second }, true)
            } else if in_first {
                let (f, ok) = resized(*first, id, delta);
                (SplitNode::Split { direction, ratio, first: Box::new(f), second }, ok)
            } else if in_second {
                let (s, ok) = resized(*second, id, delta);
                (SplitNode::Split { direction, ratio, first, second: Box::new(s) }, ok)
            } else {
                (n, false)
            }
        },
    }
}

/// The tree after splitting the leaf of pane `target` (the one `found`
/// finds): the new pane goes after it (or before it) in an even split.
pub open spec fn split_leaf(n: SplitNode, target: PaneId, direction: SplitDirection, new_pane: PaneId, after: bool) -> SplitNode
    decreases n,
{
    match n {
        SplitNode::Leaf(l) => if l == target {
            split_node(n, direction, new_pane, after)
        } else {
            n
        },
        SplitNode::Split { direction: d, ratio, first, second } => if found(*first, target) is Some {
            SplitNode::Split {
                direction: d,
                ratio,
                first: Box::new(split_leaf(*first, target, direction, new_pane, after)),
                second,
            }
        } else {
            SplitNode::Split {
                direction: d,
                ratio,
                first,
                second: Box::new(split_leaf(*second, target, direction, new_pane, after)),
            }
        },
    }
}

/// A node split in two, the old node on one side and the new pane on the other.
pub open spec fn split_node(n: SplitNode, direction: SplitDirection, new_pane: PaneId, after: bool) -> SplitNode {
    if after {
        SplitNode::Split {
            direction,
            ratio: EVEN_RATIO,
            first: Box::new(n),
            second: Box::new(SplitNode::Leaf(new_pane)),
        }
    } else {
        SplitNode::Split {
            direction,
            ratio: EVEN_RATIO,
            first: Box::new(SplitNode::Leaf(new_pane)),
            second: Box::new(n),
        }
    }
}

/// Whether every layout's right and bottom edges fit in a `u32`.
pub open spec fn layouts_fit(layouts: Seq<PaneLayout>) -> bool {
    forall|i: int|
        0 <= i < layouts.len() ==> #[trigger] layouts[i].x + layouts[i].width <= u32::MAX && layouts[i].y
            + layouts[i].height <= u32::MAX
}

/// The first layout of pane `id`.
pub open spec fn layout_with_id(layouts: Seq<PaneLayout>, id: PaneId, from: int) -> Option<PaneLayout>
    decreases layouts.len() - from,
{
    if from < 0 || from >= layouts.len() {
        None
    } else if layouts[from].id == id {
        Some(layouts[from])
    } else {
        layout_with_id(layouts, id, from + 1)
    }
}

/// Whether layout `l` lies entirely in `direction` from `from`.
pub open spec fn lies_towards(l: PaneLayout, from: PaneLayout, direction: Direction) -> bool {
    match direction {
        Direction::Up => l.y + l.height <= from.y,
        Direction::Down => l.y >= from.y + from.height,
        Direction::Left => l.x + l.width <= from.x,
        Direction::Right => l.x >= from.x + from.width,
    }
}

/// How much two spans `a..a+la` and `b..b+lb` overlap.
pub open spec fn span_overlap(a: int, la: int, b: int, lb: int) -> int {
    let start = if a >= b { a } else { b };
    let end = if a + la <= b + lb { a + la } else { b + lb };
    if end >= start { end - start } else { 0 }
}

/// How much layout `l` overlaps `from` across `direction` (horizontally for
/// up and down, vertically for left and right).
pub open spec fn overlap(l: PaneLayout, from: PaneLayout, direction: Direction) -> int {
    match direction {
        Direction::Up | Direction::Down => span_overlap(l.x as int, l.width as int, from.x as int, from.width as int),
        Direction::Left | Direction::Right => span_overlap(l.y as int, l.height as int, from.y as int, from.height as int),
    }
}

/// Among the first `upto` layouts, the candidate neighbor of `from` in
/// `direction` with the largest overlap (the last of equal ones).
pub open spec fn best_neighbor(layouts: Seq<PaneLayout>, from: PaneLayout, direction: Direction, upto: int) -> Option<
    PaneLayout,
>
    decreases upto,
{
    if upto <= 0 {
        None
    } else {
        let prev = best_neighbor(layouts, from, direction, upto - 1);
        let l = layouts[upto - 1];
        if l.id != from.id && lies_towards(l, from, direction) {
            match prev {
                None => Some(l),
                Some(p) => if overlap(l, from, direction) >= overlap(p, from, direction) {
                    Some(l)
                } else {
                    prev
                },
            }
        } else {
            prev
        }
    }
}

/// The pane that focus moves to from pane `from` in `direction`: the pane
/// entirely on that side that overlaps it most.
pub open spec fn neighbor_of(layouts: Seq<PaneLayout>, from: PaneId, direction: Direction) -> Option<PaneId> {
    match layout_with_id(layouts, from, 0) {
        None => None,
        Some(f) => match best_neighbor(layouts, f, direction, layouts.len() as int) {
            Some(l) => Some(l.id),
            None => None,
        },
    }
}

fn overlap_of(l: &PaneLayout, from: &PaneLayout, direction: Direction) -> (r: u32)
    requires
        l.x + l.width <= u32::MAX,
        l.y + l.height <= u32::MAX,
        from.x + from.width <= u32::MAX,
        from.y + from.height <= u32::MAX,
    ensures
        r == overlap(*l, *from, direction),
{
    let (a, la, b, lb) = match direction {
        Direction::Up | Direction::Down => (l.x, l.width, from.x, from.width),
        Direction::Left | Direction::Right => (l.y, l.height, from.y, from.height),
    };
    let start = if a >= b { a } else { b };
    let end = if a + la <= b + lb { a + la } else { b + lb };
    if end >= start { end - start } else { 0 }
}

impl SplitNode {
    /// Create a new leaf node
    pub fn leaf(id: PaneId) -> (r: Self)
        ensures
            r == SplitNode::Leaf(id),
    {
        SplitNode::Leaf(id)
    }

    /// Split this node, putting the new pane after (or before) it
    pub fn split(&mut self, direction: SplitDirection, new_pane: PaneId, after: bool)
        ensures
            *final(self) == split_node(*old(self), direction, new_pane, after),
    {
        let mut old = SplitNode::Leaf(new_pane);
        std::mem::swap(self, &mut old);
        let (first, second) = if after {
            (Box::new(old), Box::new(SplitNode::Leaf(new_pane)))
        } else {
            (Box::new(SplitNode::Leaf(new_pane)), Box::new(old))
        };
        *self = SplitNode::Split { direction, ratio: EVEN_RATIO, first, second };
    }

    /// Split the leaf of pane `target`; whether the tree holds it.
    pub fn split_pane(&mut self, target: PaneId, direction: SplitDirection, new_pane: PaneId, after: bool) -> (r: bool)
        ensures
            r == (found(*old(self), target) is Some),
            *final(self) == split_leaf(*old(self), target, direction, new_pane, after),
        decreases *old(self),
    {
        match self {
            SplitNode::Leaf(l) => {
                if *l == target {
                    self.split(direction, new_pane, after);
                    true
                } else {
                    false
                }
            },
            SplitNode::Split { first, second, .. } => {
                if first.find(target).is_some() {
                    first.split_pane(target, direction, new_pane, after)
                } else {
                    second.split_pane(target, direction, new_pane, after)
                }
            },
        }
    }

    /// Find a node by pane ID
    pub fn find(&self, id: PaneId) -> (r: Option<&SplitNode>)
        ensures
            match r {
                Some(n) => found(*self, id) == Some(*n),
                None => found(*self, id) is None,
            },
        decreases *self,
    {
        match self {
            SplitNode::Leaf(leaf_id) => {
                if *leaf_id == id {
                    Some(self)
                } else {
                    None
                }
            },
            SplitNode::Split { first, second, .. } => {
                match first.find(id) {
                    Some(n) => Some(n),
                    None => second.find(id),
                }
            },
        }
    }

    /// Remove a pane from the tree, returning the sibling that takes its space
    pub fn remove(&mut self, id: PaneId) -> (r: Option<PaneId>)
        ensures
            (*final(self), r) == removed(*old(self), id),
        decreases *old(self),
    {
        let mut node = SplitNode::Leaf(PaneId(0));
        std::mem::swap(self, &mut node);
        match node {
            SplitNode::Leaf(l) => {
                *self = SplitNode::Leaf(l);
                None
            },
            SplitNode::Split { direction, ratio, first, second } => {
                let first_is = match *first {
                    SplitNode::Leaf(l) => l == id,
                    _ => false,
                };
                if first_is {
                    let sibling = second.first_pane();
                    *self = *second;
                    return sibling;
                }
                let second_is = match *second {
                    SplitNode::Leaf(l) => l == id,
                    _ => false,
                };
                if second_is {
                    let sibling = first.first_pane();
                    *self = *first;
                    return sibling;
                }
                let mut first = first;
                let mut second = second;
                let r = if first.find(id).is_some() {
                    first.remove(id)
                } else {
                    second.remove(id)
                };
                *self = SplitNode::Split { direction, ratio, first, second };
                r
            },
        }
    }

    /// Get the first pane in this subtree (a tree always has one)
    pub fn first_pane(&self) -> (r: Option<PaneId>)
        ensures
            r == Some(first_of(*self)),
        decreases *self,
    {
        match self {
            SplitNode::Leaf(id) => Some(*id),
            SplitNode::Split { first, .. } => first.first_pane(),
        }
    }

    /// Get all pane IDs in this subtree
    pub fn all_panes(&self) -> (r: Vec<PaneId>)
        ensures
            r@ == panes_of(*self),
        decreases *self,
    {
        match self {
            SplitNode::Leaf(id) => vec![*id],
            SplitNode::Split { first, second, .. } => {
                let mut panes = first.all_panes();
                let mut rest = second.all_panes();
                panes.append(&mut rest);
                panes
            },
        }
    }

    /// Calculate layouts for all panes given the available space
    pub fn layout(&self, x: u32, y: u32, width: u32, height: u32) -> (r: Vec<PaneLayout>)
        requires
            ratios_ok(*self),
            x + width <= u32::MAX,
            y + height <= u32::MAX,
        ensures
            r@ == layouts_of(*self, x, y, width, height),
        decreases *self,
    {
        match self {
            SplitNode::Leaf(id) => vec![PaneLayout { id: *id, x, y, width, height }],
            SplitNode::Split { direction, ratio, first, second } => {
                match direction {
                    SplitDirection::Horizontal => {
                        let size64 = width as u64;
                        let ratio64 = *ratio as u64;
                        assert(size64 * ratio64 <= 0xffff_ffffu64 * 1000) by (nonlinear_arith)
                            requires
                                size64 <= 0xffff_ffffu64,
                                ratio64 <= 1000,
                        {
                        }
                        let prod = size64 * ratio64;
                        assert(prod / 1000 <= size64) by (nonlinear_arith)
                            requires
                                prod == size64 * ratio64,
                                ratio64 <= 1000,
                        {
                        }
                        let first_width = (prod / 1000) as u32;
                        assert(first_width == share(width, *ratio));
                        let second_width = width - first_width;
                        let mut layouts = first.layout(x, y, first_width, height);
                        let mut rest = second.layout(x + first_width, y, second_width, height);
                        layouts.append(&mut rest);
                        layouts
                    },
                    SplitDirection::Vertical => {
                        let size64 = height as u64;
                        let ratio64 = *ratio as u64;
                        assert(size64 * ratio64 <= 0xffff_ffffu64 * 1000) by (nonlinear_arith)
                            requires
                                size64 <= 0xffff_ffffu64,
                                ratio64 <= 1000,
                        {
                        }
                        let prod = size64 * ratio64;
                        assert(prod / 1000 <= size64) by (nonlinear_arith)
                            requires
                                prod == size64 * ratio64,
                                ratio64 <= 1000,
                        {
                        }
                        let first_height = (prod / 1000) as u32;
                        assert(first_height == share(height, *ratio));
                        let second_height = height - first_height;
                        let mut layouts = first.layout(x, y, width, first_height);
                        let mut rest = second.layout(x, y + first_height, width, second_height);
                        layouts.append(&mut rest);
                        layouts
                    },
                }
            },
        }
    }

    /// Find the neighbor pane in a direction
    pub fn find_neighbor(&self, from: PaneId, direction: Direction, layouts: &Vec<PaneLayout>) -> (r: Option<PaneId>)
        requires
            layouts_fit(layouts@),
        ensures
            r == neighbor_of(layouts@, from, direction),
    {
        // Find the layout of the current pane
        let mut i: usize = 0;
        while i < layouts.len() && layouts[i].id != from
            invariant
                i <= layouts@.len(),
                layout_with_id(layouts@, from, 0) == layout_with_id(layouts@, from, i as int),
            decreases layouts@.len() - i,
        {
            i += 1;
        }
        if i >= layouts.len() {
            return None;
        }
        let from_layout = layouts[i];
        assert(layouts@[i as int].x + layouts@[i as int].width <= u32::MAX);
        // The candidate with the most overlap; the last one of equal overlap wins
        let mut best: Option<PaneLayout> = None;
        let mut best_overlap: u32 = 0;
        let mut j: usize = 0;
        while j < layouts.len()
            invariant
                j <= layouts@.len(),
                layouts_fit(layouts@),
                from_layout.x + from_layout.width <= u32::MAX,
                from_layout.y + from_layout.height <= u32::MAX,
                best == best_neighbor(layouts@, from_layout, direction, j as int),
                best matches Some(b) ==> best_overlap == overlap(b, from_layout, direction),
            decreases layouts@.len() - j,
        {
            let l = layouts[j];
            assert(layouts@[j as int].x + layouts@[j as int].width <= u32::MAX);
            let towards = match direction {
                Direction::Up => l.y + l.height <= from_layout.y,
                Direction::Down => l.y >= from_layout.y + from_layout.height,
                Direction::Left => l.x + l.width <= from_layout.x,
                Direction::Right => l.x >= from_layout.x + from_layout.width,
            };
            if l.id != from_layout.id && towards {
                let ov = overlap_of(&l, &from_layout, direction);
                match best {
                    None => {
                        best = Some(l);
                        best_overlap = ov;
                    },
                    Some(_) => {
                        if ov >= best_overlap {
                            best = Some(l);
                            best_overlap = ov;
                        }
                    },
                }
            }
            j += 1;
        }
        match best {
            Some(b) => Some(b.id),
            None => None,
        }
    }

    /// Resize the pane with the given ID by `delta` thousandths of its parent
    pub fn resize_pane(&mut self, id: PaneId, delta: i32) -> (r: bool)
        ensures
            (*final(self), r) == resized(*old(self), id, delta as int),
        decreases *old(self),
    {
        match self {
            SplitNode::Leaf(_) => false,
            SplitNode::Split { ratio, first, second, .. } => {
                let in_first = first.find(id).is_some();
                let in_second = second.find(id).is_some();
                if in_first && !in_second {
                    *ratio = Self::clamp_ratio(*ratio as i64 + delta as i64);
                    true
                } else if in_second && !in_first {
                    *ratio = Self::clamp_ratio(*ratio as i64 - delta as i64);
                    true
                } else if in_first {
                    first.resize_pane(id, delta)
                } else if in_second {
                    second.resize_pane(id, delta)
                } else {
                    false
                }
            },
        }
    }

    fn clamp_ratio(r: i64) -> (c: u32)
        ensures
            c == (if r < MIN_RATIO { MIN_RATIO as int } else if r > MAX_RATIO { MAX_RATIO as int } else { r as int }),
    {
        if r < MIN_RATIO as i64 {
            MIN_RATIO
        } else if r > MAX_RATIO as i64 {
            MAX_RATIO
        } else {
            r as u32
        }
    }
}

/// Splitting a pane keeps every ratio within a whole.
pub proof fn lemma_split_keeps_ratios(n: SplitNode, target: PaneId, direction: SplitDirection, new_pane: PaneId, after: bool)
    requires
        ratios_ok(n),
    ensures
        ratios_ok(split_leaf(n, target, direction, new_pane, after)),
    decreases n,
{
    match n {
        SplitNode::Leaf(_) => {
            assert(ratios_ok(SplitNode::Leaf(new_pane)));
            assert(ratios_ok(n));
        },
        SplitNode::Split { first, second, .. } => {
            lemma_split_keeps_ratios(*first, target, direction, new_pane, after);
            lemma_split_keeps_ratios(*second, target, direction, new_pane, after);
        },
    }
}

/// Removing a pane keeps every ratio within a whole.
pub proof fn lemma_remove_keeps_ratios(n: SplitNode, id: PaneId)
    requires
        ratios_ok(n),
    ensures
        ratios_ok(removed(n, id).0),
    decreases n,
{
    match n {
        SplitNode::Leaf(_) => {},
        SplitNode::Split { first, second, .. } => {
            lemma_remove_keeps_ratios(*first, id);
            lemma_remove_keeps_ratios(*second, id);
        },
    }
}

/// Resizing a pane keeps every ratio within a whole.
pub proof fn lemma_resize_keeps_ratios(n: SplitNode, id: PaneId, delta: int)
    requires
        ratios_ok(n),
    ensures
        ratios_ok(resized(n, id, delta).0),
    decreases n,
{
    match n {
        SplitNode::Leaf(_) => {},
        SplitNode::Split { first, second, .. } => {
            lemma_resize_keeps_ratios(*first, id, delta);
            lemma_resize_keeps_ratios(*second, id, delta);
        },
    }
}

/// The layout of a tree gives each of its panes, in order, exactly one
/// rectangle, and every rectangle lies inside the area laid out.
pub proof fn lemma_layout_tiles(n: SplitNode, x: u32, y: u32, width: u32, height: u32)
    requires
        ratios_ok(n),
        x + width <= u32::MAX,
        y + height <= u32::MAX,
    ensures
        layouts_of(n, x, y, width, height).map_values(|l: PaneLayout| l.id) == panes_of(n),
        forall|i: int|
            0 <= i < layouts_of(n, x, y, width, height).len() ==> {
                let l = #[trigger] layouts_of(n, x, y, width, height)[i];
                &&& x <= l.x
                &&& l.x + l.width <= x + width
                &&& y <= l.y
                &&& l.y + l.height <= y + height
            },
    decreases n,
{
    match n {
        SplitNode::Leaf(_) => {},
        SplitNode::Split { direction, ratio, first, second } => {
            match direction {
                SplitDirection::Horizontal => {
                    let w1 = share(width, ratio);
                    assert(w1 <= width) by (nonlinear_arith)
                        requires
                            w1 == ((width as int * ratio as int) / 1000) as u32,
                            ratio <= 1000,
                    {
                        assert(width as int * ratio as int <= width as int * 1000);
                    }
                    lemma_layout_tiles(*first, x, y, w1, height);
                    lemma_layout_tiles(*second, (x + w1) as u32, y, (width - w1) as u32, height);
                    let a = layouts_of(*first, x, y, w1, height);
                    let b = layouts_of(*second, (x + w1) as u32, y, (width - w1) as u32, height);
                    assert((a + b).map_values(|l: PaneLayout| l.id) =~= a.map_values(|l: PaneLayout| l.id)
                        + b.map_values(|l: PaneLayout| l.id));
                    assert forall|i: int| 0 <= i < (a + b).len() implies {
                        let l = #[trigger] (a + b)[i];
                        &&& x <= l.x
                        &&& l.x + l.width <= x + width
                        &&& y <= l.y
                        &&& l.y + l.height <= y + height
                    } by {
                        if i < a.len() {
                            assert((a + b)[i] == a[i]);
                        } else {
                            assert((a + b)[i] == b[i - a.len()]);
                        }
                    }
                },
                SplitDirection::Vertical => {
                    let h1 = share(height, ratio);
                    assert(h1 <= height) by (nonlinear_arith)
                        requires
                            h1 == ((height as int * ratio as int) / 1000) as u32,
                            ratio <= 1000,
                    {
                        assert(height as int * ratio as int <= height as int * 1000);
                    }
                    lemma_layout_tiles(*first, x, y, width, h1);
                    lemma_layout_tiles(*second, x, (y + h1) as u32, width, (height - h1) as u32);
                    let a = layouts_of(*first, x, y, width, h1);
                    let b = layouts_of(*second, x, (y + h1) as u32, width, (height - h1) as u32);
                    assert((a + b).map_values(|l: PaneLayout| l.id) =~= a.map_values(|l: PaneLayout| l.id)
                        + b.map_values(|l: PaneLayout| l.id));
                    assert forall|i: int| 0 <= i < (a + b).len() implies {
                        let l = #[trigger] (a + b)[i];
                        &&& x <= l.x
                        &&& l.x + l.width <= x + width
                        &&& y <= l.y
                        &&& l.y + l.height <= y + height
                    } by {
                        if i < a.len() {
                            assert((a + b)[i] == a[i]);
                        } else {
                            assert((a + b)[i] == b[i - a.len()]);
                        }
                    }
                },
            }
        },
    }
}

/// Whether splitting the leaf of `target` puts the new pane next to
/// position `i` of the panes, where `target` is.
pub open spec fn inserted_at(n: SplitNode, target: PaneId, direction: SplitDirection, new_pane: PaneId, after: bool, i: int) -> bool {
    &&& 0 <= i < panes_of(n).len()
    &&& panes_of(n)[i] == target
    &&& panes_of(split_leaf(n, target, direction, new_pane, after)) == panes_of(n).insert(
        if after { i + 1 } else { i },
        new_pane,
    )
}

/// Splitting the leaf of a pane puts the new pane right after it (or right
/// before it) among the panes, and changes nothing else.
#[verifier::rlimit(60)]
pub proof fn lemma_split_adds_pane(n: SplitNode, target: PaneId, direction: SplitDirection, new_pane: PaneId, after: bool)
    ensures
        found(n, target) is None ==> panes_of(split_leaf(n, target, direction, new_pane, after)) == panes_of(n),
        found(n, target) is Some ==> exists|i: int| #[trigger]
            inserted_at(n, target, direction, new_pane, after, i),
    decreases n,
{
    match n {
        SplitNode::Leaf(l) => {
            if l == target {
                let i = 0int;
                assert(panes_of(SplitNode::Leaf(new_pane)) == seq![new_pane]);
                assert(panes_of(n) == seq![l]);
                assert(panes_of(n)[i] == target);
                assert(panes_of(split_leaf(n, target, direction, new_pane, after)) =~= panes_of(n).insert(
                    if after { i + 1 } else { i },
                    new_pane,
                ));
                assert(inserted_at(n, target, direction, new_pane, after, i));
            }
        },
        SplitNode::Split { direction: d, ratio, first, second } => {
            lemma_split_adds_pane(*first, target, direction, new_pane, after);
            lemma_split_adds_pane(*second, target, direction, new_pane, after);
            let pf = panes_of(*first);
            let ps = panes_of(*second);
            if found(*first, target) is Some {
                let i = choose|i: int| #[trigger] inserted_at(*first, target, direction, new_pane, after, i);
                assert(panes_of(split_leaf(n, target, direction, new_pane, after)) =~= (pf + ps).insert(
                    if after { i + 1 } else { i },
                    new_pane,
                ));
                assert((pf + ps)[i] == target);
                assert(inserted_at(n, target, direction, new_pane, after, i));
            } else if found(*second, target) is Some {
                let i = choose|i: int| #[trigger] inserted_at(*second, target, direction, new_pane, after, i);
                let j = pf.len() + i;
                assert(panes_of(split_leaf(n, target, direction, new_pane, after)) =~= (pf + ps).insert(
                    if after { j + 1 } else { j },
                    new_pane,
                ));
                assert((pf + ps)[j] == target);
                assert(inserted_at(n, target, direction, new_pane, after, j));
            }
        },
    }
}


/// A pane's leaf is found exactly when the tree holds the pane.
proof fn lemma_found_iff_holds(n: SplitNode, id: PaneId)
    ensures
        found(n, id) is Some <==> holds(n, id),
    decreases n,
{
    match n {
        SplitNode::Leaf(_) => {},
        SplitNode::Split { first, second, .. } => {
            lemma_found_iff_holds(*first, id);
            lemma_found_iff_holds(*second, id);
        },
    }
}

/// Splitting a pane the tree holds leaves a split that holds the new pane.
proof fn lemma_split_leaf_holds_new(n: SplitNode, target: PaneId, direction: SplitDirection, new_pane: PaneId, after: bool)
    requires
        found(n, target) is Some,
    ensures
        split_leaf(n, target, direction, new_pane, after) is Split,
        holds(split_leaf(n, target, direction, new_pane, after), new_pane),
    decreases n,
{
    match n {
        SplitNode::Leaf(_) => {
            assert(holds(SplitNode::Leaf(new_pane), new_pane));
        },
        SplitNode::Split { first, second, .. } => {
            if found(*first, target) is Some {
                lemma_split_leaf_holds_new(*first, target, direction, new_pane, after);
            } else {
                lemma_split_leaf_holds_new(*second, target, direction, new_pane, after);
            }
        },
    }
}

/// Removing the pane that a split has just added gives back the tree as it
/// was before the split.
pub proof fn lemma_remove_undoes_split(n: SplitNode, target: PaneId, direction: SplitDirection, new_pane: PaneId, after: bool)
    requires
        holds(n, target),
        !holds(n, new_pane),
    ensures
        removed(split_leaf(n, target, direction, new_pane, after), new_pane).0 == n,
    decreases n,
{
    lemma_found_iff_holds(n, target);
    match n {
        SplitNode::Leaf(_) => {
            assert(holds(SplitNode::Leaf(new_pane), new_pane));
        },
        SplitNode::Split { first, second, .. } => {
            lemma_found_iff_holds(*first, target);
            lemma_found_iff_holds(*first, new_pane);
            assert(holds(SplitNode::Leaf(new_pane), new_pane));
            if found(*first, target) is Some {
                let f = split_leaf(*first, target, direction, new_pane, after);
                lemma_split_leaf_holds_new(*first, target, direction, new_pane, after);
                lemma_found_iff_holds(f, new_pane);
                lemma_remove_undoes_split(*first, target, direction, new_pane, after);
                assert(*second != SplitNode::Leaf(new_pane));
            } else {
                lemma_found_iff_holds(*second, target);
                lemma_split_leaf_holds_new(*second, target, direction, new_pane, after);
                lemma_remove_undoes_split(*second, target, direction, new_pane, after);
                assert(*first != SplitNode::Leaf(new_pane));
            }
        },
    }
}

/// The best neighbor among the first `upto` layouts exists exactly when one
/// of them is another pane lying that way, is such a pane, and overlaps at
/// least as much as any other such pane.
proof fn lemma_best_neighbor(layouts: Seq<PaneLayout>, f: PaneLayout, d: Direction, upto: int)
    requires
        0 <= upto <= layouts.len(),
    ensures
        best_neighbor(layouts, f, d, upto) is Some <==> exists|k: int|
            0 <= k < upto && (#[trigger] layouts[k]).id != f.id && lies_towards(layouts[k], f, d),
        match best_neighbor(layouts, f, d, upto) {
            Some(l) => {
                &&& exists|k: int| 0 <= k < upto && #[trigger] layouts[k] == l
                &&& l.id != f.id
                &&& lies_towards(l, f, d)
                &&& forall|j: int|
                    0 <= j < upto && (#[trigger] layouts[j]).id != f.id && lies_towards(layouts[j], f, d) ==> overlap(
                        layouts[j],
                        f,
                        d,
                    ) <= overlap(l, f, d)
            },
            None => true,
        },
    decreases upto,
{
    if upto > 0 {
        lemma_best_neighbor(layouts, f, d, upto - 1);
        let l = layouts[upto - 1];
        let prev = best_neighbor(layouts, f, d, upto - 1);
        if l.id != f.id && lies_towards(l, f, d) {
            match prev {
                None => {},
                Some(p) => {
                    let k = choose|k: int| 0 <= k < upto - 1 && #[trigger] layouts[k] == p;
                    assert(layouts[k] == p);
                },
            }
        } else {
            match prev {
                None => {},
                Some(p) => {
                    let k = choose|k: int| 0 <= k < upto - 1 && #[trigger] layouts[k] == p;
                    assert(layouts[k] == p);
                },
            }
        }
    }
}

/// Focus moves from a pane to another pane lying entirely on that side of
/// it (panes whose edges touch count): above it when its bottom edge is at
/// or above the pane's top edge, below when its top edge is at or below the
/// pane's bottom edge, and left or right likewise. There is such a move
/// whenever such a pane exists, and it goes to one that overlaps the pane
/// at least as much as any other.
pub proof fn lemma_neighbor_lies_beyond(layouts: Seq<PaneLayout>, from: PaneId, d: Direction)
    ensures
        match layout_with_id(layouts, from, 0) {
            None => neighbor_of(layouts, from, d) is None,
            Some(f) => {
                &&& (neighbor_of(layouts, from, d) is Some <==> exists|k: int|
                    0 <= k < layouts.len() && (#[trigger] layouts[k]).id != from && match d {
                        Direction::Up => layouts[k].y + layouts[k].height <= f.y,
                        Direction::Down => layouts[k].y >= f.y + f.height,
                        Direction::Left => layouts[k].x + layouts[k].width <= f.x,
                        Direction::Right => layouts[k].x >= f.x + f.width,
                    })
                &&& match neighbor_of(layouts, from, d) {
                    Some(n) => exists|k: int|
                        0 <= k < layouts.len() && (#[trigger] layouts[k]).id == n && n != from && match d {
                            Direction::Up => layouts[k].y + layouts[k].height <= f.y,
                            Direction::Down => layouts[k].y >= f.y + f.height,
                            Direction::Left => layouts[k].x + layouts[k].width <= f.x,
                            Direction::Right => layouts[k].x >= f.x + f.width,
                        } && forall|j: int|
                            0 <= j < layouts.len() && (#[trigger] layouts[j]).id != from && match d {
                                Direction::Up => layouts[j].y + layouts[j].height <= f.y,
                                Direction::Down => layouts[j].y >= f.y + f.height,
                                Direction::Left => layouts[j].x + layouts[j].width <= f.x,
                                Direction::Right => layouts[j].x >= f.x + f.width,
                            } ==> overlap(layouts[j], f, d) <= overlap(layouts[k], f, d),
                    None => true,
                }
            },
        },
{
    match layout_with_id(layouts, from, 0) {
        None => {},
        Some(f) => {
            lemma_layout_with_id_found(layouts, from, 0);
            lemma_best_neighbor(layouts, f, d, layouts.len() as int);
            match best_neighbor(layouts, f, d, layouts.len() as int) {
                Some(l) => {
                    let k = choose|k: int| 0 <= k < layouts.len() && #[trigger] layouts[k] == l;
                    assert(layouts[k] == l);
                },
                None => {},
            }
        },
    }
}

/// The layout found for an id is one of the layouts, with that id; with
/// distinct ids, any layout with that id is the one found.
proof fn lemma_layout_with_id_found(layouts: Seq<PaneLayout>, id: PaneId, from: int)
    requires
        0 <= from,
    ensures
        match layout_with_id(layouts, id, from) {
            Some(l) => l.id == id && exists|i: int| from <= i < layouts.len() && #[trigger] layouts[i] == l,
            None => forall|i: int| from <= i < layouts.len() ==> (#[trigger] layouts[i]).id != id,
        },
    decreases layouts.len() - from,
{
    if from < layouts.len() {
        if layouts[from].id != id {
            lemma_layout_with_id_found(layouts, id, from + 1);
        } else {
            assert(layouts[from] == layouts[from]);
        }
    }
}

/// The opposite direction.
pub open spec fn opposite(d: Direction) -> Direction {
    match d {
        Direction::Up => Direction::Down,
        Direction::Down => Direction::Up,
        Direction::Left => Direction::Right,
        Direction::Right => Direction::Left,
    }
}

/// Moving focus is symmetric: when pane `a` is the neighbor of pane `b` in
/// a direction, `a` has a neighbor in the opposite direction (`b` lies
/// there), for layouts whose panes have distinct ids.
pub proof fn lemma_neighbor_symmetric(layouts: Seq<PaneLayout>, b: PaneId, d: Direction)
    requires
        forall|i: int, j: int| 0 <= i < j < layouts.len() ==> (#[trigger] layouts[i]).id != (#[trigger] layouts[j]).id,
    ensures
        match neighbor_of(layouts, b, d) {
            Some(a) => neighbor_of(layouts, a, opposite(d)) is Some,
            None => true,
        },
{
    lemma_neighbor_lies_beyond(layouts, b, d);
    lemma_layout_with_id_found(layouts, b, 0);
    match layout_with_id(layouts, b, 0) {
        None => {},
        Some(fb) => match neighbor_of(layouts, b, d) {
            None => {},
            Some(a) => {
                let ib = choose|i: int| 0 <= i < layouts.len() && #[trigger] layouts[i] == fb;
                let k = choose|k: int|
                    0 <= k < layouts.len() && (#[trigger] layouts[k]).id == a && a != b && match d {
                        Direction::Up => layouts[k].y + layouts[k].height <= fb.y,
                        Direction::Down => layouts[k].y >= fb.y + fb.height,
                        Direction::Left => layouts[k].x + layouts[k].width <= fb.x,
                        Direction::Right => layouts[k].x >= fb.x + fb.width,
                    } && forall|j: int|
                        0 <= j < layouts.len() && (#[trigger] layouts[j]).id != b && match d {
                            Direction::Up => layouts[j].y + layouts[j].height <= fb.y,
                            Direction::Down => layouts[j].y >= fb.y + fb.height,
                            Direction::Left => layouts[j].x + layouts[j].width <= fb.x,
                            Direction::Right => layouts[j].x >= fb.x + fb.width,
                        } ==> overlap(layouts[j], fb, d) <= overlap(layouts[k], fb, d);
                lemma_layout_with_id_found(layouts, a, 0);
                match layout_with_id(layouts, a, 0) {
                    None => {
                        assert(layouts[k].id == a);
                    },
                    Some(fa) => {
                        let ia = choose|i: int| 0 <= i < layouts.len() && #[trigger] layouts[i] == fa;
                        if ia != k {
                            assert(layouts[ia].id == layouts[k].id);
                            if ia < k {
                                assert(layouts[ia].id != layouts[k].id);
                            } else {
                                assert(layouts[k].id != layouts[ia].id);
                            }
                        }
                        assert(fa == layouts[k]);
                        lemma_neighbor_lies_beyond(layouts, a, opposite(d));
                        assert(layouts[ib].id != a);
                    },
                }
            },
        },
    }
}

} // verus!
