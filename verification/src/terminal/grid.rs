use vstd::prelude::*;
use super::cell::{Cell, CellView, blank_cell};
use std::collections::VecDeque;

verus! {

/// Mathematical model of a line.
pub struct LineView {
    pub cells: Seq<CellView>,
    pub wrapped: bool,
}

/// A line of `cols` blank cells, not wrapped.
pub open spec fn blank_line(cols: nat) -> LineView {
    LineView { cells: Seq::new(cols, |i: int| blank_cell()), wrapped: false }
}

/// `n` blank lines of `cols` cells each.
pub open spec fn blank_lines(n: nat, cols: nat) -> Seq<LineView> {
    Seq::new(n, |i: int| blank_line(cols))
}

/// The cells of `cells` with the positions in `lo..hi` reset to blank.
pub open spec fn blank_range(cells: Seq<CellView>, lo: int, hi: int) -> Seq<CellView> {
    Seq::new(cells.len(), |i: int| if lo <= i < hi { blank_cell() } else { cells[i] })
}

/// A line resized to `cols`: truncated, or padded with blank cells.
pub open spec fn resized_line(l: LineView, cols: nat) -> LineView {
    LineView {
        cells: Seq::new(cols, |i: int| if i < l.cells.len() { l.cells[i] } else { blank_cell() }),
        wrapped: l.wrapped,
    }
}

/// The models of a sequence of cells.
pub open spec fn cells_view(s: Seq<Cell>) -> Seq<CellView> {
    s.map_values(|c: Cell| c@)
}

proof fn lemma_update_view(s: Seq<Cell>, i: int)
    requires
        0 <= i < s.len(),
    ensures
        forall|v: Cell| #[trigger] cells_view(s.update(i, v)) == cells_view(s).update(i, v@),
{
    assert forall|v: Cell| #[trigger] cells_view(s.update(i, v)) == cells_view(s).update(i, v@) by {
        assert(cells_view(s.update(i, v)) =~= cells_view(s).update(i, v@));
    }
}

/// `cells` with `n` blank cells inserted at `col` (at most up to the end of
/// the line); the cells pushed past the end are lost.
pub open spec fn cells_inserted(cells: Seq<CellView>, col: int, n: int) -> Seq<CellView> {
    let k = if n < cells.len() - col { n } else { cells.len() - col };
    Seq::new(
        cells.len(),
        |j: int|
            if j < col {
                cells[j]
            } else if j < col + k {
                blank_cell()
            } else {
                cells[j - k]
            },
    )
}

/// `cells` with `n` cells deleted at `col` (at most up to the end of the
/// line); blank cells fill in at the end.
pub open spec fn cells_deleted(cells: Seq<CellView>, col: int, n: int) -> Seq<CellView> {
    let k = if n < cells.len() - col { n } else { cells.len() - col };
    Seq::new(
        cells.len(),
        |j: int|
            if j < col {
                cells[j]
            } else if j < cells.len() - k {
                cells[j + k]
            } else {
                blank_cell()
            },
    )
}

/// `cells` with every character replaced by `c`, all else kept.
pub open spec fn cells_filled(cells: Seq<CellView>, c: char) -> Seq<CellView> {
    Seq::new(cells.len(), |j: int| CellView { c, ..cells[j] })
}

/// A single line in the terminal
#[derive(Debug)]
pub struct Line {
    cells: Vec<Cell>,
    /// Line is wrapped from previous line
    pub wrapped: bool,
}

impl View for Line {
    type V = LineView;

    closed spec fn view(&self) -> LineView {
        LineView { cells: cells_view(self.cells@), wrapped: self.wrapped }
    }
}

impl Line {
    /// Create a new line with the given number of columns
    pub fn new(cols: usize) -> (r: Self)
        ensures
            r@ == blank_line(cols as nat),
    {
        let mut cells: Vec<Cell> = Vec::new();
        let mut i: usize = 0;
        while i < cols
            invariant
                i <= cols,
                cells@.len() == i,
                forall|j: int| 0 <= j < i ==> #[trigger] cells@[j]@ == blank_cell(),
            decreases cols - i,
        {
            cells.push(Cell::default());
            i += 1;
        }
        let r = Line { cells, wrapped: false };
        assert(r@.cells =~= blank_line(cols as nat).cells);
        r
    }

    /// Get the number of columns
    pub fn len(&self) -> (r: usize)
        ensures
            r == self@.cells.len(),
    {
        self.cells.len()
    }

    /// Resize the line to the given number of columns
    pub fn resize(&mut self, cols: usize)
        ensures
            final(self)@ == resized_line(old(self)@, cols as nat),
    {
        let ghost old_cells = self@.cells;
        if cols <= self.cells.len() {
            self.cells.truncate(cols);
        } else {
            while self.cells.len() < cols
                invariant
                    old_cells.len() <= self.cells@.len() <= cols,
                    self.wrapped == old(self).wrapped,
                    forall|j: int|
                        0 <= j < self.cells@.len() ==> #[trigger] self.cells@[j]@ == (if j
                            < old_cells.len() {
                            old_cells[j]
                        } else {
                            blank_cell()
                        }),
                decreases cols - self.cells@.len(),
            {
                self.cells.push(Cell::default());
            }
        }
        assert(self@.cells =~= resized_line(old(self)@, cols as nat).cells);
    }

    /// Clear the line (reset all cells to default)
    pub fn clear(&mut self)
        ensures
            final(self)@ == blank_line(old(self)@.cells.len()),
    {
        let n = self.cells.len();
        let mut i: usize = 0;
        while i < n
            invariant
                n == self.cells@.len(),
                i <= n,
                forall|j: int| 0 <= j < i ==> #[trigger] self.cells@[j]@ == blank_cell(),
            decreases n - i,
        {
            self.cells[i].reset();
            i += 1;
        }
        self.wrapped = false;
        assert(self@.cells =~= blank_line(n as nat).cells);
    }

    /// Reset the cells with index in `lo..hi` (clamped to the line).
    fn reset_range(&mut self, lo: usize, hi: usize)
        ensures
            final(self)@ == (LineView {
                cells: blank_range(old(self)@.cells, lo as int, hi as int),
                wrapped: old(self)@.wrapped,
            }),
    {
        let ghost old_cells = self@.cells;
        let n = self.cells.len();
        let end = if hi < n { hi } else { n };
        let mut i: usize = lo;
        while i < end
            invariant
                n == self.cells@.len(),
                old_cells.len() == n,
                end <= n,
                end == (if hi < n { hi } else { n }),
                lo <= i,
                lo <= end ==> i <= end,
                lo > end ==> i == lo,
                self.wrapped == old(self).wrapped,
                forall|j: int|
                    0 <= j < n ==> #[trigger] self.cells@[j]@ == (if lo <= j < i {
                        blank_cell()
                    } else {
                        old_cells[j]
                    }),
            decreases end - i,
        {
            self.cells[i].reset();
            i += 1;
        }
        assert forall|j: int| 0 <= j < n implies #[trigger] self@.cells[j] == blank_range(
            old_cells,
            lo as int,
            hi as int,
        )[j] by {
            assert(self@.cells[j] == self.cells@[j]@);
        }
        assert(self@.cells =~= blank_range(old_cells, lo as int, hi as int));
    }

    /// Reset the cells with index in `lo..hi` (clamped to the line).
    pub fn reset_cells(&mut self, lo: usize, hi: usize)
        ensures
            final(self)@ == (LineView {
                cells: blank_range(old(self)@.cells, lo as int, hi as int),
                wrapped: old(self)@.wrapped,
            }),
    {
        self.reset_range(lo, hi);
    }

    /// Clear from column to end of line
    pub fn clear_from(&mut self, col: usize)
        ensures
            final(self)@ == (LineView {
                cells: blank_range(old(self)@.cells, col as int, old(self)@.cells.len() as int),
                wrapped: old(self)@.wrapped,
            }),
    {
        let n = self.cells.len();
        self.reset_range(col, n);
    }

    /// Clear from start of line to column (inclusive)
    pub fn clear_to(&mut self, col: usize)
        ensures
            final(self)@ == (LineView {
                cells: blank_range(old(self)@.cells, 0, col + 1),
                wrapped: old(self)@.wrapped,
            }),
    {
        let n = self.cells.len();
        if col < n {
            self.reset_range(0, col + 1);
        } else {
            self.reset_range(0, n);
            assert(blank_range(old(self)@.cells, 0, n as int) =~= blank_range(
                old(self)@.cells,
                0,
                col + 1,
            ));
        }
    }

    /// The cell at column `col`, if the line has one there.
    pub fn get(&self, col: usize) -> (r: Option<&Cell>)
        ensures
            col < self@.cells.len() ==> r is Some && r->0@ == self@.cells[col as int],
            col >= self@.cells.len() ==> r is None,
    {
        if col < self.cells.len() {
            Some(&self.cells[col])
        } else {
            None
        }
    }

    /// The cell at column `col` for writing, if the line has one there.
    pub fn get_mut(&mut self, col: usize) -> (r: Option<&mut Cell>)
        ensures
            col < old(self)@.cells.len() ==> r is Some && r->0@ == old(self)@.cells[col as int]
                && final(self)@ == (LineView {
                cells: old(self)@.cells.update(col as int, final(r->0)@),
                wrapped: old(self)@.wrapped,
            }),
            col >= old(self)@.cells.len() ==> r is None && final(self)@ == old(self)@,
    {
        if col < self.cells.len() {
            proof {
                lemma_update_view(self.cells@, col as int);
            }
            let r = &mut self.cells[col];
            Some(r)
        } else {
            None
        }
    }

    /// Insert `n` blank cells at `col`, shifting the rest right.
    pub fn insert_blank(&mut self, col: usize, n: usize)
        requires
            col <= old(self)@.cells.len(),
        ensures
            final(self)@ == (LineView { cells: cells_inserted(old(self)@.cells, col as int, n as int), ..old(self)@ }),
    {
        let len = self.cells.len();
        let k = if n < len - col { n } else { len - col };
        let ghost old_cells = self@.cells;
        let mut j = len;
        while j > col + k
            invariant
                col + k <= j <= len,
                len == self.cells@.len(),
                old_cells.len() == len,
                k as int == (if n < len - col { n as int } else { len - col }),
                self.wrapped == old(self).wrapped,
                old_cells == old(self)@.cells,
                forall|i: int|
                    0 <= i < len ==> #[trigger] self.cells@[i]@ == (if i >= j {
                        old_cells[i - k]
                    } else {
                        old_cells[i]
                    }),
            decreases j,
        {
            j -= 1;
            let copy = self.cells[j - k].duplicate();
            self.cells.set(j, copy);
        }
        let mut i = col;
        while i < col + k
            invariant
                col <= i <= col + k,
                col + k <= len,
                len == self.cells@.len(),
                old_cells.len() == len,
                self.wrapped == old(self).wrapped,
                old_cells == old(self)@.cells,
                forall|m: int|
                    0 <= m < len ==> #[trigger] self.cells@[m]@ == (if m < col {
                        old_cells[m]
                    } else if m < i {
                        blank_cell()
                    } else if m < col + k {
                        old_cells[m]
                    } else {
                        old_cells[m - k]
                    }),
            decreases col + k - i,
        {
            self.cells[i].reset();
            i += 1;
        }
        proof {
            assert(self@.cells =~= cells_inserted(old_cells, col as int, n as int));
        }
    }

    /// Delete `n` cells at `col`, shifting the rest left.
    pub fn delete_cells(&mut self, col: usize, n: usize)
        requires
            col <= old(self)@.cells.len(),
        ensures
            final(self)@ == (LineView { cells: cells_deleted(old(self)@.cells, col as int, n as int), ..old(self)@ }),
    {
        let len = self.cells.len();
        let k = if n < len - col { n } else { len - col };
        let ghost old_cells = self@.cells;
        let mut j = col;
        while j < len - k
            invariant
                col <= j <= len - k,
                k <= len - col,
                len == self.cells@.len(),
                old_cells.len() == len,
                self.wrapped == old(self).wrapped,
                old_cells == old(self)@.cells,
                forall|i: int|
                    0 <= i < len ==> #[trigger] self.cells@[i]@ == (if col <= i < j {
                        old_cells[i + k]
                    } else {
                        old_cells[i]
                    }),
            decreases len - k - j,
        {
            let copy = self.cells[j + k].duplicate();
            self.cells.set(j, copy);
            j += 1;
        }
        let mut i = len - k;
        while i < len
            invariant
                len - k <= i <= len,
                k <= len - col,
                len == self.cells@.len(),
                old_cells.len() == len,
                self.wrapped == old(self).wrapped,
                old_cells == old(self)@.cells,
                forall|m: int|
                    0 <= m < len ==> #[trigger] self.cells@[m]@ == (if m < col {
                        old_cells[m]
                    } else if m < len - k {
                        old_cells[m + k]
                    } else if m < i {
                        blank_cell()
                    } else {
                        old_cells[m]
                    }),
            decreases len - i,
        {
            self.cells[i].reset();
            i += 1;
        }
        proof {
            assert(self@.cells =~= cells_deleted(old_cells, col as int, n as int));
        }
    }

    /// Replace the character of every cell with `c`.
    pub fn fill(&mut self, c: char)
        ensures
            final(self)@ == (LineView { cells: cells_filled(old(self)@.cells, c), ..old(self)@ }),
    {
        let len = self.cells.len();
        let ghost old_cells = self@.cells;
        let mut i: usize = 0;
        while i < len
            invariant
                i <= len,
                len == self.cells@.len(),
                old_cells.len() == len,
                self.wrapped == old(self).wrapped,
                old_cells == old(self)@.cells,
                forall|m: int|
                    0 <= m < len ==> #[trigger] self.cells@[m]@ == (if m < i {
                        CellView { c, ..old_cells[m] }
                    } else {
                        old_cells[m]
                    }),
            decreases len - i,
        {
            let ghost before = self.cells@;
            assert(before[i as int]@ == old_cells[i as int]);
            self.cells[i].c = c;
            assert(self.cells@[i as int] == Cell { c, ..before[i as int] });
            assert(forall|m: int| 0 <= m < len && m != i ==> self.cells@[m] == before[m]);
            assert(self.cells@[i as int]@ == CellView { c, ..old_cells[i as int] });
            i += 1;
        }
        proof {
            assert(self@.cells =~= cells_filled(old_cells, c));
        }
    }

    /// Mark whether this line continues the previous one.
    pub fn set_wrapped(&mut self, wrapped: bool)
        ensures
            final(self)@ == (LineView { wrapped, ..old(self)@ }),
    {
        self.wrapped = wrapped;
    }

    /// Whether this line continues the previous one.
    pub fn is_wrapped(&self) -> (r: bool)
        ensures
            r == self@.wrapped,
    {
        self.wrapped
    }

    /// The cells of this line, in order.
    pub fn iter(&self) -> (r: &Vec<Cell>)
        ensures
            cells_view(r@) == self@.cells,
    {
        &self.cells
    }
}

/// The models of a sequence of lines.
pub open spec fn lines_view(s: Seq<Line>) -> Seq<LineView> {
    s.map_values(|l: Line| l@)
}

proof fn lemma_lines_remove(s: Seq<Line>, i: int)
    requires
        0 <= i < s.len(),
    ensures
        lines_view(s.remove(i)) == lines_view(s).remove(i),
{
    assert(lines_view(s.remove(i)) =~= lines_view(s).remove(i));
}

proof fn lemma_lines_insert(s: Seq<Line>, i: int, v: Line)
    requires
        0 <= i <= s.len(),
    ensures
        lines_view(s.insert(i, v)) == lines_view(s).insert(i, v@),
{
    assert(lines_view(s.insert(i, v)) =~= lines_view(s).insert(i, v@));
}

proof fn lemma_lines_push(s: Seq<Line>, v: Line)
    ensures
        lines_view(s.push(v)) == lines_view(s).push(v@),
{
    assert(lines_view(s.push(v)) =~= lines_view(s).push(v@));
}

proof fn lemma_lines_update(s: Seq<Line>, i: int)
    requires
        0 <= i < s.len(),
    ensures
        forall|v: Line| #[trigger] lines_view(s.update(i, v)) == lines_view(s).update(i, v@),
        forall|v: Line| v@ == s[i]@ ==> #[trigger] lines_view(s.update(i, v)) == lines_view(s),
{
    assert forall|v: Line| #[trigger] lines_view(s.update(i, v)) == lines_view(s).update(i, v@) by {
        assert(lines_view(s.update(i, v)) =~= lines_view(s).update(i, v@));
    }
    assert forall|v: Line| v@ == s[i]@ implies #[trigger] lines_view(s.update(i, v)) == lines_view(s) by {
        assert(lines_view(s.update(i, v)) =~= lines_view(s));
    }
}

proof fn lemma_lines_set(before: Seq<Line>, after: Seq<Line>, i: int)
    requires
        0 <= i < before.len(),
        after == before.update(i, after[i]),
    ensures
        lines_view(after) == lines_view(before).update(i, after[i]@),
{
    assert(lines_view(after) =~= lines_view(before).update(i, after[i]@));
}

/// The last `max` elements of `s` (all of `s` when it is shorter): a
/// scrollback buffer of capacity `max` after `s` was pushed into it.
pub open spec fn capped(s: Seq<LineView>, max: nat) -> Seq<LineView> {
    if s.len() > max {
        s.skip(s.len() - max)
    } else {
        s
    }
}

proof fn lemma_capped_push(s: Seq<LineView>, x: LineView, max: nat)
    ensures
        capped(capped(s, max).push(x), max) == capped(s.push(x), max),
{
    if s.len() > max {
        assert(capped(capped(s, max).push(x), max) =~= capped(s.push(x), max));
    } else {
        assert(capped(s, max) == s);
    }
}

/// Region `top..=bottom` of `lines` moved up by `m`: the first `m` lines of
/// the region leave it and `m` blank lines enter at its bottom.
pub open spec fn shifted_up(lines: Seq<LineView>, top: int, bottom: int, m: int, cols: nat) -> Seq<
    LineView,
> {
    lines.take(top) + lines.subrange(top + m, bottom + 1) + blank_lines(m as nat, cols)
        + lines.skip(bottom + 1)
}

/// Region `top..=bottom` of `lines` moved down by `m`: the last `m` lines of
/// the region leave it and `m` blank lines enter at its top.
pub open spec fn shifted_down(lines: Seq<LineView>, top: int, bottom: int, m: int, cols: nat) -> Seq<
    LineView,
> {
    lines.take(top) + blank_lines(m as nat, cols) + lines.subrange(top, bottom + 1 - m)
        + lines.skip(bottom + 1)
}

proof fn lemma_shift_up_step(lines: Seq<LineView>, top: int, bottom: int, j: int, cols: nat)
    requires
        0 <= top <= bottom < lines.len(),
        0 <= j < bottom - top + 1,
    ensures
        shifted_up(lines, top, bottom, j, cols).remove(top).insert(bottom, blank_line(cols))
            == shifted_up(lines, top, bottom, j + 1, cols),
{
    assert(shifted_up(lines, top, bottom, j, cols).remove(top).insert(bottom, blank_line(cols))
        =~= shifted_up(lines, top, bottom, j + 1, cols));
}

proof fn lemma_shift_down_step(lines: Seq<LineView>, top: int, bottom: int, j: int, cols: nat)
    requires
        0 <= top <= bottom < lines.len(),
        0 <= j < bottom - top + 1,
    ensures
        shifted_down(lines, top, bottom, j, cols).remove(bottom).insert(top, blank_line(cols))
            == shifted_down(lines, top, bottom, j + 1, cols),
{
    assert(shifted_down(lines, top, bottom, j, cols).remove(bottom).insert(top, blank_line(cols))
        =~= shifted_down(lines, top, bottom, j + 1, cols));
}

/// How many lines a scroll of `n` inside region `top..=bottom` moves.
pub open spec fn clamp_count(n: int, top: int, bottom: int) -> int {
    if n < bottom - top + 1 {
        n
    } else {
        bottom - top + 1
    }
}

/// Every line of `lines` has `cols` cells.
pub open spec fn all_width(lines: Seq<LineView>, cols: nat) -> bool {
    forall|i: int| 0 <= i < lines.len() ==> #[trigger] lines[i].cells.len() == cols
}

proof fn lemma_shifted_wf(lines: Seq<LineView>, top: int, bottom: int, m: int, cols: nat)
    requires
        0 <= top <= bottom < lines.len(),
        0 <= m <= bottom - top + 1,
        all_width(lines, cols),
    ensures
        shifted_up(lines, top, bottom, m, cols).len() == lines.len(),
        all_width(shifted_up(lines, top, bottom, m, cols), cols),
        shifted_down(lines, top, bottom, m, cols).len() == lines.len(),
        all_width(shifted_down(lines, top, bottom, m, cols), cols),
{
    let u = shifted_up(lines, top, bottom, m, cols);
    let d = shifted_down(lines, top, bottom, m, cols);
    assert forall|i: int| 0 <= i < u.len() implies #[trigger] u[i].cells.len() == cols by {
        if i < top {
            assert(u[i] == lines[i]);
        } else if i < bottom + 1 - m {
            assert(u[i] == lines[i + m]);
        } else if i < bottom + 1 {
            assert(u[i] == blank_line(cols));
        } else {
            assert(u[i] == lines[i]);
        }
    }
    assert forall|i: int| 0 <= i < d.len() implies #[trigger] d[i].cells.len() == cols by {
        if i < top {
            assert(d[i] == lines[i]);
        } else if i < top + m {
            assert(d[i] == blank_line(cols));
        } else if i < bottom + 1 {
            assert(d[i] == lines[i - m]);
        } else {
            assert(d[i] == lines[i]);
        }
    }
}

/// `lines` with the cells in columns `left..=right` of rows `top..=bottom` blank.
pub open spec fn cleared_region(lines: Seq<LineView>, top: int, left: int, bottom: int, right: int) -> Seq<
    LineView,
> {
    Seq::new(
        lines.len(),
        |r: int|
            if top <= r <= bottom {
                LineView { cells: blank_range(lines[r].cells, left, right + 1), wrapped: lines[r].wrapped }
            } else {
                lines[r]
            },
    )
}

/// The display lines of a resize: every line resized to `cols`, then blank
/// lines added at the bottom, or the top lines removed.
pub open spec fn resized_lines(lines: Seq<LineView>, cols: nat, rows: nat) -> Seq<LineView> {
    let w = lines.map_values(|l: LineView| resized_line(l, cols));
    if rows >= lines.len() {
        w + blank_lines((rows - lines.len()) as nat, cols)
    } else {
        w.skip(lines.len() - rows)
    }
}

/// The lines that a resize moves from the top of the display to the scrollback.
pub open spec fn resize_evicted(lines: Seq<LineView>, cols: nat, rows: nat) -> Seq<LineView> {
    if rows >= lines.len() {
        Seq::empty()
    } else {
        lines.map_values(|l: LineView| resized_line(l, cols)).take(lines.len() - rows)
    }
}

/// Mathematical model of a grid.
pub struct GridView {
    pub lines: Seq<LineView>,
    pub scrollback: Seq<LineView>,
    pub cols: nat,
    pub rows: nat,
    pub max_scrollback: nat,
    pub scroll_offset: nat,
}

impl GridView {
    /// `rows` lines of `cols` cells each; the scrollback within its capacity;
    /// the viewport offset within the scrollback.
    pub open spec fn wf(self) -> bool {
        &&& self.lines.len() == self.rows
        &&& forall|i: int| 0 <= i < self.lines.len() ==> #[trigger] self.lines[i].cells.len() == self.cols
        &&& self.scrollback.len() <= self.max_scrollback
        &&& self.scroll_offset <= self.scrollback.len()
    }

    /// The grid with every line of the display blank.
    pub open spec fn cleared(self) -> GridView {
        GridView { lines: blank_lines(self.rows, self.cols), ..self }
    }

    /// The grid after scrolling region `top..=bottom` up by `n` lines; lines
    /// leaving the top of the screen go to the scrollback.
    pub open spec fn scrolled_up(self, n: int, top: int, bottom: int) -> GridView {
        let m = clamp_count(n, top, bottom);
        GridView {
            lines: shifted_up(self.lines, top, bottom, m, self.cols),
            scrollback: if top == 0 {
                capped(self.scrollback + self.lines.take(m), self.max_scrollback)
            } else {
                self.scrollback
            },
            ..self
        }
    }

    /// The grid after scrolling region `top..=bottom` down by `n` lines.
    pub open spec fn scrolled_down(self, n: int, top: int, bottom: int) -> GridView {
        GridView { lines: shifted_down(self.lines, top, bottom, clamp_count(n, top, bottom), self.cols), ..self }
    }

    /// The grid after deleting `n` lines at `row` inside region `row..=bottom`.
    pub open spec fn lines_deleted(self, row: int, n: int, bottom: int) -> GridView {
        GridView { lines: shifted_up(self.lines, row, bottom, clamp_count(n, row, bottom), self.cols), ..self }
    }

    /// The grid with line `row` replaced.
    pub open spec fn with_line(self, row: int, l: LineView) -> GridView {
        GridView { lines: self.lines.update(row, l), ..self }
    }

    /// The grid with cell (`row`, `col`) replaced.
    pub open spec fn with_cell(self, row: int, col: int, c: CellView) -> GridView {
        self.with_line(row, LineView { cells: self.lines[row].cells.update(col, c), ..self.lines[row] })
    }

    /// The grid with its viewport moved `n` lines up into the scrollback,
    /// stopping at the oldest line.
    pub open spec fn viewport_up(self, n: nat) -> GridView {
        GridView {
            scroll_offset: if self.scroll_offset + n <= self.scrollback.len() {
                self.scroll_offset + n
            } else {
                self.scrollback.len()
            },
            ..self
        }
    }

    /// The grid with its viewport moved `n` lines down, stopping at the bottom.
    pub open spec fn viewport_down(self, n: nat) -> GridView {
        GridView {
            scroll_offset: if self.scroll_offset >= n {
                (self.scroll_offset - n) as nat
            } else {
                0
            },
            ..self
        }
    }

    /// The grid after erasing the display and the scrollback.
    pub open spec fn cleared_all(self) -> GridView {
        GridView { scrollback: Seq::empty(), scroll_offset: 0, ..self.cleared() }
    }

    /// The grid after erasing the display, its lines first moved to the scrollback.
    pub open spec fn cleared_saving(self) -> GridView {
        GridView { scrollback: capped(self.scrollback + self.lines, self.max_scrollback), ..self.cleared() }
    }

    /// The grid with the cells of line `row` replaced (no change when there
    /// is no such line).
    pub open spec fn with_line_cells(self, row: int, cells: Seq<CellView>) -> GridView {
        if 0 <= row < self.lines.len() {
            self.with_line(row, LineView { cells, ..self.lines[row] })
        } else {
            self
        }
    }

    /// Erase from (`row`, `col`) to the end of the display: the rest of line
    /// `row` blank (keeping its wrap flag), every later line cleared.
    pub open spec fn erased_below(self, row: int, col: int) -> GridView {
        GridView {
            lines: Seq::new(
                self.lines.len(),
                |r: int|
                    if r == row {
                        LineView {
                            cells: blank_range(self.lines[r].cells, col, self.lines[r].cells.len() as int),
                            wrapped: self.lines[r].wrapped,
                        }
                    } else if r > row {
                        blank_line(self.lines[r].cells.len())
                    } else {
                        self.lines[r]
                    },
            ),
            ..self
        }
    }

    /// Erase from the start of the display to (`row`, `col`) inclusive: every
    /// earlier line cleared, the start of line `row` blank (keeping its wrap flag).
    pub open spec fn erased_above(self, row: int, col: int) -> GridView {
        GridView {
            lines: Seq::new(
                self.lines.len(),
                |r: int|
                    if r < row {
                        blank_line(self.lines[r].cells.len())
                    } else if r == row {
                        LineView { cells: blank_range(self.lines[r].cells, 0, col + 1), wrapped: self.lines[r].wrapped }
                    } else {
                        self.lines[r]
                    },
            ),
            ..self
        }
    }

    /// Erase in display from cursor (`row`, `col`): mode 0 below, 1 above,
    /// 2 the display (kept in the scrollback), 3 display and scrollback.
    pub open spec fn display_erased(self, mode: u16, row: int, col: int) -> GridView {
        if mode == 0 {
            self.erased_below(row, col)
        } else if mode == 1 {
            self.erased_above(row, col)
        } else if mode == 2 {
            self.cleared_saving()
        } else if mode == 3 {
            self.cleared_all()
        } else {
            self
        }
    }

    /// Every character of the display replaced by `c`.
    pub open spec fn filled(self, c: char) -> GridView {
        GridView {
            lines: Seq::new(
                self.lines.len(),
                |r: int| LineView { cells: cells_filled(self.lines[r].cells, c), wrapped: self.lines[r].wrapped },
            ),
            ..self
        }
    }

    /// The grid after a resize to `cols` x `rows`.
    pub open spec fn resized(self, cols: nat, rows: nat) -> GridView {
        let sb = capped(self.scrollback + resize_evicted(self.lines, cols, rows), self.max_scrollback);
        GridView {
            lines: resized_lines(self.lines, cols, rows),
            scrollback: sb,
            cols: cols,
            rows: rows,
            max_scrollback: self.max_scrollback,
            scroll_offset: if self.scroll_offset <= sb.len() { self.scroll_offset } else { sb.len() },
        }
    }
}

/// Terminal grid with active display and scrollback
#[derive(Debug)]
pub struct Grid {
    /// Active display lines
    lines: Vec<Line>,
    /// Scrollback buffer
    scrollback: VecDeque<Line>,
    /// Number of columns
    cols: usize,
    /// Number of rows
    rows: usize,
    /// Maximum scrollback lines
    max_scrollback: usize,
    /// Current scroll offset (0 = at bottom, showing active display)
    scroll_offset: usize,
}

impl View for Grid {
    type V = GridView;

    closed spec fn view(&self) -> GridView {
        GridView {
            lines: lines_view(self.lines@),
            scrollback: lines_view(self.scrollback@),
            cols: self.cols as nat,
            rows: self.rows as nat,
            max_scrollback: self.max_scrollback as nat,
            scroll_offset: self.scroll_offset as nat,
        }
    }
}

impl Grid {
    /// Well-formedness of the grid.
    pub open spec fn wf(&self) -> bool {
        self@.wf()
    }

    /// Create a new grid with the given dimensions
    pub fn new(cols: usize, rows: usize, max_scrollback: usize) -> (r: Self)
        ensures
            r.wf(),
            r@ == (GridView {
                lines: blank_lines(rows as nat, cols as nat),
                scrollback: Seq::empty(),
                cols: cols as nat,
                rows: rows as nat,
                max_scrollback: max_scrollback as nat,
                scroll_offset: 0,
            }),
    {
        let mut lines: Vec<Line> = Vec::new();
        let mut i: usize = 0;
        while i < rows
            invariant
                i <= rows,
                lines@.len() == i,
                forall|j: int| 0 <= j < i ==> #[trigger] lines@[j]@ == blank_line(cols as nat),
            decreases rows - i,
        {
            lines.push(Line::new(cols));
            i += 1;
        }
        let r = Grid {
            lines,
            scrollback: VecDeque::new(),
            cols,
            rows,
            max_scrollback,
            scroll_offset: 0,
        };
        assert(r@.lines =~= blank_lines(rows as nat, cols as nat));
        assert(r@.scrollback =~= Seq::empty());
        r
    }

    /// Get grid dimensions
    pub fn cols(&self) -> (r: usize)
        ensures
            r == self@.cols,
    {
        self.cols
    }

    pub fn rows(&self) -> (r: usize)
        ensures
            r == self@.rows,
    {
        self.rows
    }

    /// Get current scroll offset
    pub fn scroll_offset(&self) -> (r: usize)
        ensures
            r == self@.scroll_offset,
    {
        self.scroll_offset
    }

    /// Get total scrollback lines
    pub fn scrollback_len(&self) -> (r: usize)
        ensures
            r == self@.scrollback.len(),
    {
        self.scrollback.len()
    }

    /// Push a line to scrollback
    fn push_scrollback(&mut self, line: Line)
        requires
            old(self)@.scrollback.len() <= old(self)@.max_scrollback,
        ensures
            final(self)@ == (GridView {
                scrollback: capped(old(self)@.scrollback.push(line@), old(self)@.max_scrollback),
                ..old(self)@
            }),
    {
        let ghost l = line@;
        proof {
            lemma_lines_push(self.scrollback@, line);
        }
        self.scrollback.push_back(line);
        let ghost target = capped(old(self)@.scrollback.push(l), old(self)@.max_scrollback);
        while self.scrollback.len() > self.max_scrollback
            invariant
                self.max_scrollback == old(self).max_scrollback,
                target == capped(old(self)@.scrollback.push(l), old(self)@.max_scrollback),
                self.lines == old(self).lines,
                self.cols == old(self).cols,
                self.rows == old(self).rows,
                self.scroll_offset == old(self).scroll_offset,
                old(self)@.scrollback.len() <= old(self)@.max_scrollback,
                lines_view(self.scrollback@).len() <= old(self)@.max_scrollback + 1,
                lines_view(self.scrollback@) == old(self)@.scrollback.push(l) || (lines_view(
                    self.scrollback@,
                ) == target && target.len() == self.max_scrollback),
            decreases self.scrollback@.len(),
        {
            let ghost before = self.scrollback@;
            let _ = self.scrollback.pop_front();
            proof {
                assert(lines_view(self.scrollback@) =~= lines_view(before).skip(1));
                assert(lines_view(before).len() == before.len());
                assert(lines_view(before) == old(self)@.scrollback.push(l));
                assert(old(self)@.scrollback.push(l).len() == old(self)@.max_scrollback + 1);
                assert(target == old(self)@.scrollback.push(l).skip(1));
            }
        }
        proof {
            if lines_view(self.scrollback@) == old(self)@.scrollback.push(l) {
                assert(lines_view(self.scrollback@) == target);
            }
        }
    }

    /// Scroll the grid up by n lines within a scroll region
    /// Lines scrolled out of the top go to scrollback
    pub fn scroll_up(&mut self, n: usize, top: usize, bottom: usize)
        requires
            old(self).wf(),
            top <= bottom < old(self)@.rows,
        ensures
            final(self).wf(),
            final(self)@ == (GridView {
                lines: shifted_up(
                    old(self)@.lines,
                    top as int,
                    bottom as int,
                    clamp_count(n as int, top as int, bottom as int),
                    old(self)@.cols,
                ),
                scrollback: if top == 0 {
                    capped(
                        old(self)@.scrollback + old(self)@.lines.take(
                            clamp_count(n as int, top as int, bottom as int),
                        ),
                        old(self)@.max_scrollback,
                    )
                } else {
                    old(self)@.scrollback
                },
                ..old(self)@
            }),
    {
        let count = if n < bottom - top + 1 {
            n
        } else {
            bottom - top + 1
        };
        let ghost old_lines = self@.lines;
        let ghost old_sb = self@.scrollback;
        let ghost cols = self@.cols;
        let ghost max = self@.max_scrollback;
        proof {
            assert(old_sb + old_lines.take(0) =~= old_sb);
            assert(shifted_up(old_lines, top as int, bottom as int, 0, cols) =~= old_lines);
        }
        let mut j: usize = 0;
        while j < count
            invariant
                j <= count,
                count == clamp_count(n as int, top as int, bottom as int),
                top <= bottom < self.rows,
                self.cols == old(self).cols,
                self.rows == old(self).rows,
                self.max_scrollback == old(self).max_scrollback,
                self.scroll_offset == old(self).scroll_offset,
                old_lines == old(self)@.lines,
                old_sb == old(self)@.scrollback,
                cols == self.cols,
                max == self.max_scrollback,
                old(self).wf(),
                lines_view(self.lines@) == shifted_up(old_lines, top as int, bottom as int, j as int, cols),
                top == 0 ==> lines_view(self.scrollback@) == capped(old_sb + old_lines.take(j as int), max),
                top != 0 ==> lines_view(self.scrollback@) == old_sb,
            decreases count - j,
        {
            proof {
                lemma_shifted_wf(old_lines, top as int, bottom as int, j as int, cols);
                lemma_lines_remove(self.lines@, top as int);
            }
            let ghost cur = lines_view(self.lines@);
            let line = self.lines.remove(top);
            if top == 0 {
                proof {
                    assert(line@ == cur[0]);
                    assert(cur[0] == old_lines[j as int]);
                    assert(capped(old_sb + old_lines.take(j as int), max).len() <= max);
                }
                self.push_scrollback(line);
                proof {
                    lemma_capped_push(old_sb + old_lines.take(j as int), old_lines[j as int], max);
                    assert((old_sb + old_lines.take(j as int)).push(old_lines[j as int]) =~= old_sb
                        + old_lines.take(j + 1));
                }
            }
            let blank = Line::new(self.cols);
            proof {
                lemma_lines_insert(self.lines@, bottom as int, blank);
                lemma_shift_up_step(old_lines, top as int, bottom as int, j as int, cols);
            }
            self.lines.insert(bottom, blank);
            j += 1;
        }
        proof {
            lemma_shifted_wf(old_lines, top as int, bottom as int, count as int, cols);
            if top == 0 {
                let a = old_sb + old_lines.take(count as int);
                assert(a.len() >= old_sb.len());
            }
        }
    }

    /// Scroll the grid down by n lines within a scroll region
    pub fn scroll_down(&mut self, n: usize, top: usize, bottom: usize)
        requires
            old(self).wf(),
            top <= bottom < old(self)@.rows,
        ensures
            final(self).wf(),
            final(self)@ == (GridView {
                lines: shifted_down(
                    old(self)@.lines,
                    top as int,
                    bottom as int,
                    clamp_count(n as int, top as int, bottom as int),
                    old(self)@.cols,
                ),
                ..old(self)@
            }),
    {
        let count = if n < bottom - top + 1 {
            n
        } else {
            bottom - top + 1
        };
        let ghost old_lines = self@.lines;
        let ghost cols = self@.cols;
        proof {
            assert(shifted_down(old_lines, top as int, bottom as int, 0, cols) =~= old_lines);
        }
        let mut j: usize = 0;
        while j < count
            invariant
                j <= count,
                count == clamp_count(n as int, top as int, bottom as int),
                top <= bottom < self.rows,
                self.cols == old(self).cols,
                self.rows == old(self).rows,
                self.max_scrollback == old(self).max_scrollback,
                self.scroll_offset == old(self).scroll_offset,
                self.scrollback == old(self).scrollback,
                old_lines == old(self)@.lines,
                cols == self.cols,
                old(self).wf(),
                lines_view(self.lines@) == shifted_down(old_lines, top as int, bottom as int, j as int, cols),
            decreases count - j,
        {
            proof {
                lemma_shifted_wf(old_lines, top as int, bottom as int, j as int, cols);
                lemma_lines_remove(self.lines@, bottom as int);
            }
            let _ = self.lines.remove(bottom);
            let blank = Line::new(self.cols);
            proof {
                lemma_lines_insert(self.lines@, top as int, blank);
                lemma_shift_down_step(old_lines, top as int, bottom as int, j as int, cols);
            }
            self.lines.insert(top, blank);
            j += 1;
        }
        proof {
            lemma_shifted_wf(old_lines, top as int, bottom as int, count as int, cols);
        }
    }

    /// Insert n blank lines at row, pushing content down
    pub fn insert_lines(&mut self, row: usize, n: usize, bottom: usize)
        requires
            old(self).wf(),
            row <= bottom < old(self)@.rows,
        ensures
            final(self).wf(),
            final(self)@ == (GridView {
                lines: shifted_down(
                    old(self)@.lines,
                    row as int,
                    bottom as int,
                    clamp_count(n as int, row as int, bottom as int),
                    old(self)@.cols,
                ),
                ..old(self)@
            }),
    {
        self.scroll_down(n, row, bottom);
    }

    /// Delete n lines at row, pulling content up
    pub fn delete_lines(&mut self, row: usize, n: usize, bottom: usize)
        requires
            old(self).wf(),
            row <= bottom < old(self)@.rows,
        ensures
            final(self).wf(),
            final(self)@ == (GridView {
                lines: shifted_up(
                    old(self)@.lines,
                    row as int,
                    bottom as int,
                    clamp_count(n as int, row as int, bottom as int),
                    old(self)@.cols,
                ),
                ..old(self)@
            }),
    {
        let count = if n < bottom - row + 1 {
            n
        } else {
            bottom - row + 1
        };
        let ghost old_lines = self@.lines;
        let ghost cols = self@.cols;
        proof {
            assert(shifted_up(old_lines, row as int, bottom as int, 0, cols) =~= old_lines);
        }
        let mut j: usize = 0;
        while j < count
            invariant
                j <= count,
                count == clamp_count(n as int, row as int, bottom as int),
                row <= bottom < self.rows,
                self.cols == old(self).cols,
                self.rows == old(self).rows,
                self.max_scrollback == old(self).max_scrollback,
                self.scroll_offset == old(self).scroll_offset,
                self.scrollback == old(self).scrollback,
                old_lines == old(self)@.lines,
                cols == self.cols,
                old(self).wf(),
                lines_view(self.lines@) == shifted_up(old_lines, row as int, bottom as int, j as int, cols),
            decreases count - j,
        {
            proof {
                lemma_shifted_wf(old_lines, row as int, bottom as int, j as int, cols);
                lemma_lines_remove(self.lines@, row as int);
            }
            let _ = self.lines.remove(row);
            let blank = Line::new(self.cols);
            proof {
                lemma_lines_insert(self.lines@, bottom as int, blank);
                lemma_shift_up_step(old_lines, row as int, bottom as int, j as int, cols);
            }
            self.lines.insert(bottom, blank);
            j += 1;
        }
        proof {
            lemma_shifted_wf(old_lines, row as int, bottom as int, count as int, cols);
        }
    }

    /// Get a cell reference
    pub fn cell(&self, row: usize, col: usize) -> (r: Option<&Cell>)
        ensures
            (row < self@.lines.len() && col < self@.lines[row as int].cells.len()) ==> r is Some
                && r->0@ == self@.lines[row as int].cells[col as int],
            !(row < self@.lines.len() && col < self@.lines[row as int].cells.len()) ==> r is None,
    {
        if row < self.lines.len() {
            self.lines[row].get(col)
        } else {
            None
        }
    }

    /// Get a mutable cell reference
    pub fn cell_mut(&mut self, row: usize, col: usize) -> (r: Option<&mut Cell>)
        ensures
            (row < old(self)@.lines.len() && col < old(self)@.lines[row as int].cells.len()) ==> r is Some
                && r->0@ == old(self)@.lines[row as int].cells[col as int]
                && final(self)@ == (GridView {
                    lines: old(self)@.lines.update(
                        row as int,
                        LineView {
                            cells: old(self)@.lines[row as int].cells.update(col as int, final(r->0)@),
                            ..old(self)@.lines[row as int]
                        },
                    ),
                    ..old(self)@
                }),
            !(row < old(self)@.lines.len() && col < old(self)@.lines[row as int].cells.len())
                ==> r is None && final(self)@ == old(self)@,
    {
        if row < self.lines.len() {
            proof {
                lemma_lines_update(self.lines@, row as int);
            }
            self.lines[row].get_mut(col)
        } else {
            None
        }
    }

    /// Get a line reference
    pub fn line(&self, row: usize) -> (r: Option<&Line>)
        ensures
            row < self@.lines.len() ==> r is Some && r->0@ == self@.lines[row as int],
            row >= self@.lines.len() ==> r is None,
    {
        if row < self.lines.len() {
            Some(&self.lines[row])
        } else {
            None
        }
    }

    /// The number of display lines.
    pub fn lines_len(&self) -> (r: usize)
        ensures
            r == self@.lines.len(),
    {
        self.lines.len()
    }

    /// Line `index` counted from the oldest scrollback line: the scrollback
    /// first, then the display.
    pub fn absolute_line(&self, index: usize) -> (r: Option<&Line>)
        ensures
            index < self@.scrollback.len() + self@.lines.len() ==> r is Some && r->0@ == (self@.scrollback
                + self@.lines)[index as int],
            index >= self@.scrollback.len() + self@.lines.len() ==> r is None,
    {
        let n = self.scrollback.len();
        if index < n {
            Some(&self.scrollback[index])
        } else if index - n < self.lines.len() {
            Some(&self.lines[index - n])
        } else {
            None
        }
    }

    /// Get a mutable line reference
    pub fn line_mut(&mut self, row: usize) -> (r: Option<&mut Line>)
        ensures
            row < old(self)@.lines.len() ==> r is Some && r->0@ == old(self)@.lines[row as int]
                && final(self)@ == (GridView {
                    lines: old(self)@.lines.update(row as int, final(r->0)@),
                    ..old(self)@
                }),
            row >= old(self)@.lines.len() ==> r is None && final(self)@ == old(self)@,
    {
        if row < self.lines.len() {
            proof {
                lemma_lines_update(self.lines@, row as int);
            }
            Some(&mut self.lines[row])
        } else {
            None
        }
    }

    /// Resize the grid
    pub fn resize(&mut self, cols: usize, rows: usize)
        requires
            old(self).wf(),
        ensures
            final(self).wf(),
            final(self)@.lines == resized_lines(old(self)@.lines, cols as nat, rows as nat),
            final(self)@.scrollback == capped(
                old(self)@.scrollback + resize_evicted(old(self)@.lines, cols as nat, rows as nat),
                old(self)@.max_scrollback,
            ),
            final(self)@.cols == cols,
            final(self)@.rows == rows,
            final(self)@.max_scrollback == old(self)@.max_scrollback,
            final(self)@.scroll_offset == (if old(self)@.scroll_offset <= final(self)@.scrollback.len() {
                old(self)@.scroll_offset
            } else {
                final(self)@.scrollback.len()
            }),
            final(self)@ == old(self)@.resized(cols as nat, rows as nat),
    {
        let ghost old_lines = self@.lines;
        let ghost w = old_lines.map_values(|l: LineView| resized_line(l, cols as nat));
        let n = self.lines.len();
        let mut i: usize = 0;
        while i < n
            invariant
                n == self.lines@.len(),
                i <= n,
                old_lines == old(self)@.lines,
                old_lines.len() == n,
                w.len() == n,
                w == old_lines.map_values(|l: LineView| resized_line(l, cols as nat)),
                self.scrollback == old(self).scrollback,
                self.rows == old(self).rows,
                self.cols == old(self).cols,
                self.max_scrollback == old(self).max_scrollback,
                self.scroll_offset == old(self).scroll_offset,
                old(self).wf(),
                forall|j: int|
                    0 <= j < n ==> #[trigger] lines_view(self.lines@)[j] == (if j < i {
                        w[j]
                    } else {
                        old_lines[j]
                    }),
            decreases n - i,
        {
            let ghost before = self.lines@;
            assert(lines_view(before)[i as int] == before[i as int]@);
            assert(before[i as int]@ == old_lines[i as int]);
            self.lines[i].resize(cols);
            assert(self.lines@[i as int]@ == resized_line(before[i as int]@, cols as nat));
            assert(self.lines@ == before.update(i as int, self.lines@[i as int]));
            proof {
                lemma_lines_set(before, self.lines@, i as int);
            }
            assert(lines_view(self.lines@)[i as int] == w[i as int]);
            i += 1;
        }
        proof {
            assert(lines_view(self.lines@) =~= w);
        }
        let ghost evicted = resize_evicted(old_lines, cols as nat, rows as nat);
        let ghost old_sb = old(self)@.scrollback;
        if rows > self.rows {
            let extra = rows - self.rows;
            let mut k: usize = 0;
            while k < extra
                invariant
                    k <= extra,
                    extra == rows - old(self).rows,
                    self.rows == old(self).rows,
                    self.cols == old(self).cols,
                    self.max_scrollback == old(self).max_scrollback,
                    self.scroll_offset == old(self).scroll_offset,
                    lines_view(self.lines@) == w + blank_lines(k as nat, cols as nat),
                    self.scrollback == old(self).scrollback,
                decreases extra - k,
            {
                let l = Line::new(cols);
                proof {
                    lemma_lines_push(self.lines@, l);
                    assert((w + blank_lines(k as nat, cols as nat)).push(l@) =~= w + blank_lines(
                        (k + 1) as nat,
                        cols as nat,
                    ));
                }
                self.lines.push(l);
                k += 1;
            }
            proof {
                assert(old_sb + evicted =~= old_sb);
            }
        } else if rows < self.rows {
            let excess = self.rows - rows;
            let mut k: usize = 0;
            proof {
                assert(w.skip(0) =~= w);
                assert(old_sb + w.take(0) =~= old_sb);
                assert(capped(old_sb, old(self)@.max_scrollback) == old_sb);
            }
            while k < excess
                invariant
                    k <= excess,
                    excess == old(self).rows - rows,
                    w.len() == old(self).rows,
                    self.max_scrollback == old(self).max_scrollback,
                    self.cols == old(self).cols,
                    self.rows == old(self).rows,
                    self.scroll_offset == old(self).scroll_offset,
                    lines_view(self.lines@) == w.skip(k as int),
                    lines_view(self.scrollback@) == capped(old_sb + w.take(k as int), self.max_scrollback as nat),
                    old_sb == old(self)@.scrollback,
                    old_sb.len() <= self.max_scrollback,
                decreases excess - k,
            {
                proof {
                    lemma_lines_remove(self.lines@, 0);
                }
                let ghost before = self.lines@;
                let line = self.lines.remove(0);
                proof {
                    assert(line == before[0]);
                    assert(lines_view(before)[0] == before[0]@);
                    assert(line@ == w[k as int]);
                    assert(w.skip(k as int).remove(0) =~= w.skip(k + 1));
                }
                self.push_scrollback(line);
                proof {
                    lemma_capped_push(old_sb + w.take(k as int), w[k as int], self.max_scrollback as nat);
                    assert((old_sb + w.take(k as int)).push(w[k as int]) =~= old_sb + w.take(k + 1));
                }
                k += 1;
            }
        } else {
            proof {
                assert(old_sb + evicted =~= old_sb);
                assert(w + blank_lines(0, cols as nat) =~= w);
            }
        }
        self.cols = cols;
        self.rows = rows;
        if self.scroll_offset > self.scrollback.len() {
            self.scroll_offset = self.scrollback.len();
        }
        proof {
            let nl = lines_view(self.lines@);
            assert forall|j: int| 0 <= j < nl.len() implies #[trigger] nl[j].cells.len() == cols by {
                if rows >= old_lines.len() {
                    if j < w.len() {
                        assert(nl[j] == w[j]);
                    } else {
                        assert(nl[j] == blank_line(cols as nat));
                    }
                } else {
                    assert(nl[j] == w[j + (old_lines.len() - rows)]);
                }
            }
        }
    }

    /// Clear a region of the grid
    pub fn clear_region(&mut self, top: usize, left: usize, bottom: usize, right: usize)
        requires
            old(self).wf(),
            old(self)@.rows > 0,
            old(self)@.cols > 0,
        ensures
            final(self).wf(),
            final(self)@ == (GridView {
                lines: cleared_region(
                    old(self)@.lines,
                    top as int,
                    left as int,
                    if bottom < old(self)@.rows { bottom as int } else { old(self)@.rows - 1 },
                    if right < old(self)@.cols { right as int } else { old(self)@.cols - 1 },
                ),
                ..old(self)@
            }),
    {
        let last_row = if bottom < self.rows { bottom } else { self.rows - 1 };
        let last_col = if right < self.cols { right } else { self.cols - 1 };
        let ghost old_lines = self@.lines;
        let ghost target = cleared_region(old_lines, top as int, left as int, last_row as int, last_col as int);
        let mut row = top;
        while row <= last_row
            invariant
                top <= row,
                row <= last_row + 1 || row == top,
                last_row < self.rows,
                last_col < self.cols,
                self.lines@.len() == self.rows,
                old_lines == old(self)@.lines,
                target == cleared_region(old_lines, top as int, left as int, last_row as int, last_col as int),
                self.scrollback == old(self).scrollback,
                self.rows == old(self).rows,
                self.cols == old(self).cols,
                self.max_scrollback == old(self).max_scrollback,
                self.scroll_offset == old(self).scroll_offset,
                old(self).wf(),
                forall|j: int|
                    0 <= j < self.rows ==> #[trigger] lines_view(self.lines@)[j] == (if top <= j < row
                        && j <= last_row {
                        target[j]
                    } else {
                        old_lines[j]
                    }),
            decreases last_row + 1 - row,
        {
            let ghost before = self.lines@;
            assert(lines_view(before)[row as int] == before[row as int]@);
            assert(before[row as int]@ == old_lines[row as int]);
            self.lines[row].reset_range(left, last_col + 1);
            assert(self.lines@ == before.update(row as int, self.lines@[row as int]));
            proof {
                lemma_lines_set(before, self.lines@, row as int);
            }
            assert(lines_view(self.lines@)[row as int] == target[row as int]);
            row += 1;
        }
        proof {
            assert(lines_view(self.lines@) =~= target);
            assert forall|j: int| 0 <= j < target.len() implies #[trigger] target[j].cells.len() == self.cols by {
                assert(old_lines[j].cells.len() == self.cols);
            }
        }
    }

    /// Clear entire grid
    pub fn clear(&mut self)
        requires
            old(self).wf(),
        ensures
            final(self).wf(),
            final(self)@ == old(self)@.cleared(),
    {
        let n = self.lines.len();
        let mut i: usize = 0;
        while i < n
            invariant
                n == self.lines@.len(),
                n == self.rows,
                i <= n,
                self.scrollback == old(self).scrollback,
                self.rows == old(self).rows,
                self.cols == old(self).cols,
                self.max_scrollback == old(self).max_scrollback,
                self.scroll_offset == old(self).scroll_offset,
                old(self).wf(),
                forall|j: int|
                    0 <= j < n ==> #[trigger] lines_view(self.lines@)[j] == (if j < i {
                        blank_line(self.cols as nat)
                    } else {
                        old(self)@.lines[j]
                    }),
            decreases n - i,
        {
            let ghost before = self.lines@;
            assert(lines_view(before)[i as int] == before[i as int]@);
            assert(before[i as int]@ == old(self)@.lines[i as int]);
            self.lines[i].clear();
            assert(self.lines@[i as int]@ == blank_line(before[i as int]@.cells.len()));
            assert(self.lines@ == before.update(i as int, self.lines@[i as int]));
            proof {
                lemma_lines_set(before, self.lines@, i as int);
            }
            assert(lines_view(self.lines@)[i as int] == blank_line(self.cols as nat));
            i += 1;
        }
        proof {
            assert(lines_view(self.lines@) =~= blank_lines(self.rows as nat, self.cols as nat));
        }
    }

    /// Clear grid and scrollback
    pub fn clear_all(&mut self)
        requires
            old(self).wf(),
        ensures
            final(self).wf(),
            final(self)@ == (GridView { scrollback: Seq::empty(), scroll_offset: 0, ..old(self)@.cleared() }),
    {
        self.clear();
        self.scrollback.clear();
        self.scroll_offset = 0;
        proof {
            assert(lines_view(self.scrollback@) =~= Seq::empty());
        }
    }

    /// Drop the scrollback history and return the viewport to the bottom.
    pub fn clear_scrollback(&mut self)
        requires
            old(self).wf(),
        ensures
            final(self).wf(),
            final(self)@ == (GridView { scrollback: Seq::empty(), scroll_offset: 0, ..old(self)@ }),
    {
        self.scrollback.clear();
        self.scroll_offset = 0;
        proof {
            assert(lines_view(self.scrollback@) =~= Seq::empty());
        }
    }

    /// Erase the display, first moving every display line into the scrollback.
    pub fn clear_saving_scrollback(&mut self)
        requires
            old(self).wf(),
        ensures
            final(self).wf(),
            final(self)@ == (GridView {
                scrollback: capped(old(self)@.scrollback + old(self)@.lines, old(self)@.max_scrollback),
                ..old(self)@.cleared()
            }),
    {
        let ghost old_sb = self@.scrollback;
        let ghost old_lines = self@.lines;
        let n = self.lines.len();
        let mut i: usize = 0;
        proof {
            assert(old_sb + old_lines.take(0) =~= old_sb);
            assert(old_lines.skip(0) =~= old_lines);
        }
        while i < n
            invariant
                n == self.rows,
                n == old_lines.len(),
                i <= n,
                old_lines == old(self)@.lines,
                old_sb == old(self)@.scrollback,
                old_sb.len() <= self.max_scrollback,
                lines_view(self.lines@) == old_lines.skip(i as int),
                lines_view(self.scrollback@) == capped(old_sb + old_lines.take(i as int), self.max_scrollback as nat),
                self.rows == old(self).rows,
                self.cols == old(self).cols,
                self.max_scrollback == old(self).max_scrollback,
                self.scroll_offset == old(self).scroll_offset,
            decreases n - i,
        {
            proof {
                lemma_lines_remove(self.lines@, 0);
            }
            let ghost before = self.lines@;
            let line = self.lines.remove(0);
            proof {
                assert(line == before[0]);
                assert(lines_view(before)[0] == before[0]@);
                assert(line@ == old_lines[i as int]);
                assert(old_lines.skip(i as int).remove(0) =~= old_lines.skip(i + 1));
            }
            self.push_scrollback(line);
            proof {
                lemma_capped_push(old_sb + old_lines.take(i as int), old_lines[i as int], self.max_scrollback as nat);
                assert((old_sb + old_lines.take(i as int)).push(old_lines[i as int]) =~= old_sb
                    + old_lines.take(i + 1));
            }
            i += 1;
        }
        proof {
            assert(old_lines.take(n as int) =~= old_lines);
            assert(lines_view(self.lines@) =~= blank_lines(0, self.cols as nat));
        }
        let mut k: usize = 0;
        while k < n
            invariant
                k <= n,
                n == self.rows,
                lines_view(self.lines@) == blank_lines(k as nat, self.cols as nat),
                lines_view(self.scrollback@) == capped(old_sb + old_lines, self.max_scrollback as nat),
                old_sb == old(self)@.scrollback,
                old_lines == old(self)@.lines,
                self.rows == old(self).rows,
                self.cols == old(self).cols,
                self.max_scrollback == old(self).max_scrollback,
                self.scroll_offset == old(self).scroll_offset,
            decreases n - k,
        {
            let l = Line::new(self.cols);
            proof {
                lemma_lines_push(self.lines@, l);
                assert(blank_lines(k as nat, self.cols as nat).push(l@) =~= blank_lines((k + 1) as nat, self.cols as nat));
            }
            self.lines.push(l);
            k += 1;
        }
        proof {
            let a = old_sb + old_lines;
            assert(a.len() >= old_sb.len());
        }
    }

    /// Set scroll offset for viewing scrollback
    pub fn set_scroll_offset(&mut self, offset: usize)
        requires
            old(self).wf(),
        ensures
            final(self).wf(),
            final(self)@ == (GridView {
                scroll_offset: if offset <= old(self)@.scrollback.len() {
                    offset as nat
                } else {
                    old(self)@.scrollback.len()
                },
                ..old(self)@
            }),
    {
        let len = self.scrollback.len();
        self.scroll_offset = if offset < len { offset } else { len };
    }

    /// Scroll viewport up (into scrollback)
    pub fn scroll_viewport_up(&mut self, n: usize)
        requires
            old(self).wf(),
        ensures
            final(self).wf(),
            final(self)@ == old(self)@.viewport_up(n as nat),
    {
        let len = self.scrollback.len();
        if n < len - self.scroll_offset {
            self.scroll_offset = self.scroll_offset + n;
        } else {
            self.scroll_offset = len;
        }
    }

    /// Scroll viewport down (toward bottom)
    pub fn scroll_viewport_down(&mut self, n: usize)
        requires
            old(self).wf(),
        ensures
            final(self).wf(),
            final(self)@ == old(self)@.viewport_down(n as nat),
    {
        self.scroll_offset = if self.scroll_offset >= n { self.scroll_offset - n } else { 0 };
    }

    /// Reset viewport to bottom
    pub fn reset_viewport(&mut self)
        requires
            old(self).wf(),
        ensures
            final(self).wf(),
            final(self)@ == (GridView { scroll_offset: 0, ..old(self)@ }),
    {
        self.scroll_offset = 0;
    }

    /// Check if viewport is at bottom
    pub fn is_at_bottom(&self) -> (r: bool)
        ensures
            r == (self@.scroll_offset == 0),
    {
        self.scroll_offset == 0
    }

    /// Get visible lines (accounts for scroll offset): the screen's rows
    /// starting `scroll_offset` lines back in the scrollback followed by the
    /// display.
    pub fn visible_lines(&self) -> (r: Vec<&Line>)
        requires
            self.wf(),
        ensures
            r@.len() == self@.rows,
            forall|i: int|
                0 <= i < r@.len() ==> #[trigger] r@[i]@ == (self@.scrollback + self@.lines)[self@.scrollback.len()
                    - self@.scroll_offset + i],
    {
        let sb_len = self.scrollback.len();
        let visible = self.scroll_offset;
        let start = sb_len - visible;
        let ghost all = self@.scrollback + self@.lines;
        let mut r: Vec<&Line> = Vec::new();
        let mut i: usize = 0;
        while i < self.rows
            invariant
                i <= self.rows,
                self.wf(),
                sb_len == self.scrollback@.len(),
                visible == self.scroll_offset,
                start == sb_len - visible,
                all == self@.scrollback + self@.lines,
                r@.len() == i,
                forall|j: int| 0 <= j < r@.len() ==> #[trigger] r@[j]@ == all[start + j],
            decreases self.rows - i,
        {
            if i < visible {
                assert(lines_view(self.scrollback@)[(start + i) as int] == self.scrollback@[(start + i) as int]@);
                assert(all[start + i] == self@.scrollback[start + i]);
                r.push(&self.scrollback[start + i]);
            } else {
                let k = i - visible;
                assert(lines_view(self.lines@)[k as int] == self.lines@[k as int]@);
                assert(all[start + i] == self@.lines[k as int]);
                r.push(&self.lines[k]);
            }
            i += 1;
        }
        r
    }

    /// Erase from (`row`, `col`) to the end of the display.
    pub fn erase_below(&mut self, row: usize, col: usize)
        requires
            old(self).wf(),
            row < usize::MAX,
        ensures
            final(self).wf(),
            final(self)@ == old(self)@.erased_below(row as int, col as int),
    {
        let ghost old_lines = self@.lines;
        let ghost target = old(self)@.erased_below(row as int, col as int).lines;
        if row < self.lines.len() {
            let ghost before = self.lines@;
            assert(lines_view(before)[row as int] == before[row as int]@);
            self.lines[row].clear_from(col);
            assert(self.lines@ == before.update(row as int, self.lines@[row as int]));
            proof {
                lemma_lines_set(before, self.lines@, row as int);
            }
        }
        let mut r = row + 1;
        while r < self.rows
            invariant
                row < r,
                self.lines@.len() == self.rows,
                old_lines == old(self)@.lines,
                target == old(self)@.erased_below(row as int, col as int).lines,
                self.scrollback == old(self).scrollback,
                self.rows == old(self).rows,
                self.cols == old(self).cols,
                self.max_scrollback == old(self).max_scrollback,
                self.scroll_offset == old(self).scroll_offset,
                old(self).wf(),
                forall|j: int|
                    0 <= j < self.rows ==> #[trigger] lines_view(self.lines@)[j] == (if j <= row || j < r {
                        target[j]
                    } else {
                        old_lines[j]
                    }),
            decreases self.rows - r,
        {
            let ghost before = self.lines@;
            assert(lines_view(before)[r as int] == before[r as int]@);
            self.lines[r].clear();
            assert(self.lines@ == before.update(r as int, self.lines@[r as int]));
            proof {
                lemma_lines_set(before, self.lines@, r as int);
            }
            r += 1;
        }
        proof {
            assert(lines_view(self.lines@) =~= target);
            assert forall|j: int| 0 <= j < target.len() implies #[trigger] target[j].cells.len() == self.cols by {
                assert(old_lines[j].cells.len() == self.cols);
            }
        }
    }

    /// Erase from the start of the display to (`row`, `col`) inclusive.
    pub fn erase_above(&mut self, row: usize, col: usize)
        requires
            old(self).wf(),
            col < usize::MAX,
        ensures
            final(self).wf(),
            final(self)@ == old(self)@.erased_above(row as int, col as int),
    {
        let ghost old_lines = self@.lines;
        let ghost target = old(self)@.erased_above(row as int, col as int).lines;
        let mut r: usize = 0;
        while r < row && r < self.rows
            invariant
                r <= row,
                self.lines@.len() == self.rows,
                old_lines == old(self)@.lines,
                target == old(self)@.erased_above(row as int, col as int).lines,
                self.scrollback == old(self).scrollback,
                self.rows == old(self).rows,
                self.cols == old(self).cols,
                self.max_scrollback == old(self).max_scrollback,
                self.scroll_offset == old(self).scroll_offset,
                old(self).wf(),
                forall|j: int|
                    0 <= j < self.rows ==> #[trigger] lines_view(self.lines@)[j] == (if j < r {
                        target[j]
                    } else {
                        old_lines[j]
                    }),
            decreases row - r,
        {
            let ghost before = self.lines@;
            assert(lines_view(before)[r as int] == before[r as int]@);
            self.lines[r].clear();
            assert(self.lines@ == before.update(r as int, self.lines@[r as int]));
            proof {
                lemma_lines_set(before, self.lines@, r as int);
            }
            r += 1;
        }
        if row < self.lines.len() {
            let ghost before = self.lines@;
            assert(lines_view(before)[row as int] == before[row as int]@);
            self.lines[row].clear_to(col);
            assert(self.lines@ == before.update(row as int, self.lines@[row as int]));
            proof {
                lemma_lines_set(before, self.lines@, row as int);
            }
        }
        proof {
            assert(lines_view(self.lines@) =~= target);
            assert forall|j: int| 0 <= j < target.len() implies #[trigger] target[j].cells.len() == self.cols by {
                assert(old_lines[j].cells.len() == self.cols);
            }
        }
    }

    /// Replace every character of the display with `c` (screen alignment test).
    pub fn fill(&mut self, c: char)
        requires
            old(self).wf(),
        ensures
            final(self).wf(),
            final(self)@ == old(self)@.filled(c),
    {
        let ghost old_lines = self@.lines;
        let ghost target = old(self)@.filled(c).lines;
        let mut r: usize = 0;
        while r < self.rows
            invariant
                r <= self.rows,
                self.lines@.len() == self.rows,
                old_lines == old(self)@.lines,
                target == old(self)@.filled(c).lines,
                self.scrollback == old(self).scrollback,
                self.rows == old(self).rows,
                self.cols == old(self).cols,
                self.max_scrollback == old(self).max_scrollback,
                self.scroll_offset == old(self).scroll_offset,
                old(self).wf(),
                forall|j: int|
                    0 <= j < self.rows ==> #[trigger] lines_view(self.lines@)[j] == (if j < r {
                        target[j]
                    } else {
                        old_lines[j]
                    }),
            decreases self.rows - r,
        {
            let ghost before = self.lines@;
            assert(lines_view(before)[r as int] == before[r as int]@);
            self.lines[r].fill(c);
            assert(self.lines@ == before.update(r as int, self.lines@[r as int]));
            proof {
                lemma_lines_set(before, self.lines@, r as int);
            }
            r += 1;
        }
        proof {
            assert(lines_view(self.lines@) =~= target);
            assert forall|j: int| 0 <= j < target.len() implies #[trigger] target[j].cells.len() == self.cols by {
                assert(old_lines[j].cells.len() == self.cols);
            }
        }
    }

    /// Erase in display relative to cursor (`row`, `col`).
    pub fn erase_display(&mut self, mode: u16, row: usize, col: usize)
        requires
            old(self).wf(),
            row < usize::MAX,
            col < usize::MAX,
        ensures
            final(self).wf(),
            final(self)@ == old(self)@.display_erased(mode, row as int, col as int),
    {
        if mode == 0 {
            self.erase_below(row, col);
        } else if mode == 1 {
            self.erase_above(row, col);
        } else if mode == 2 {
            self.clear_saving_scrollback();
        } else if mode == 3 {
            self.clear_all();
        }
    }
}

/// Scrolling the viewport down by as many lines as it was just scrolled up
/// brings it back where it was, when the scrollback had that many lines
/// above the viewport.
pub proof fn lemma_viewport_down_undoes_up(g: GridView, n: nat)
    requires
        g.scroll_offset + n <= g.scrollback.len(),
    ensures
        g.viewport_up(n).viewport_down(n) == g,
{
}

} // verus!
