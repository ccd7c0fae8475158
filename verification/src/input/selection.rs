//! Text selection handling for copy/paste
use vstd::prelude::*;
use crate::terminal::cell::CellView;
use crate::terminal::grid::{Grid, LineView};
use crate::text::{tidy_lines, tidied, is_alphanumeric, char_is_alphanumeric};

verus! {

/// Selection mode
#[derive(Debug, Clone, Copy, PartialEq, Eq, Structural)]
pub enum SelectionMode {
    /// Character-by-character selection
    Normal,
    /// Whole line selection
    Line,
    /// Rectangular block selection
    Block,
}

impl Default for SelectionMode {
    fn default() -> (r: Self)
        ensures
            r == SelectionMode::Normal,
    {
        SelectionMode::Normal
    }
}

/// A point in the terminal grid
#[derive(Debug, Clone, Copy, PartialEq, Eq, Structural)]
pub struct SelectionPoint {
    pub row: usize,
    pub col: usize,
}

impl SelectionPoint {
    pub fn new(row: usize, col: usize) -> (r: Self)
        ensures
            r == (SelectionPoint { row, col }),
    {
        SelectionPoint { row, col }
    }
}

/// Text selection state
#[derive(Debug, Clone)]
pub struct Selection {
    start: Option<SelectionPoint>,
    end: Option<SelectionPoint>,
    mode: SelectionMode,
    active: bool,
}

/// Mathematical model of a selection.
pub struct SelectionView {
    pub start: Option<SelectionPoint>,
    pub end: Option<SelectionPoint>,
    pub mode: SelectionMode,
    pub active: bool,
}

impl View for Selection {
    type V = SelectionView;

    closed spec fn view(&self) -> SelectionView {
        SelectionView { start: self.start, end: self.end, mode: self.mode, active: self.active }
    }
}

/// Whether `a` comes before or at `b` in reading order.
pub open spec fn point_le(a: SelectionPoint, b: SelectionPoint) -> bool {
    a.row < b.row || (a.row == b.row && a.col <= b.col)
}

/// The two ends of a selection in reading order.
pub open spec fn selection_bounds(s: SelectionView) -> Option<(SelectionPoint, SelectionPoint)> {
    match (s.start, s.end) {
        (Some(a), Some(b)) => if point_le(a, b) { Some((a, b)) } else { Some((b, a)) },
        _ => None,
    }
}

/// Whether a selection covers the cell at `row`, `col`: in normal mode the
/// cells from the first end to the second in reading order, in line mode
/// whole rows, in block mode the rectangle the ends span.
pub open spec fn selection_covers(s: SelectionView, row: usize, col: usize) -> bool {
    match selection_bounds(s) {
        None => false,
        Some((a, b)) => match s.mode {
            SelectionMode::Normal => {
                &&& a.row <= row <= b.row
                &&& (row == a.row ==> col >= a.col)
                &&& (row == b.row ==> col <= b.col)
            },
            SelectionMode::Line => a.row <= row <= b.row,
            SelectionMode::Block => {
                let lo = if a.col <= b.col { a.col } else { b.col };
                let hi = if a.col <= b.col { b.col } else { a.col };
                a.row <= row <= b.row && lo <= col <= hi
            },
        },
    }
}

/// The characters of cells `lo..hi` (NUL cells left out).
pub open spec fn cell_chars(cells: Seq<CellView>, lo: int, hi: int) -> Seq<char>
    decreases hi - lo,
{
    if hi <= lo {
        Seq::empty()
    } else {
        cell_chars(cells, lo, hi - 1) + (if cells[hi - 1].c != '\0' {
            seq![cells[hi - 1].c]
        } else {
            Seq::empty()
        })
    }
}

/// The smaller of two integers.
pub open spec fn min_of(a: int, b: int) -> int {
    if a <= b { a } else { b }
}

/// The last column before `n` whose cell holds something other than a space
/// or NUL; 0 when there is none.
pub open spec fn last_text_col(cells: Seq<CellView>, n: int) -> int
    decreases n,
{
    if n <= 0 {
        0
    } else if cells[n - 1].c != ' ' && cells[n - 1].c != '\0' {
        n - 1
    } else {
        last_text_col(cells, n - 1)
    }
}

/// Whether a screen `cols` wide fits lines of `width` cells for copying in
/// `mode`: never wider, and at least one column (a line selection reads the
/// first cell even then).
pub open spec fn cols_fit(mode: SelectionMode, cols: int, width: int) -> bool {
    &&& cols <= width
    &&& if mode == SelectionMode::Line {
        width >= 1
    } else {
        cols >= 1
    }
}

/// The text that selected screen row `row` contributes (before lines are
/// tidied), in a selection from `a` to `b` on a screen `cols` wide.
pub open spec fn row_text(l: LineView, mode: SelectionMode, a: SelectionPoint, b: SelectionPoint, cols: int, row: int) -> Seq<char> {
    let newline: Seq<char> = seq!['\n'];
    match mode {
        SelectionMode::Normal => {
            let sc = if row == a.row { a.col as int } else { 0 };
            let ec = if row == b.row { b.col as int } else { cols - 1 };
            cell_chars(l.cells, sc, min_of(ec, cols - 1) + 1) + (if row != b.row && !l.wrapped {
                newline
            } else {
                Seq::empty()
            })
        },
        SelectionMode::Line => cell_chars(l.cells, 0, last_text_col(l.cells, cols) + 1) + (if row != b.row {
            newline
        } else {
            Seq::empty()
        }),
        SelectionMode::Block => {
            let lo = if a.col <= b.col { a.col as int } else { b.col as int };
            let hi = if a.col <= b.col { b.col as int } else { a.col as int };
            cell_chars(l.cells, lo, min_of(hi, cols - 1) + 1) + (if row != b.row {
                newline
            } else {
                Seq::empty()
            })
        },
    }
}

/// The text of the selected rows from `a.row` up to (not including) `upto`.
pub open spec fn rows_text(
    lines: Seq<LineView>,
    mode: SelectionMode,
    a: SelectionPoint,
    b: SelectionPoint,
    cols: int,
    upto: int,
) -> Seq<char>
    decreases upto - a.row,
{
    if upto <= a.row {
        Seq::empty()
    } else {
        rows_text(lines, mode, a, b, cols, upto - 1) + row_text(lines[upto - 1], mode, a, b, cols, upto - 1)
    }
}

/// The text of a selection: the selected rows of the screen (those that
/// exist), each line with its trailing white space removed.
pub open spec fn selected_text(s: SelectionView, lines: Seq<LineView>, cols: int) -> Seq<char> {
    match selection_bounds(s) {
        None => Seq::empty(),
        Some((a, b)) => tidied(rows_text(lines, s.mode, a, b, cols, min_of(b.row + 1, lines.len() as int))),
    }
}

impl Selection {
    pub fn new() -> (r: Self)
        ensures
            r@ == (SelectionView { start: None, end: None, mode: SelectionMode::Normal, active: false }),
    {
        Selection { start: None, end: None, mode: SelectionMode::Normal, active: false }
    }

    /// Start a new selection
    pub fn start(&mut self, row: usize, col: usize, mode: SelectionMode)
        ensures
            final(self)@ == (SelectionView {
                start: Some(SelectionPoint { row, col }),
                end: Some(SelectionPoint { row, col }),
                mode,
                active: true,
            }),
    {
        self.start = Some(SelectionPoint::new(row, col));
        self.end = Some(SelectionPoint::new(row, col));
        self.mode = mode;
        self.active = true;
    }

    /// Update selection end point
    pub fn update(&mut self, row: usize, col: usize)
        ensures
            final(self)@ == (if old(self)@.active {
                SelectionView { end: Some(SelectionPoint { row, col }), ..old(self)@ }
            } else {
                old(self)@
            }),
    {
        if self.active {
            self.end = Some(SelectionPoint::new(row, col));
        }
    }

    /// Finish selection (mouse released)
    pub fn finish(&mut self)
        ensures
            final(self)@ == (SelectionView { active: false, ..old(self)@ }),
    {
        self.active = false;
    }

    /// Clear selection
    pub fn clear(&mut self)
        ensures
            final(self)@ == (SelectionView { start: None, end: None, active: false, ..old(self)@ }),
    {
        self.start = None;
        self.end = None;
        self.active = false;
    }

    /// Check if selection is empty
    pub fn is_empty(&self) -> (r: bool)
        ensures
            r == (self@.start is None || self@.end is None),
    {
        self.start.is_none() || self.end.is_none()
    }

    /// Check if selection is active (being dragged)
    pub fn is_active(&self) -> (r: bool)
        ensures
            r == self@.active,
    {
        self.active
    }

    /// Get selection mode
    pub fn mode(&self) -> (r: SelectionMode)
        ensures
            r == self@.mode,
    {
        self.mode
    }

    /// Get normalized selection bounds (start before end)
    pub fn bounds(&self) -> (r: Option<(SelectionPoint, SelectionPoint)>)
        ensures
            r == selection_bounds(self@),
    {
        match (self.start, self.end) {
            (Some(start), Some(end)) => {
                if start.row < end.row || (start.row == end.row && start.col <= end.col) {
                    Some((start, end))
                } else {
                    Some((end, start))
                }
            },
            _ => None,
        }
    }

    /// Check if a cell is within the selection
    pub fn contains(&self, row: usize, col: usize, _cols: usize) -> (r: bool)
        ensures
            r == selection_covers(self@, row, col),
    {
        let (start, end) = match self.bounds() {
            Some(b) => b,
            None => {
                return false;
            },
        };
        match self.mode {
            SelectionMode::Normal => {
                if row < start.row || row > end.row {
                    return false;
                }
                if row == start.row && row == end.row {
                    col >= start.col && col <= end.col
                } else if row == start.row {
                    col >= start.col
                } else if row == end.row {
                    col <= end.col
                } else {
                    true
                }
            },
            SelectionMode::Line => row >= start.row && row <= end.row,
            SelectionMode::Block => {
                let (min_col, max_col) = if start.col <= end.col {
                    (start.col, end.col)
                } else {
                    (end.col, start.col)
                };
                row >= start.row && row <= end.row && col >= min_col && col <= max_col
            },
        }
    }

    /// Extract selected text from grid
    pub fn get_text(&self, grid: &Grid, cols: usize) -> (r: String)
        requires
            grid.wf(),
            match selection_bounds(self@) {
                Some((a, _)) => a.row < grid@.rows ==> cols_fit(self@.mode, cols as int, grid@.cols as int),
                None => true,
            },
        ensures
            r@ == selected_text(self@, grid@.lines, cols as int),
    {
        let (start, end) = match self.bounds() {
            Some(b) => b,
            None => {
                return String::new();
            },
        };
        let rows = grid.rows();
        let stop = if end.row < rows { end.row + 1 } else { rows };
        let mut raw: Vec<char> = Vec::new();
        let mut row = start.row;
        let ghost lines = grid@.lines;
        if row < stop {
            while row < stop
                invariant
                    start.row <= row <= stop,
                    stop <= lines.len(),
                    lines == grid@.lines,
                    grid.wf(),
                    cols_fit(self.mode, cols as int, grid@.cols as int),
                    raw@ == rows_text(lines, self@.mode, start, end, cols as int, row as int),
                decreases stop - row,
            {
                match grid.line(row) {
                    Some(line) => {
                        let cells = line.iter();
                        assert(lines[row as int].cells.len() == grid@.cols);
                        assert(cells@.len() == lines[row as int].cells.len());
                        Self::push_row(&mut raw, cells, line.is_wrapped(), self.mode, start, end, cols, row);
                        assert(LineView { cells: cells@.map_values(|c: crate::terminal::cell::Cell| c@), wrapped: line@.wrapped } == lines[row as int]);
                    },
                    None => {},
                }
                row += 1;
            }
        }
        tidy_lines(&raw)
    }

    /// Append what row `row` (with cells `cells`) contributes to the text.
    fn push_row(
        raw: &mut Vec<char>,
        cells: &Vec<crate::terminal::cell::Cell>,
        wrapped: bool,
        mode: SelectionMode,
        start: SelectionPoint,
        end: SelectionPoint,
        cols: usize,
        row: usize,
    )
        requires
            cols_fit(mode, cols as int, cells@.len() as int),
        ensures
            final(raw)@ == old(raw)@ + row_text(
                LineView { cells: cells@.map_values(|c: crate::terminal::cell::Cell| c@), wrapped },
                mode,
                start,
                end,
                cols as int,
                row as int,
            ),
    {
        let ghost cv = cells@.map_values(|c: crate::terminal::cell::Cell| c@);
        match mode {
            SelectionMode::Normal => {
                let sc = if row == start.row { start.col } else { 0 };
                let ec = if row == end.row { end.col } else { cols - 1 };
                let hi = if ec <= cols - 1 { ec } else { cols - 1 };
                Self::push_cells(raw, cells, sc, hi + 1);
                if row != end.row && !wrapped {
                    raw.push('\n');
                }
            },
            SelectionMode::Line => {
                let mut last: usize = 0;
                let mut c: usize = 0;
                while c < cols
                    invariant
                        c <= cols <= cells@.len(),
                        cv == cells@.map_values(|c: crate::terminal::cell::Cell| c@),
                        last as int == last_text_col(cv, c as int),
                        last == 0 || last < cols,
                        cells@.len() >= 1,
                    decreases cols - c,
                {
                    assert(cv[c as int] == cells@[c as int]@);
                    if cells[c].c != ' ' && cells[c].c != '\0' {
                        last = c;
                    }
                    c += 1;
                }
                Self::push_cells(raw, cells, 0, last + 1);
                if row != end.row {
                    raw.push('\n');
                }
            },
            SelectionMode::Block => {
                let (lo, hi) = if start.col <= end.col {
                    (start.col, end.col)
                } else {
                    (end.col, start.col)
                };
                let top = if hi <= cols - 1 { hi } else { cols - 1 };
                Self::push_cells(raw, cells, lo, top + 1);
                if row != end.row {
                    raw.push('\n');
                }
            },
        }
    }

    /// Append the characters of cells `lo..hi` (NUL cells left out).
    fn push_cells(raw: &mut Vec<char>, cells: &Vec<crate::terminal::cell::Cell>, lo: usize, hi: usize)
        requires
            hi <= cells@.len(),
        ensures
            final(raw)@ == old(raw)@ + cell_chars(
                cells@.map_values(|c: crate::terminal::cell::Cell| c@),
                lo as int,
                hi as int,
            ),
    {
        let ghost cv = cells@.map_values(|c: crate::terminal::cell::Cell| c@);
        let ghost before = raw@;
        if lo >= hi {
            assert(raw@ =~= before + cell_chars(cv, lo as int, hi as int));
            return;
        }
        let mut k = lo;
        assert(raw@ =~= before + cell_chars(cv, lo as int, lo as int));
        while k < hi
            invariant
                lo <= k <= hi <= cells@.len(),
                cv == cells@.map_values(|c: crate::terminal::cell::Cell| c@),
                raw@ == before + cell_chars(cv, lo as int, k as int),
            decreases hi - k,
        {
            assert(cv[k as int] == cells@[k as int]@);
            let c = cells[k].c;
            if c != '\0' {
                raw.push(c);
            }
            k += 1;
            assert(raw@ =~= before + cell_chars(cv, lo as int, k as int));
        }
    }

    /// Select word at position
    pub fn select_word(&mut self, row: usize, col: usize, grid: &Grid, cols: usize)
        requires
            grid.wf(),
            1 <= cols <= grid@.cols,
            row < grid@.lines.len() ==> col < cols,
        ensures
            row >= grid@.lines.len() ==> final(self)@ == old(self)@,
            row < grid@.lines.len() ==> final(self)@ == ({
                let cells = grid@.lines[row as int].cells;
                SelectionView {
                    start: Some(SelectionPoint { row, col: word_start(cells, col as int) as usize }),
                    end: Some(SelectionPoint { row, col: word_end(cells, col as int, cols as int) as usize }),
                    mode: SelectionMode::Normal,
                    active: false,
                }
            }),
    {
        let line = match grid.line(row) {
            Some(l) => l,
            None => {
                return;
            },
        };
        let cells = line.iter();
        let ghost cv = grid@.lines[row as int].cells;
        assert(cv == cells@.map_values(|c: crate::terminal::cell::Cell| c@));
        // Find word boundaries
        let mut start_col = col;
        let mut end_col = col;
        while start_col > 0 && Self::is_word_char(cells[start_col - 1].c)
            invariant
                start_col <= col < cols <= cells@.len(),
                cv == cells@.map_values(|c: crate::terminal::cell::Cell| c@),
                word_start(cv, col as int) == word_start(cv, start_col as int),
            decreases start_col,
        {
            assert(cv[start_col - 1] == cells@[start_col - 1]@);
            start_col -= 1;
        }
        if start_col > 0 {
            assert(cv[start_col - 1] == cells@[start_col - 1]@);
        }
        while end_col < cols - 1 && Self::is_word_char(cells[end_col + 1].c)
            invariant
                col <= end_col < cols <= cells@.len(),
                cv == cells@.map_values(|c: crate::terminal::cell::Cell| c@),
                word_end(cv, col as int, cols as int) == word_end(cv, end_col as int, cols as int),
            decreases cols - end_col,
        {
            assert(cv[end_col + 1] == cells@[end_col + 1]@);
            end_col += 1;
        }
        if end_col < cols - 1 {
            assert(cv[end_col + 1] == cells@[end_col + 1]@);
        }
        self.start = Some(SelectionPoint::new(row, start_col));
        self.end = Some(SelectionPoint::new(row, end_col));
        self.mode = SelectionMode::Normal;
        self.active = false;
    }

    /// Whether a character belongs to a word: alphanumeric or `_`.
    fn is_word_char(c: char) -> (r: bool)
        ensures
            r == word_char(c),
    {
        is_alphanumeric(c) || c == '_'
    }

    /// Select entire line
    pub fn select_line(&mut self, row: usize, cols: usize)
        requires
            cols >= 1,
        ensures
            final(self)@ == (SelectionView {
                start: Some(SelectionPoint { row, col: 0 }),
                end: Some(SelectionPoint { row, col: (cols - 1) as usize }),
                mode: SelectionMode::Line,
                active: false,
            }),
    {
        self.start = Some(SelectionPoint::new(row, 0));
        self.end = Some(SelectionPoint::new(row, cols - 1));
        self.mode = SelectionMode::Line;
        self.active = false;
    }

    /// Select all visible content
    pub fn select_all(&mut self, rows: usize, cols: usize)
        requires
            rows >= 1,
            cols >= 1,
        ensures
            final(self)@ == (SelectionView {
                start: Some(SelectionPoint { row: 0, col: 0 }),
                end: Some(SelectionPoint { row: (rows - 1) as usize, col: (cols - 1) as usize }),
                mode: SelectionMode::Normal,
                active: false,
            }),
    {
        self.start = Some(SelectionPoint::new(0, 0));
        self.end = Some(SelectionPoint::new(rows - 1, cols - 1));
        self.mode = SelectionMode::Normal;
        self.active = false;
    }
}

impl Default for Selection {
    fn default() -> (r: Self)
        ensures
            r@ == (SelectionView { start: None, end: None, mode: SelectionMode::Normal, active: false }),
    {
        Selection::new()
    }
}

/// Whether a character belongs to a word: alphanumeric or `_`.
pub open spec fn word_char(c: char) -> bool {
    char_is_alphanumeric(c) || c == '_'
}

/// The first column of the word around `col`: moving left while the cell
/// to the left holds a word character.
pub open spec fn word_start(cells: Seq<CellView>, col: int) -> int
    decreases col,
{
    if col > 0 && word_char(cells[col - 1].c) {
        word_start(cells, col - 1)
    } else {
        col
    }
}

/// The last column of the word around `col`: moving right while the cell to
/// the right (before the last column) holds a word character.
pub open spec fn word_end(cells: Seq<CellView>, col: int, cols: int) -> int
    decreases cols - col,
{
    if col < cols - 1 && word_char(cells[col + 1].c) {
        word_end(cells, col + 1, cols)
    } else {
        col
    }
}

/// The selection with its two ends swapped.
pub open spec fn reversed(s: SelectionView) -> SelectionView {
    SelectionView { start: s.end, end: s.start, ..s }
}

/// Which way a selection was dragged does not matter: with its ends swapped
/// it covers the same cells and yields the same text.
pub proof fn lemma_selection_direction_irrelevant(s: SelectionView, lines: Seq<LineView>, cols: int)
    ensures
        selection_bounds(reversed(s)) == selection_bounds(s),
        forall|row: usize, col: usize| #[trigger]
            selection_covers(reversed(s), row, col) == selection_covers(s, row, col),
        selected_text(reversed(s), lines, cols) == selected_text(s, lines, cols),
{
    match (s.start, s.end) {
        (Some(a), Some(b)) => {
            if point_le(a, b) && point_le(b, a) {
                assert(a == b);
            }
        },
        _ => {},
    }
}

/// Both ends of a selection are covered by it, whatever its mode.
pub proof fn lemma_selection_covers_ends(s: SelectionView)
    ensures
        s.start is Some && s.end is Some ==> selection_covers(s, s.start->0.row, s.start->0.col),
        s.start is Some && s.end is Some ==> selection_covers(s, s.end->0.row, s.end->0.col),
{
}

/// Clicks closer together than this many milliseconds count as one
/// double or triple click.
pub const MULTI_CLICK_MS: u64 = 400;

/// The click count after a left click `elapsed_ms` after the previous one.
pub fn next_click_count(count: u32, elapsed_ms: u64) -> (r: u32)
    requires
        count < u32::MAX,
    ensures
        r == (if elapsed_ms < MULTI_CLICK_MS { count + 1 } else { 1 }),
{
    if elapsed_ms < MULTI_CLICK_MS {
        count + 1
    } else {
        1
    }
}

/// What a left click does to the selection.
#[derive(Debug, Clone, Copy, PartialEq, Eq, Structural)]
pub enum ClickAction {
    /// Start a new selection here (block mode with ctrl)
    Start(SelectionMode),
    /// Select the word under the pointer
    Word,
    /// Select the line under the pointer
    Line,
}

/// A single click starts a selection, a double click selects a word, more
/// clicks select the line.
pub fn click_action(count: u32, ctrl: bool) -> (r: ClickAction)
    ensures
        r == (if count <= 1 {
            ClickAction::Start(if ctrl { SelectionMode::Block } else { SelectionMode::Normal })
        } else if count == 2 {
            ClickAction::Word
        } else {
            ClickAction::Line
        }),
{
    if count <= 1 {
        ClickAction::Start(if ctrl { SelectionMode::Block } else { SelectionMode::Normal })
    } else if count == 2 {
        ClickAction::Word
    } else {
        ClickAction::Line
    }
}

impl Selection {
    /// The bounds of a selection that spans more than the one cell a plain
    /// click marks (what is highlighted and copied).
    pub fn visible_bounds(&self) -> (r: Option<(SelectionPoint, SelectionPoint)>)
        ensures
            r == (match selection_bounds(self@) {
                Some((a, b)) => if a == b { None } else { Some((a, b)) },
                None => None,
            }),
    {
        match self.bounds() {
            Some((a, b)) => {
                if a.row == b.row && a.col == b.col {
                    None
                } else {
                    Some((a, b))
                }
            },
            None => None,
        }
    }
}

} // verus!
