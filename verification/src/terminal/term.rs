use vstd::prelude::*;
use std::collections::{HashMap, VecDeque};
use super::cell::{CellAttrs, CellColor, CellView, plain_attrs};
use super::cursor::{Cursor, CursorStyle, SavedCursor};
use super::grid::{Grid, GridView, LineView, blank_lines, blank_line, blank_range, cells_inserted, cells_deleted};
use super::modes::{TerminalModes, initial_modes};
use super::sgr::Pen;
use crate::text::{base64_encode, base64_padded};

verus! {

broadcast use vstd::std_specs::hash::group_hash_axioms;

/// Clipboard selection type
#[derive(Debug, Clone, Copy, PartialEq, Eq, Structural)]
pub enum ClipboardSelection {
    /// System clipboard
    Clipboard,
    /// Primary selection (X11)
    Primary,
    /// Both clipboard and primary
    Both,
}

/// Clipboard operation requested by the terminal
#[derive(Debug)]
pub enum ClipboardEvent {
    /// Terminal is requesting clipboard contents
    Query(ClipboardSelection),
    /// Terminal wants to set clipboard contents (already base64 decoded)
    Store(ClipboardSelection, Vec<u8>),
    /// Terminal wants to clear clipboard
    Clear(ClipboardSelection),
}

/// Mathematical model of a clipboard event.
pub enum ClipboardEventView {
    Query(ClipboardSelection),
    Store(ClipboardSelection, Seq<u8>),
    Clear(ClipboardSelection),
}

impl View for ClipboardEvent {
    type V = ClipboardEventView;

    open spec fn view(&self) -> ClipboardEventView {
        match self {
            ClipboardEvent::Query(s) => ClipboardEventView::Query(*s),
            ClipboardEvent::Store(s, d) => ClipboardEventView::Store(*s, d@),
            ClipboardEvent::Clear(s) => ClipboardEventView::Clear(*s),
        }
    }
}

/// Maximum number of scrollback lines of the primary screen.
pub const SCROLLBACK_LINES: usize = 10000;

/// Mathematical model of the terminal state.
pub struct TermView {
    pub grid: GridView,
    pub alt_grid: Option<GridView>,
    pub cursor: Cursor,
    pub attrs: CellAttrs,
    pub fg: CellColor,
    pub bg: CellColor,
    pub modes: TerminalModes,
    pub scroll_top: nat,
    pub scroll_bottom: nat,
    pub tabs: Seq<bool>,
    pub title: Seq<char>,
    pub cwd: Option<Seq<char>>,
    pub cols: nat,
    pub rows: nat,
    pub dirty: bool,
    pub responses: Seq<Seq<u8>>,
    pub bell_pending: bool,
    pub hyperlinks: Map<u16, Seq<char>>,
    pub next_hyperlink_id: u16,
    pub current_hyperlink_id: u16,
    pub clipboard_events: Seq<ClipboardEventView>,
    pub prompt_ready: bool,
}

/// The default tab stops of a terminal `cols` wide: every 8th column from column 8.
pub open spec fn default_tabs(cols: nat) -> Seq<bool> {
    Seq::new(cols, |i: int| i >= 8 && i % 8 == 0)
}

/// The models of a queue of byte vectors.
pub open spec fn byte_seqs(s: Seq<Vec<u8>>) -> Seq<Seq<u8>> {
    s.map_values(|v: Vec<u8>| v@)
}

/// The models of a queue of clipboard events.
pub open spec fn event_views(s: Seq<ClipboardEvent>) -> Seq<ClipboardEventView> {
    s.map_values(|e: ClipboardEvent| e@)
}

/// The largest value a screen dimension or cursor coordinate takes: a `Vec`
/// holds at most `isize::MAX` bytes.
pub open spec fn dim_limit() -> int {
    isize::MAX as int
}

impl TermView {
    /// The invariant of the terminal state.
    pub open spec fn wf(self) -> bool {
        &&& 1 <= self.cols <= dim_limit()
        &&& 1 <= self.rows <= dim_limit()
        &&& self.grid.wf()
        &&& self.grid.cols == self.cols
        &&& self.grid.rows == self.rows
        &&& (self.alt_grid matches Some(a) ==> a.wf() && a.cols == self.cols && a.rows == self.rows)
        &&& self.scroll_top <= self.scroll_bottom < self.rows
        &&& self.tabs.len() == self.cols
        &&& self.cursor.row <= dim_limit()
        &&& self.cursor.col <= dim_limit()
        &&& (self.cursor.saved matches Some(s) ==> s.row <= dim_limit() && s.col <= dim_limit())
    }

    /// The state of a freshly created (or fully reset) terminal.
    pub open spec fn initial(cols: nat, rows: nat) -> TermView {
        TermView {
            grid: GridView {
                lines: blank_lines(rows, cols),
                scrollback: Seq::empty(),
                cols,
                rows,
                max_scrollback: SCROLLBACK_LINES as nat,
                scroll_offset: 0,
            },
            alt_grid: None,
            cursor: Cursor { row: 0, col: 0, style: CursorStyle::Block, visible: true, blink_on: true, saved: None },
            attrs: plain_attrs(),
            fg: CellColor::Default,
            bg: CellColor::Default,
            modes: initial_modes(),
            scroll_top: 0,
            scroll_bottom: (rows - 1) as nat,
            tabs: default_tabs(cols),
            title: Seq::empty(),
            cwd: None,
            cols,
            rows,
            dirty: true,
            responses: Seq::empty(),
            bell_pending: false,
            hyperlinks: Map::empty(),
            next_hyperlink_id: 1,
            current_hyperlink_id: 0,
            clipboard_events: Seq::empty(),
            prompt_ready: false,
        }
    }

    /// The state with the cursor replaced.
    pub open spec fn with_cursor(self, c: Cursor) -> TermView {
        TermView { cursor: c, ..self }
    }

    /// Carriage return: cursor to column 0.
    pub open spec fn carriage_returned(self) -> TermView {
        self.with_cursor(Cursor { col: 0, ..self.cursor })
    }

    /// Line feed: down one row, scrolling the region up when the cursor is at
    /// or below its bottom; in newline mode also back to column 0.
    pub open spec fn line_fed(self) -> TermView {
        let at_bottom = self.cursor.row >= self.scroll_bottom;
        TermView {
            grid: if at_bottom {
                self.grid.scrolled_up(1, self.scroll_top as int, self.scroll_bottom as int)
            } else {
                self.grid
            },
            cursor: Cursor {
                row: if at_bottom { self.cursor.row } else { (self.cursor.row + 1) as usize },
                col: if self.modes.linefeed { 0 } else { self.cursor.col },
                ..self.cursor
            },
            dirty: true,
            ..self
        }
    }

    /// Reverse index: up one row, scrolling the region down when the cursor
    /// is at or above its top.
    pub open spec fn reverse_indexed(self) -> TermView {
        let at_top = self.cursor.row <= self.scroll_top;
        TermView {
            grid: if at_top {
                self.grid.scrolled_down(1, self.scroll_top as int, self.scroll_bottom as int)
            } else {
                self.grid
            },
            cursor: Cursor {
                row: if at_top { self.cursor.row } else { (self.cursor.row - 1) as usize },
                ..self.cursor
            },
            dirty: true,
            ..self
        }
    }

    /// Backspace: left one column, stopping at column 0.
    pub open spec fn backspaced(self) -> TermView {
        self.with_cursor(
            Cursor { col: if self.cursor.col >= 1 { (self.cursor.col - 1) as usize } else { 0 }, ..self.cursor },
        )
    }
}

/// The first tab stop at or after column `from`, if any.
pub open spec fn next_tab_stop(tabs: Seq<bool>, from: int) -> Option<int>
    decreases tabs.len() - from,
{
    if from < 0 || from >= tabs.len() {
        None
    } else if tabs[from] {
        Some(from)
    } else {
        next_tab_stop(tabs, from + 1)
    }
}

impl TermView {
    /// Horizontal tab: to the next tab stop right of the cursor, or the last
    /// column when there is none.
    pub open spec fn tabbed(self) -> TermView {
        let target = match next_tab_stop(self.tabs, self.cursor.col + 1) {
            Some(i) => i,
            None => self.cols - 1,
        };
        self.with_cursor(
            Cursor { col: (if target <= self.cols - 1 { target } else { self.cols - 1 }) as usize, ..self.cursor },
        )
    }

    /// Cursor position from 1-based `row`, `col` (0 counts as 1); in origin
    /// mode rows count from the top of the scroll region and stop at its bottom.
    pub open spec fn cursor_placed(self, row: nat, col: nat) -> TermView {
        let r = if row >= 1 { row - 1 } else { 0 };
        let c = if col >= 1 { col - 1 } else { 0 };
        let (offset, max_row) = if self.modes.origin {
            (self.scroll_top as int, self.scroll_bottom as int)
        } else {
            (0, self.rows - 1)
        };
        self.with_cursor(
            Cursor {
                row: (if r + offset <= max_row { r + offset } else { max_row }) as usize,
                col: (if c <= self.cols - 1 { c } else { self.cols - 1 }) as usize,
                ..self.cursor
            },
        )
    }
}

/// The first tab stop at or after `from`, or `fallback` when there is none.
fn find_tab_stop(tabs: &Vec<bool>, from: usize, fallback: usize) -> (r: usize)
    ensures
        r == match next_tab_stop(tabs@, from as int) {
            Some(i) => i,
            None => fallback as int,
        },
{
    let mut i = from;
    while i < tabs.len() && !tabs[i]
        invariant
            from <= i,
            next_tab_stop(tabs@, from as int) == next_tab_stop(tabs@, i as int),
        decreases tabs@.len() - i,
    {
        i += 1;
    }
    if i < tabs.len() {
        i
    } else {
        fallback
    }
}

impl TermView {
    /// The cell that printing `c` stores under the current pen.
    pub open spec fn pen_cell(self, c: char) -> CellView {
        CellView { c, extra: None, attrs: self.attrs, fg: self.fg, bg: self.bg }
    }

    /// Before printing: a cursor past the last column wraps to the next line
    /// (marking the line it left as wrapped) with auto-wrap on, and stays on
    /// the last column otherwise.
    pub open spec fn wrap_pending(self) -> TermView {
        if self.cursor.col >= self.cols {
            if self.modes.autowrap {
                let t = self.carriage_returned().line_fed();
                let r = if t.cursor.row >= 1 { t.cursor.row - 1 } else { 0 };
                if r < t.grid.lines.len() {
                    TermView {
                        grid: t.grid.with_line(r, LineView { wrapped: true, ..t.grid.lines[r] }),
                        ..t
                    }
                } else {
                    t
                }
            } else {
                self.with_cursor(Cursor { col: (self.cols - 1) as usize, ..self.cursor })
            }
        } else {
            self
        }
    }

    /// Printing `c`: wrap if pending, store the pen cell at the cursor (when the
    /// cursor is on the screen), advance one column.
    pub open spec fn char_written(self, c: char) -> TermView {
        let t = self.wrap_pending();
        TermView {
            grid: if t.cursor.row < t.rows && t.cursor.col < t.cols {
                t.grid.with_cell(t.cursor.row as int, t.cursor.col as int, t.pen_cell(c))
            } else {
                t.grid
            },
            cursor: Cursor { col: (t.cursor.col + 1) as usize, ..t.cursor },
            dirty: true,
            ..t
        }
    }
}

/// A fresh grid of `cols` x `rows` blank cells with the given scrollback capacity.
pub open spec fn fresh_grid(cols: nat, rows: nat, max_scrollback: nat) -> GridView {
    GridView { lines: blank_lines(rows, cols), scrollback: Seq::empty(), cols, rows, max_scrollback, scroll_offset: 0 }
}

/// The tab stops after a resize to `cols`: existing stops kept, new columns
/// without a stop, and the default stops (every 8th column from 8) set.
pub open spec fn resized_tabs(tabs: Seq<bool>, cols: nat) -> Seq<bool> {
    Seq::new(cols, |i: int| (i >= 8 && i % 8 == 0) || (i < tabs.len() && tabs[i]))
}

impl TermView {
    /// The cells of the cursor's line (meaningful when the cursor row is on the screen).
    pub open spec fn cursor_cells(self) -> Seq<CellView> {
        self.grid.lines[self.cursor.row as int].cells
    }

    /// Erase in display: 0 below the cursor, 1 above it, 2 the display (kept
    /// in the scrollback), 3 the display and the scrollback.
    pub open spec fn display_erased(self, mode: u16) -> TermView {
        TermView {
            grid: self.grid.display_erased(mode, self.cursor.row as int, self.cursor.col as int),
            dirty: true,
            ..self
        }
    }

    /// Erase in line: 0 from the cursor to the end, 1 from the start to the
    /// cursor, 2 the whole line.
    pub open spec fn line_erased(self, mode: u16) -> TermView {
        let row = self.cursor.row as int;
        let cells = self.cursor_cells();
        TermView {
            grid: if row < self.rows {
                if mode == 0 {
                    self.grid.with_line_cells(row, blank_range(cells, self.cursor.col as int, cells.len() as int))
                } else if mode == 1 {
                    self.grid.with_line_cells(row, blank_range(cells, 0, self.cursor.col + 1))
                } else if mode == 2 {
                    self.grid.with_line(row, blank_line(cells.len()))
                } else {
                    self.grid
                }
            } else {
                self.grid
            },
            dirty: true,
            ..self
        }
    }

    /// Insert `n` blank cells at the cursor.
    pub open spec fn blanks_inserted(self, n: int) -> TermView {
        TermView {
            grid: self.grid.with_line_cells(
                self.cursor.row as int,
                cells_inserted(self.cursor_cells(), self.cursor.col as int, n),
            ),
            dirty: true,
            ..self
        }
    }

    /// Delete `n` cells at the cursor.
    pub open spec fn chars_deleted(self, n: int) -> TermView {
        TermView {
            grid: self.grid.with_line_cells(
                self.cursor.row as int,
                cells_deleted(self.cursor_cells(), self.cursor.col as int, n),
            ),
            dirty: true,
            ..self
        }
    }

    /// Erase `n` cells from the cursor (no shifting).
    pub open spec fn chars_erased(self, n: int) -> TermView {
        TermView {
            grid: self.grid.with_line_cells(
                self.cursor.row as int,
                blank_range(self.cursor_cells(), self.cursor.col as int, self.cursor.col + n),
            ),
            dirty: true,
            ..self
        }
    }

    /// Whether the cursor row lies inside the scroll region.
    pub open spec fn cursor_in_region(self) -> bool {
        self.scroll_top <= self.cursor.row <= self.scroll_bottom
    }

    /// Insert `n` blank lines at the cursor row (inside the scroll region).
    pub open spec fn lines_inserted(self, n: int) -> TermView {
        if self.cursor_in_region() {
            TermView {
                grid: self.grid.scrolled_down(n, self.cursor.row as int, self.scroll_bottom as int),
                dirty: true,
                ..self
            }
        } else {
            self
        }
    }

    /// Delete `n` lines at the cursor row (inside the scroll region).
    pub open spec fn lines_removed(self, n: int) -> TermView {
        if self.cursor_in_region() {
            TermView {
                grid: self.grid.lines_deleted(self.cursor.row as int, n, self.scroll_bottom as int),
                dirty: true,
                ..self
            }
        } else {
            self
        }
    }

    /// Set the scroll region from 1-based `top` and `bottom` (clamped to the
    /// screen); ignored unless top is above bottom; then the cursor goes home.
    pub open spec fn region_set(self, top: nat, bottom: nat) -> TermView {
        let t: int = if top >= 1 { top - 1 } else { 0 };
        let b: int = if bottom >= 1 { bottom - 1 } else { 0 };
        let t2: int = if t <= self.rows - 1 { t } else { self.rows - 1 };
        let b2: int = if b <= self.rows - 1 { b } else { self.rows - 1 };
        if t2 < b2 {
            TermView { scroll_top: t2 as nat, scroll_bottom: b2 as nat, ..self }.cursor_placed(1, 1)
        } else {
            self
        }
    }

    /// Switch to the alternate screen: the alternate grid (created blank on
    /// first use) and the displayed grid trade places, and the displayed grid
    /// is then cleared.
    pub open spec fn alt_entered(self) -> TermView {
        let alt = match self.alt_grid {
            Some(a) => a,
            None => fresh_grid(self.cols, self.rows, 0),
        };
        TermView { grid: alt.cleared(), alt_grid: Some(self.grid), dirty: true, ..self }
    }

    /// Switch back: when there is an alternate grid, it and the displayed
    /// grid trade places.
    pub open spec fn primary_restored(self) -> TermView {
        match self.alt_grid {
            Some(a) => TermView { grid: a, alt_grid: Some(self.grid), dirty: true, ..self },
            None => self,
        }
    }

    /// The state after a resize to `cols` x `rows`.
    pub open spec fn resized(self, cols: nat, rows: nat) -> TermView {
        TermView {
            grid: self.grid.resized(cols, rows),
            alt_grid: match self.alt_grid {
                Some(a) => Some(a.resized(cols, rows)),
                None => None,
            },
            tabs: resized_tabs(self.tabs, cols),
            cursor: Cursor {
                col: (if self.cursor.col <= cols - 1 { self.cursor.col as int } else { cols - 1 }) as usize,
                row: (if self.cursor.row <= rows - 1 { self.cursor.row as int } else { rows - 1 }) as usize,
                ..self.cursor
            },
            scroll_top: 0,
            scroll_bottom: (rows - 1) as nat,
            cols,
            rows,
            dirty: true,
            ..self
        }
    }
}

/// The selection letter that OSC 52 uses for a selection.
pub open spec fn selection_letter(sel: ClipboardSelection) -> u8 {
    match sel {
        ClipboardSelection::Clipboard => 0x63,  // 'c'
        ClipboardSelection::Primary => 0x70,  // 'p'
        ClipboardSelection::Both => 0x73,  // 's'
    }
}

/// The OSC 52 reply carrying `data`: ESC ] 5 2 ; sel ; base64(data) BEL.
pub open spec fn clipboard_reply(sel: ClipboardSelection, data: Seq<u8>) -> Seq<u8> {
    seq![0x1bu8, 0x5d, 0x35, 0x32, 0x3b, selection_letter(sel), 0x3b] + vstd::utf8::encode_utf8(
        base64_padded(data),
    ) + seq![0x07u8]
}

impl TermView {
    /// The hyperlink id after `id` (0 is skipped: it means "no hyperlink").
    pub open spec fn hyperlink_id_after(id: u16) -> u16 {
        if id == u16::MAX { 1 } else { (id + 1) as u16 }
    }

    /// Registering `uri` under the next hyperlink id.
    pub open spec fn hyperlink_registered(self, uri: Seq<char>) -> TermView {
        TermView {
            hyperlinks: self.hyperlinks.insert(self.next_hyperlink_id, uri),
            next_hyperlink_id: Self::hyperlink_id_after(self.next_hyperlink_id),
            ..self
        }
    }
}

/// Terminal state machine
pub struct Terminal {
    /// Grid with cells and scrollback
    grid: Grid,
    /// Alternate screen buffer
    alt_grid: Option<Grid>,
    /// Cursor state
    cursor: Cursor,
    /// Current cell attributes (for new characters)
    attrs: CellAttrs,
    /// Current foreground color
    fg: CellColor,
    /// Current background color
    bg: CellColor,
    /// Terminal modes
    modes: TerminalModes,
    /// Scroll region (top, bottom) - 0-indexed, inclusive
    scroll_region: (usize, usize),
    /// Tab stops
    tabs: Vec<bool>,
    /// Terminal title
    title: String,
    /// Current working directory (from OSC 7)
    cwd: Option<String>,
    /// Dimensions
    cols: usize,
    rows: usize,
    /// Dirty flag (needs re-render)
    dirty: bool,
    /// Response queue (bytes to write back to PTY)
    responses: VecDeque<Vec<u8>>,
    /// Bell pending flag
    bell_pending: bool,
    /// Hyperlinks storage (id -> uri)
    hyperlinks: HashMap<u16, String>,
    /// Next hyperlink ID
    next_hyperlink_id: u16,
    /// Current active hyperlink ID (0 = none)
    current_hyperlink_id: u16,
    /// Clipboard events pending processing
    clipboard_events: VecDeque<ClipboardEvent>,
    /// Prompt ready flag (from OSC 133;A - shell integration)
    prompt_ready: bool,
}

impl View for Terminal {
    type V = TermView;

    closed spec fn view(&self) -> TermView {
        TermView {
            grid: self.grid@,
            alt_grid: match self.alt_grid {
                Some(g) => Some(g@),
                None => None,
            },
            cursor: self.cursor,
            attrs: self.attrs,
            fg: self.fg,
            bg: self.bg,
            modes: self.modes,
            scroll_top: self.scroll_region.0 as nat,
            scroll_bottom: self.scroll_region.1 as nat,
            tabs: self.tabs@,
            title: self.title@,
            cwd: match self.cwd {
                Some(s) => Some(s@),
                None => None,
            },
            cols: self.cols as nat,
            rows: self.rows as nat,
            dirty: self.dirty,
            responses: byte_seqs(self.responses@),
            bell_pending: self.bell_pending,
            hyperlinks: self.hyperlinks@.map_values(|s: String| s@),
            next_hyperlink_id: self.next_hyperlink_id,
            current_hyperlink_id: self.current_hyperlink_id,
            clipboard_events: event_views(self.clipboard_events@),
            prompt_ready: self.prompt_ready,
        }
    }
}

impl Terminal {
    /// The terminal's invariant.
    pub open spec fn wf(&self) -> bool {
        self@.wf()
    }

    /// Create a new terminal with the given dimensions
    pub fn new(cols: usize, rows: usize) -> (r: Self)
        requires
            1 <= cols <= dim_limit(),
            1 <= rows <= dim_limit(),
        ensures
            r.wf(),
            r@ == TermView::initial(cols as nat, rows as nat),
    {
        let mut tabs: Vec<bool> = Vec::new();
        let mut i: usize = 0;
        while i < cols
            invariant
                i <= cols,
                tabs@.len() == i,
                forall|j: int| 0 <= j < i ==> #[trigger] tabs@[j] == (j >= 8 && j % 8 == 0),
            decreases cols - i,
        {
            tabs.push(i >= 8 && i % 8 == 0);
            i += 1;
        }
        let r = Terminal {
            grid: Grid::new(cols, rows, SCROLLBACK_LINES),
            alt_grid: None,
            cursor: Cursor::new(),
            attrs: CellAttrs::default(),
            fg: CellColor::Default,
            bg: CellColor::Default,
            modes: TerminalModes::new(),
            scroll_region: (0, rows - 1),
            tabs,
            title: String::new(),
            cwd: None,
            cols,
            rows,
            dirty: true,
            responses: VecDeque::new(),
            bell_pending: false,
            hyperlinks: HashMap::new(),
            next_hyperlink_id: 1,
            current_hyperlink_id: 0,
            clipboard_events: VecDeque::new(),
            prompt_ready: false,
        };
        proof {
            assert(r@.tabs =~= default_tabs(cols as nat));
            assert(r@.responses =~= Seq::<Seq<u8>>::empty());
            assert(r@.clipboard_events =~= Seq::<ClipboardEventView>::empty());
            assert(r@.hyperlinks =~= Map::<u16, Seq<char>>::empty());
        }
        r
    }

    /// Get terminal dimensions
    pub fn cols(&self) -> (r: usize)
        ensures
            r == self@.cols,
    {
        self.cols
    }

    pub fn rows(&self) -> (r: usize)
        ensures
            r == self@.rows,
    {
        self.rows
    }

    /// Get the grid
    pub fn grid(&self) -> (r: &Grid)
        ensures
            r@ == self@.grid,
    {
        &self.grid
    }

    /// Get the cursor
    pub fn cursor(&self) -> (r: &Cursor)
        ensures
            *r == self@.cursor,
    {
        &self.cursor
    }

    /// Get terminal modes
    pub fn modes(&self) -> (r: &TerminalModes)
        ensures
            *r == self@.modes,
    {
        &self.modes
    }

    /// Get terminal title
    pub fn title(&self) -> (r: &str)
        ensures
            r@ == self@.title,
    {
        self.title.as_str()
    }

    /// Current working directory (from OSC 7)
    pub fn cwd(&self) -> (r: Option<&str>)
        ensures
            match self@.cwd {
                Some(s) => r matches Some(x) && x@ == s,
                None => r is None,
            },
    {
        match &self.cwd {
            Some(s) => Some(s.as_str()),
            None => None,
        }
    }

    /// Check and clear dirty flag
    pub fn take_dirty(&mut self) -> (r: bool)
        ensures
            r == old(self)@.dirty,
            final(self)@ == (TermView { dirty: false, ..old(self)@ }),
    {
        let d = self.dirty;
        self.dirty = false;
        d
    }

    /// Check if terminal is dirty (needs re-render)
    pub fn is_dirty(&self) -> (r: bool)
        ensures
            r == self@.dirty,
    {
        self.dirty
    }

    /// Mark terminal as dirty
    pub fn mark_dirty(&mut self)
        ensures
            final(self)@ == (TermView { dirty: true, ..old(self)@ }),
    {
        self.dirty = true;
    }

    /// Take pending responses to write to PTY, oldest first.
    pub fn take_responses(&mut self) -> (r: Vec<Vec<u8>>)
        ensures
            byte_seqs(r@) == old(self)@.responses,
            final(self)@ == (TermView { responses: Seq::empty(), ..old(self)@ }),
    {
        let ghost orig = self.responses@;
        let mut out: Vec<Vec<u8>> = Vec::new();
        while self.responses.len() > 0
            invariant
                orig == old(self).responses@,
                out@ + self.responses@ == orig,
                self.grid == old(self).grid,
                self.alt_grid == old(self).alt_grid,
                self.cursor == old(self).cursor,
                self.attrs == old(self).attrs,
                self.fg == old(self).fg,
                self.bg == old(self).bg,
                self.modes == old(self).modes,
                self.scroll_region == old(self).scroll_region,
                self.tabs == old(self).tabs,
                self.title == old(self).title,
                self.cwd == old(self).cwd,
                self.cols == old(self).cols,
                self.rows == old(self).rows,
                self.dirty == old(self).dirty,
                self.bell_pending == old(self).bell_pending,
                self.hyperlinks == old(self).hyperlinks,
                self.next_hyperlink_id == old(self).next_hyperlink_id,
                self.current_hyperlink_id == old(self).current_hyperlink_id,
                self.clipboard_events == old(self).clipboard_events,
                self.prompt_ready == old(self).prompt_ready,
            decreases self.responses@.len(),
        {
            let ghost before = self.responses@;
            match self.responses.pop_front() {
                Some(v) => {
                    proof {
                        assert(out@.push(v) + self.responses@ =~= out@ + before);
                    }
                    out.push(v);
                },
                None => {},
            }
        }
        proof {
            assert(out@ =~= orig);
            assert(byte_seqs(self.responses@) =~= Seq::<Seq<u8>>::empty());
        }
        out
    }

    /// Take pending clipboard events, oldest first.
    pub fn take_clipboard_events(&mut self) -> (r: Vec<ClipboardEvent>)
        ensures
            event_views(r@) == old(self)@.clipboard_events,
            final(self)@ == (TermView { clipboard_events: Seq::empty(), ..old(self)@ }),
    {
        let ghost orig = self.clipboard_events@;
        let mut out: Vec<ClipboardEvent> = Vec::new();
        while self.clipboard_events.len() > 0
            invariant
                orig == old(self).clipboard_events@,
                out@ + self.clipboard_events@ == orig,
                self.grid == old(self).grid,
                self.alt_grid == old(self).alt_grid,
                self.cursor == old(self).cursor,
                self.attrs == old(self).attrs,
                self.fg == old(self).fg,
                self.bg == old(self).bg,
                self.modes == old(self).modes,
                self.scroll_region == old(self).scroll_region,
                self.tabs == old(self).tabs,
                self.title == old(self).title,
                self.cwd == old(self).cwd,
                self.cols == old(self).cols,
                self.rows == old(self).rows,
                self.dirty == old(self).dirty,
                self.bell_pending == old(self).bell_pending,
                self.hyperlinks == old(self).hyperlinks,
                self.next_hyperlink_id == old(self).next_hyperlink_id,
                self.current_hyperlink_id == old(self).current_hyperlink_id,
                self.responses == old(self).responses,
                self.prompt_ready == old(self).prompt_ready,
            decreases self.clipboard_events@.len(),
        {
            let ghost before = self.clipboard_events@;
            match self.clipboard_events.pop_front() {
                Some(v) => {
                    proof {
                        assert(out@.push(v) + self.clipboard_events@ =~= out@ + before);
                    }
                    out.push(v);
                },
                None => {},
            }
        }
        proof {
            assert(out@ =~= orig);
            assert(event_views(self.clipboard_events@) =~= Seq::<ClipboardEventView>::empty());
        }
        out
    }

    /// Check and clear bell pending flag
    pub fn take_bell(&mut self) -> (r: bool)
        ensures
            r == old(self)@.bell_pending,
            final(self)@ == (TermView { bell_pending: false, ..old(self)@ }),
    {
        let b = self.bell_pending;
        self.bell_pending = false;
        b
    }

    /// Check and clear prompt ready flag (from OSC 133;A)
    pub fn take_prompt_ready(&mut self) -> (r: bool)
        ensures
            r == old(self)@.prompt_ready,
            final(self)@ == (TermView { prompt_ready: false, ..old(self)@ }),
    {
        let p = self.prompt_ready;
        self.prompt_ready = false;
        p
    }

    /// Get hyperlink URI by ID
    pub fn hyperlink(&self, id: u16) -> (r: Option<&str>)
        ensures
            match self@.hyperlinks.get(id) {
                Some(s) => r matches Some(x) && x@ == s,
                None => r is None,
            },
    {
        match self.hyperlinks.get(&id) {
            Some(s) => Some(s.as_str()),
            None => None,
        }
    }

    /// Queue a response to send to PTY
    pub(crate) fn queue_response(&mut self, response: Vec<u8>)
        ensures
            final(self)@ == (TermView { responses: old(self)@.responses.push(response@), ..old(self)@ }),
    {
        let ghost before = self.responses@;
        self.responses.push_back(response);
        proof {
            assert(byte_seqs(self.responses@) =~= byte_seqs(before).push(response@));
        }
    }

    /// Carriage return
    pub(crate) fn carriage_return(&mut self)
        requires
            old(self).wf(),
        ensures
            final(self).wf(),
            final(self)@ == old(self)@.carriage_returned(),
    {
        self.cursor.col = 0;
    }

    /// Line feed (with optional carriage return in LNM mode)
    pub(crate) fn linefeed(&mut self)
        requires
            old(self).wf(),
        ensures
            final(self).wf(),
            final(self)@ == old(self)@.line_fed(),
    {
        if self.cursor.row >= self.scroll_region.1 {
            // At bottom of scroll region, scroll up
            self.grid.scroll_up(1, self.scroll_region.0, self.scroll_region.1);
        } else {
            self.cursor.row += 1;
        }
        if self.modes.linefeed {
            self.cursor.col = 0;
        }
        self.dirty = true;
    }

    /// Reverse index (move up, scroll down if at top)
    pub(crate) fn reverse_index(&mut self)
        requires
            old(self).wf(),
        ensures
            final(self).wf(),
            final(self)@ == old(self)@.reverse_indexed(),
    {
        if self.cursor.row <= self.scroll_region.0 {
            self.grid.scroll_down(1, self.scroll_region.0, self.scroll_region.1);
        } else {
            self.cursor.row -= 1;
        }
        self.dirty = true;
    }

    /// Move to next tab stop
    pub(crate) fn tab(&mut self)
        requires
            old(self).wf(),
        ensures
            final(self).wf(),
            final(self)@ == old(self)@.tabbed(),
    {
        let target = find_tab_stop(&self.tabs, self.cursor.col + 1, self.cols - 1);
        self.cursor.col = if target <= self.cols - 1 { target } else { self.cols - 1 };
    }

    /// Backspace
    pub(crate) fn backspace(&mut self)
        requires
            old(self).wf(),
        ensures
            final(self).wf(),
            final(self)@ == old(self)@.backspaced(),
    {
        self.cursor.col = if self.cursor.col >= 1 { self.cursor.col - 1 } else { 0 };
    }

    /// Set cursor position (1-indexed input, handles origin mode)
    pub(crate) fn set_cursor_pos(&mut self, row: usize, col: usize)
        requires
            old(self).wf(),
            row <= dim_limit(),
        ensures
            final(self).wf(),
            final(self)@ == old(self)@.cursor_placed(row as nat, col as nat),
    {
        let r = if row >= 1 { row - 1 } else { 0 };
        let c = if col >= 1 { col - 1 } else { 0 };
        let (row_offset, max_row) = if self.modes.origin {
            (self.scroll_region.0, self.scroll_region.1)
        } else {
            (0, self.rows - 1)
        };
        let target = r + row_offset;
        self.cursor.row = if target <= max_row { target } else { max_row };
        self.cursor.col = if c <= self.cols - 1 { c } else { self.cols - 1 };
    }

    /// Resolve a pending wrap before printing.
    fn resolve_wrap(&mut self)
        requires
            old(self).wf(),
        ensures
            final(self).wf(),
            final(self)@ == old(self)@.wrap_pending(),
    {
        if self.cursor.col >= self.cols {
            if self.modes.autowrap {
                self.carriage_return();
                self.linefeed();
                let r = if self.cursor.row >= 1 { self.cursor.row - 1 } else { 0 };
                match self.grid.line_mut(r) {
                    Some(line) => {
                        line.set_wrapped(true);
                    },
                    None => {},
                }
            } else {
                self.cursor.col = self.cols - 1;
            }
        }
    }

    /// Write a character at the cursor position
    pub(crate) fn write_char(&mut self, c: char)
        requires
            old(self).wf(),
        ensures
            final(self).wf(),
            final(self)@ == old(self)@.char_written(c),
    {
        self.resolve_wrap();
        match self.grid.cell_mut(self.cursor.row, self.cursor.col) {
            Some(cell) => {
                cell.c = c;
                cell.attrs = self.attrs;
                cell.fg = self.fg;
                cell.bg = self.bg;
                cell.extra = None;
            },
            None => {},
        }
        self.cursor.col += 1;
        self.dirty = true;
    }

    /// Erase in display
    pub(crate) fn erase_in_display(&mut self, mode: u16)
        requires
            old(self).wf(),
        ensures
            final(self).wf(),
            final(self)@ == old(self)@.display_erased(mode),
    {
        self.grid.erase_display(mode, self.cursor.row, self.cursor.col);
        self.dirty = true;
    }

    /// Erase in line
    pub(crate) fn erase_in_line(&mut self, mode: u16)
        requires
            old(self).wf(),
        ensures
            final(self).wf(),
            final(self)@ == old(self)@.line_erased(mode),
    {
        let col = self.cursor.col;
        if mode <= 2 {
            match self.grid.line_mut(self.cursor.row) {
                Some(line) => {
                    if mode == 0 {
                        line.clear_from(col);
                    } else if mode == 1 {
                        line.clear_to(col);
                    } else {
                        line.clear();
                    }
                },
                None => {},
            }
        }
        self.dirty = true;
    }

    /// Insert blank characters at cursor
    pub(crate) fn insert_blank(&mut self, n: usize)
        requires
            old(self).wf(),
            old(self)@.cursor.col <= old(self)@.cols,
        ensures
            final(self).wf(),
            final(self)@ == old(self)@.blanks_inserted(n as int),
    {
        let col = self.cursor.col;
        match self.grid.line_mut(self.cursor.row) {
            Some(line) => {
                line.insert_blank(col, n);
            },
            None => {},
        }
        self.dirty = true;
    }

    /// Delete characters at cursor
    pub(crate) fn delete_chars(&mut self, n: usize)
        requires
            old(self).wf(),
            old(self)@.cursor.col <= old(self)@.cols,
        ensures
            final(self).wf(),
            final(self)@ == old(self)@.chars_deleted(n as int),
    {
        let col = self.cursor.col;
        match self.grid.line_mut(self.cursor.row) {
            Some(line) => {
                line.delete_cells(col, n);
            },
            None => {},
        }
        self.dirty = true;
    }

    /// Erase characters at the cursor (ECH)
    pub(crate) fn erase_chars(&mut self, n: usize)
        requires
            old(self).wf(),
            n <= u16::MAX,
        ensures
            final(self).wf(),
            final(self)@ == old(self)@.chars_erased(n as int),
    {
        let col = self.cursor.col;
        let end = col + n;
        match self.grid.line_mut(self.cursor.row) {
            Some(line) => {
                line.reset_cells(col, end);
            },
            None => {},
        }
        self.dirty = true;
    }

    /// Insert lines at cursor
    pub(crate) fn insert_lines(&mut self, n: usize)
        requires
            old(self).wf(),
        ensures
            final(self).wf(),
            final(self)@ == old(self)@.lines_inserted(n as int),
    {
        if self.cursor.row >= self.scroll_region.0 && self.cursor.row <= self.scroll_region.1 {
            self.grid.insert_lines(self.cursor.row, n, self.scroll_region.1);
            self.dirty = true;
        }
    }

    /// Delete lines at cursor
    pub(crate) fn delete_lines(&mut self, n: usize)
        requires
            old(self).wf(),
        ensures
            final(self).wf(),
            final(self)@ == old(self)@.lines_removed(n as int),
    {
        if self.cursor.row >= self.scroll_region.0 && self.cursor.row <= self.scroll_region.1 {
            self.grid.delete_lines(self.cursor.row, n, self.scroll_region.1);
            self.dirty = true;
        }
    }

    /// Set scroll region
    pub(crate) fn set_scroll_region(&mut self, top: usize, bottom: usize)
        requires
            old(self).wf(),
        ensures
            final(self).wf(),
            final(self)@ == old(self)@.region_set(top as nat, bottom as nat),
    {
        let t = if top >= 1 { top - 1 } else { 0 };
        let b = if bottom >= 1 { bottom - 1 } else { 0 };
        let t2 = if t <= self.rows - 1 { t } else { self.rows - 1 };
        let b2 = if b <= self.rows - 1 { b } else { self.rows - 1 };
        if t2 < b2 {
            self.scroll_region = (t2, b2);
            // Move cursor to home (or origin if origin mode)
            self.set_cursor_pos(1, 1);
        }
    }

    /// Switch to alternate screen buffer
    pub(crate) fn switch_to_alt_screen(&mut self)
        requires
            old(self).wf(),
        ensures
            final(self).wf(),
            final(self)@ == old(self)@.alt_entered(),
    {
        let mut other = match self.alt_grid.take() {
            Some(g) => g,
            None => Grid::new(self.cols, self.rows, 0),
        };
        std::mem::swap(&mut self.grid, &mut other);
        self.alt_grid = Some(other);
        self.grid.clear();
        self.dirty = true;
    }

    /// Switch to primary screen buffer
    pub(crate) fn switch_to_primary_screen(&mut self)
        requires
            old(self).wf(),
        ensures
            final(self).wf(),
            final(self)@ == old(self)@.primary_restored(),
    {
        match self.alt_grid.take() {
            Some(alt) => {
                let mut other = alt;
                std::mem::swap(&mut self.grid, &mut other);
                self.alt_grid = Some(other);
                self.dirty = true;
            },
            None => {},
        }
    }

    /// Resize terminal
    pub fn resize(&mut self, cols: usize, rows: usize)
        requires
            old(self).wf(),
            1 <= cols <= dim_limit(),
            1 <= rows <= dim_limit(),
        ensures
            final(self).wf(),
            final(self)@ == old(self)@.resized(cols as nat, rows as nat),
    {
        self.resize_grids(cols, rows);
        self.resize_tabs(cols);
        // Clamp cursor
        self.cursor.col = if self.cursor.col <= cols - 1 { self.cursor.col } else { cols - 1 };
        self.cursor.row = if self.cursor.row <= rows - 1 { self.cursor.row } else { rows - 1 };
        // Update scroll region
        self.scroll_region = (0, rows - 1);
        self.cols = cols;
        self.rows = rows;
        self.dirty = true;
    }

    /// Resize the displayed and the alternate grid.
    fn resize_grids(&mut self, cols: usize, rows: usize)
        requires
            old(self).wf(),
        ensures
            final(self)@ == (TermView {
                grid: old(self)@.grid.resized(cols as nat, rows as nat),
                alt_grid: match old(self)@.alt_grid {
                    Some(a) => Some(a.resized(cols as nat, rows as nat)),
                    None => None,
                },
                ..old(self)@
            }),
            final(self)@.grid.wf(),
            final(self)@.alt_grid matches Some(a) ==> a.wf(),
    {
        self.grid.resize(cols, rows);
        match self.alt_grid.take() {
            Some(alt) => {
                let mut a = alt;
                a.resize(cols, rows);
                self.alt_grid = Some(a);
            },
            None => {},
        }
    }

    /// Tab stops for a new width: existing stops kept, default stops set.
    fn resize_tabs(&mut self, cols: usize)
        ensures
            final(self)@ == (TermView { tabs: resized_tabs(old(self)@.tabs, cols as nat), ..old(self)@ }),
    {
        let ghost old_tabs = self.tabs@;
        if cols <= self.tabs.len() {
            self.tabs.truncate(cols);
        } else {
            while self.tabs.len() < cols
                invariant
                    old_tabs.len() <= self.tabs@.len() <= cols,
                    self.tabs@.subrange(0, old_tabs.len() as int) == old_tabs,
                    forall|j: int| old_tabs.len() <= j < self.tabs@.len() ==> !#[trigger] self.tabs@[j],
                    self.grid == old(self).grid,
                    self.alt_grid == old(self).alt_grid,
                    self.cursor == old(self).cursor,
                    self.attrs == old(self).attrs,
                    self.fg == old(self).fg,
                    self.bg == old(self).bg,
                    self.modes == old(self).modes,
                    self.scroll_region == old(self).scroll_region,
                    self.title == old(self).title,
                    self.cwd == old(self).cwd,
                    self.cols == old(self).cols,
                    self.rows == old(self).rows,
                    self.dirty == old(self).dirty,
                    self.responses == old(self).responses,
                    self.bell_pending == old(self).bell_pending,
                    self.hyperlinks == old(self).hyperlinks,
                    self.next_hyperlink_id == old(self).next_hyperlink_id,
                    self.current_hyperlink_id == old(self).current_hyperlink_id,
                    self.clipboard_events == old(self).clipboard_events,
                    self.prompt_ready == old(self).prompt_ready,
                decreases cols - self.tabs@.len(),
            {
                self.tabs.push(false);
            }
        }
        let ghost base = self.tabs@;
        proof {
            assert forall|j: int| 0 <= j < cols implies #[trigger] base[j] == (j < old_tabs.len() && old_tabs[j]) by {
                if cols <= old_tabs.len() {
                    assert(base[j] == old_tabs[j]);
                } else if j < old_tabs.len() {
                    assert(base[j] == base.subrange(0, old_tabs.len() as int)[j]);
                }
            }
        }
        let mut i: usize = 0;
        while i < cols
            invariant
                i <= cols,
                self.tabs@.len() == cols,
                base.len() == cols,
                forall|j: int| 0 <= j < cols ==> #[trigger] base[j] == (j < old_tabs.len() && old_tabs[j]),
                forall|j: int|
                    0 <= j < cols ==> #[trigger] self.tabs@[j] == ((j >= 8 && j % 8 == 0 && j < i) || base[j]),
                self.grid == old(self).grid,
                self.alt_grid == old(self).alt_grid,
                self.cursor == old(self).cursor,
                self.attrs == old(self).attrs,
                self.fg == old(self).fg,
                self.bg == old(self).bg,
                self.modes == old(self).modes,
                self.scroll_region == old(self).scroll_region,
                self.title == old(self).title,
                self.cwd == old(self).cwd,
                self.cols == old(self).cols,
                self.rows == old(self).rows,
                self.dirty == old(self).dirty,
                self.responses == old(self).responses,
                self.bell_pending == old(self).bell_pending,
                self.hyperlinks == old(self).hyperlinks,
                self.next_hyperlink_id == old(self).next_hyperlink_id,
                self.current_hyperlink_id == old(self).current_hyperlink_id,
                self.clipboard_events == old(self).clipboard_events,
                self.prompt_ready == old(self).prompt_ready,
            decreases cols - i,
        {
            if i >= 8 && i % 8 == 0 {
                self.tabs.set(i, true);
            }
            i += 1;
        }
        proof {
            assert(self.tabs@ =~= resized_tabs(old_tabs, cols as nat));
        }
    }

    /// Scroll viewport up into scrollback history
    pub fn scroll_up(&mut self, lines: usize)
        requires
            old(self).wf(),
        ensures
            final(self).wf(),
            final(self)@ == (TermView {
                grid: old(self)@.grid.viewport_up(lines as nat),
                dirty: true,
                ..old(self)@
            }),
    {
        self.grid.scroll_viewport_up(lines);
        self.dirty = true;
    }

    /// Scroll viewport down towards current content
    pub fn scroll_down(&mut self, lines: usize)
        requires
            old(self).wf(),
        ensures
            final(self).wf(),
            final(self)@ == (TermView {
                grid: old(self)@.grid.viewport_down(lines as nat),
                dirty: true,
                ..old(self)@
            }),
    {
        self.grid.scroll_viewport_down(lines);
        self.dirty = true;
    }

    /// Scroll viewport to bottom (current content)
    pub fn reset_viewport(&mut self)
        requires
            old(self).wf(),
        ensures
            final(self).wf(),
            final(self)@ == (if old(self)@.grid.scroll_offset == 0 {
                old(self)@
            } else {
                TermView { grid: GridView { scroll_offset: 0, ..old(self)@.grid }, dirty: true, ..old(self)@ }
            }),
    {
        if !self.grid.is_at_bottom() {
            self.grid.reset_viewport();
            self.dirty = true;
        }
    }

    /// Check if viewport is scrolled back (not at bottom)
    pub fn is_scrolled(&self) -> (r: bool)
        ensures
            r == (self@.grid.scroll_offset != 0),
    {
        !self.grid.is_at_bottom()
    }

    /// Show the scrollback from `offset` lines above the bottom (clamped to
    /// the scrollback length).
    pub fn set_scroll_offset(&mut self, offset: usize)
        requires
            old(self).wf(),
        ensures
            final(self).wf(),
            final(self)@ == (TermView {
                grid: GridView {
                    scroll_offset: if offset <= old(self)@.grid.scrollback.len() {
                        offset as nat
                    } else {
                        old(self)@.grid.scrollback.len()
                    },
                    ..old(self)@.grid
                },
                dirty: true,
                ..old(self)@
            }),
    {
        self.grid.set_scroll_offset(offset);
        self.dirty = true;
    }

    /// Drop the scrollback history.
    pub fn clear_scrollback(&mut self)
        requires
            old(self).wf(),
        ensures
            final(self).wf(),
            final(self)@ == (TermView {
                grid: GridView { scrollback: Seq::empty(), scroll_offset: 0, ..old(self)@.grid },
                dirty: true,
                ..old(self)@
            }),
    {
        self.grid.clear_scrollback();
        self.dirty = true;
    }

    /// Force cleanup when program exits abnormally
    ///
    /// This handles the case where a TUI program (vim, htop, etc.) exits
    /// without sending rmcup (CSI ? 1049 l): when an alternate grid exists,
    /// the two grids trade places again.
    pub fn cleanup_on_exit(&mut self)
        requires
            old(self).wf(),
        ensures
            final(self).wf(),
            final(self)@ == (TermView { dirty: true, ..old(self)@.primary_restored() }),
    {
        if self.alt_grid.is_some() {
            self.switch_to_primary_screen();
        }
        self.dirty = true;
    }

    /// Register a hyperlink and return its ID
    pub(crate) fn register_hyperlink(&mut self, uri: String) -> (r: u16)
        requires
            old(self).wf(),
        ensures
            final(self).wf(),
            r == old(self)@.next_hyperlink_id,
            final(self)@ == old(self)@.hyperlink_registered(uri@),
    {
        let id = self.next_hyperlink_id;
        self.next_hyperlink_id = if self.next_hyperlink_id == u16::MAX { 1 } else { self.next_hyperlink_id + 1 };
        let ghost before = self.hyperlinks@;
        let ghost uv = uri@;
        self.hyperlinks.insert(id, uri);
        proof {
            assert(self.hyperlinks@.map_values(|s: String| s@) =~= before.map_values(|s: String| s@).insert(id, uv));
        }
        id
    }

    /// Send clipboard response (for OSC 52 queries)
    pub fn clipboard_response(&mut self, selection: ClipboardSelection, data: &[u8])
        requires
            old(self).wf(),
            data@.len() <= usize::MAX / 2,
        ensures
            final(self).wf(),
            final(self)@ == (TermView {
                responses: old(self)@.responses.push(clipboard_reply(selection, data@)),
                ..old(self)@
            }),
    {
        let sel: u8 = match selection {
            ClipboardSelection::Clipboard => 0x63,
            ClipboardSelection::Primary => 0x70,
            ClipboardSelection::Both => 0x73,
        };
        let encoded = base64_encode(data);
        let mut response: Vec<u8> = Vec::new();
        response.push(0x1b);
        response.push(0x5d);
        response.push(0x35);
        response.push(0x32);
        response.push(0x3b);
        response.push(sel);
        response.push(0x3b);
        let bytes = encoded.as_str().as_bytes();
        let mut i: usize = 0;
        let ghost prefix = response@;
        while i < bytes.len()
            invariant
                i <= bytes@.len(),
                response@ == prefix + bytes@.subrange(0, i as int),
            decreases bytes@.len() - i,
        {
            response.push(bytes[i]);
            i += 1;
            proof {
                assert(bytes@.subrange(0, i as int) =~= bytes@.subrange(0, i - 1).push(bytes@[i - 1]));
            }
        }
        response.push(0x07);
        proof {
            assert(bytes@.subrange(0, bytes@.len() as int) =~= bytes@);
            assert(response@ =~= clipboard_reply(selection, data@));
        }
        self.queue_response(response);
    }
}

impl TermView {
    /// The pen new characters are drawn with.
    pub open spec fn pen(self) -> Pen {
        Pen { attrs: self.attrs, fg: self.fg, bg: self.bg }
    }

    /// The state with the pen replaced.
    pub open spec fn with_pen(self, p: Pen) -> TermView {
        TermView { attrs: p.attrs, fg: p.fg, bg: p.bg, ..self }
    }

    /// The state with the modes replaced.
    pub open spec fn with_modes(self, m: TerminalModes) -> TermView {
        TermView { modes: m, ..self }
    }

    /// Whether a cursor's coordinates (and those it saved) stay within the
    /// limits of the terminal's invariant.
    pub open spec fn cursor_fits(c: Cursor) -> bool {
        &&& c.row <= dim_limit()
        &&& c.col <= dim_limit()
        &&& (c.saved matches Some(s) ==> s.row <= dim_limit() && s.col <= dim_limit())
    }

    /// DECSC: the cursor position, pen, origin mode and auto-wrap saved.
    pub open spec fn cursor_saved(self) -> TermView {
        self.with_cursor(
            Cursor {
                saved: Some(
                    SavedCursor {
                        row: self.cursor.row,
                        col: self.cursor.col,
                        attrs: self.attrs,
                        fg: self.fg,
                        bg: self.bg,
                        origin_mode: self.modes.origin,
                        autowrap: self.modes.autowrap,
                    },
                ),
                ..self.cursor
            },
        )
    }

    /// DECRC: what was saved comes back (and is forgotten); nothing happens
    /// when nothing was saved.
    pub open spec fn cursor_restored(self) -> TermView {
        match self.cursor.saved {
            Some(s) => TermView {
                cursor: Cursor { row: s.row, col: s.col, saved: None, ..self.cursor },
                attrs: s.attrs,
                fg: s.fg,
                bg: s.bg,
                modes: TerminalModes { origin: s.origin_mode, autowrap: s.autowrap, ..self.modes },
                ..self
            },
            None => self,
        }
    }

    /// The tab stop at `col` set or cleared.
    pub open spec fn with_tab_stop(self, col: int, value: bool) -> TermView {
        TermView { tabs: self.tabs.update(col, value), ..self }
    }

    /// All tab stops cleared.
    pub open spec fn tab_stops_cleared(self) -> TermView {
        TermView { tabs: Seq::new(self.tabs.len(), |i: int| false), ..self }
    }

    /// The scroll region scrolled up by `n` lines (SU).
    pub open spec fn region_scrolled_up(self, n: int) -> TermView {
        TermView { grid: self.grid.scrolled_up(n, self.scroll_top as int, self.scroll_bottom as int), ..self }
    }

    /// The scroll region scrolled down by `n` lines (SD).
    pub open spec fn region_scrolled_down(self, n: int) -> TermView {
        TermView { grid: self.grid.scrolled_down(n, self.scroll_top as int, self.scroll_bottom as int), ..self }
    }

    /// Every cell of the screen showing `c` (DECALN).
    pub open spec fn screen_filled(self, c: char) -> TermView {
        TermView { grid: self.grid.filled(c), dirty: true, ..self }
    }

    /// The active hyperlink (for new characters) set to `id`; 0 ends it.
    pub open spec fn with_hyperlink(self, id: u16) -> TermView {
        TermView {
            current_hyperlink_id: id,
            attrs: CellAttrs { hyperlink_id: id, ..self.attrs },
            ..self
        }
    }
}

impl Terminal {
    /// The pen new characters are drawn with.
    pub(crate) fn pen(&self) -> (r: Pen)
        ensures
            r == self@.pen(),
    {
        Pen { attrs: self.attrs, fg: self.fg, bg: self.bg }
    }

    /// Replace the pen.
    pub(crate) fn set_pen(&mut self, p: Pen)
        requires
            old(self).wf(),
        ensures
            final(self).wf(),
            final(self)@ == old(self)@.with_pen(p),
    {
        self.attrs = p.attrs;
        self.fg = p.fg;
        self.bg = p.bg;
    }

    /// Replace the modes.
    pub(crate) fn set_modes(&mut self, m: TerminalModes)
        requires
            old(self).wf(),
        ensures
            final(self).wf(),
            final(self)@ == old(self)@.with_modes(m),
    {
        self.modes = m;
    }

    /// Replace the cursor.
    pub(crate) fn set_cursor(&mut self, c: Cursor)
        requires
            old(self).wf(),
            TermView::cursor_fits(c),
        ensures
            final(self).wf(),
            final(self)@ == old(self)@.with_cursor(c),
    {
        self.cursor = c;
    }

    /// The scroll region (top and bottom row, inclusive).
    pub(crate) fn scroll_region(&self) -> (r: (usize, usize))
        ensures
            r.0 == self@.scroll_top,
            r.1 == self@.scroll_bottom,
    {
        self.scroll_region
    }

    /// Save the cursor (DECSC).
    pub(crate) fn save_cursor(&mut self)
        requires
            old(self).wf(),
        ensures
            final(self).wf(),
            final(self)@ == old(self)@.cursor_saved(),
    {
        let (attrs, fg, bg, origin, autowrap) = (self.attrs, self.fg, self.bg, self.modes.origin, self.modes.autowrap);
        self.cursor.save(attrs, fg, bg, origin, autowrap);
    }

    /// Restore the saved cursor (DECRC).
    pub(crate) fn restore_cursor(&mut self)
        requires
            old(self).wf(),
        ensures
            final(self).wf(),
            final(self)@ == old(self)@.cursor_restored(),
    {
        match self.cursor.saved {
            Some(sv) => {
                self.cursor = Cursor { row: sv.row, col: sv.col, saved: None, ..self.cursor };
                self.attrs = sv.attrs;
                self.fg = sv.fg;
                self.bg = sv.bg;
                self.modes = TerminalModes { origin: sv.origin_mode, autowrap: sv.autowrap, ..self.modes };
            },
            None => {},
        }
    }

    /// Set or clear the tab stop at `col`.
    pub(crate) fn set_tab_stop(&mut self, col: usize, value: bool)
        requires
            old(self).wf(),
            col < old(self)@.cols,
        ensures
            final(self).wf(),
            final(self)@ == old(self)@.with_tab_stop(col as int, value),
    {
        self.tabs.set(col, value);
    }

    /// Clear every tab stop.
    pub(crate) fn clear_tab_stops(&mut self)
        requires
            old(self).wf(),
        ensures
            final(self).wf(),
            final(self)@ == old(self)@.tab_stops_cleared(),
    {
        let n = self.tabs.len();
        let mut cleared: Vec<bool> = Vec::new();
        let mut i: usize = 0;
        while i < n
            invariant
                i <= n,
                cleared@.len() == i,
                forall|j: int| 0 <= j < i ==> !#[trigger] cleared@[j],
            decreases n - i,
        {
            cleared.push(false);
            i += 1;
        }
        proof {
            assert(cleared@ =~= Seq::new(n as nat, |i: int| false));
        }
        self.tabs = cleared;
    }

    /// Scroll the scroll region up by `n` lines.
    pub(crate) fn scroll_region_up(&mut self, n: usize)
        requires
            old(self).wf(),
        ensures
            final(self).wf(),
            final(self)@ == old(self)@.region_scrolled_up(n as int),
    {
        self.grid.scroll_up(n, self.scroll_region.0, self.scroll_region.1);
    }

    /// Scroll the scroll region down by `n` lines.
    pub(crate) fn scroll_region_down(&mut self, n: usize)
        requires
            old(self).wf(),
        ensures
            final(self).wf(),
            final(self)@ == old(self)@.region_scrolled_down(n as int),
    {
        self.grid.scroll_down(n, self.scroll_region.0, self.scroll_region.1);
    }

    /// Show `c` in every cell of the screen (DECALN).
    pub(crate) fn fill_screen(&mut self, c: char)
        requires
            old(self).wf(),
        ensures
            final(self).wf(),
            final(self)@ == old(self)@.screen_filled(c),
    {
        self.grid.fill(c);
        self.dirty = true;
    }

    /// Reset to the initial state, keeping the size (RIS).
    pub(crate) fn reset(&mut self)
        requires
            old(self).wf(),
        ensures
            final(self).wf(),
            final(self)@ == TermView::initial(old(self)@.cols, old(self)@.rows),
    {
        *self = Terminal::new(self.cols, self.rows);
    }

    /// Note that the bell rang.
    pub(crate) fn ring_bell(&mut self)
        requires
            old(self).wf(),
        ensures
            final(self).wf(),
            final(self)@ == (TermView { bell_pending: true, ..old(self)@ }),
    {
        self.bell_pending = true;
    }

    /// Replace the title.
    pub(crate) fn set_title(&mut self, title: String)
        requires
            old(self).wf(),
        ensures
            final(self).wf(),
            final(self)@ == (TermView { title: title@, ..old(self)@ }),
    {
        self.title = title;
    }

    /// Replace the working directory.
    pub(crate) fn set_cwd(&mut self, cwd: String)
        requires
            old(self).wf(),
        ensures
            final(self).wf(),
            final(self)@ == (TermView { cwd: Some(cwd@), ..old(self)@ }),
    {
        self.cwd = Some(cwd);
    }

    /// Make `id` the active hyperlink (0 ends it).
    pub(crate) fn set_hyperlink(&mut self, id: u16)
        requires
            old(self).wf(),
        ensures
            final(self).wf(),
            final(self)@ == old(self)@.with_hyperlink(id),
    {
        self.current_hyperlink_id = id;
        self.attrs.hyperlink_id = id;
    }

    /// Queue a clipboard event.
    pub(crate) fn push_clipboard_event(&mut self, e: ClipboardEvent)
        requires
            old(self).wf(),
        ensures
            final(self).wf(),
            final(self)@ == (TermView { clipboard_events: old(self)@.clipboard_events.push(e@), ..old(self)@ }),
    {
        let ghost before = self.clipboard_events@;
        let ghost ev = e@;
        self.clipboard_events.push_back(e);
        proof {
            assert(event_views(self.clipboard_events@) =~= event_views(before).push(ev));
        }
    }

    /// Note that the shell reported a prompt.
    pub(crate) fn set_prompt_ready(&mut self)
        requires
            old(self).wf(),
        ensures
            final(self).wf(),
            final(self)@ == (TermView { prompt_ready: true, ..old(self)@ }),
    {
        self.prompt_ready = true;
    }
}

/// After a resize the cursor is on the screen and the scroll region is the
/// whole screen.
pub proof fn lemma_resize_keeps_cursor_on_screen(t: TermView, cols: nat, rows: nat)
    requires
        t.wf(),
        1 <= cols <= dim_limit(),
        1 <= rows <= dim_limit(),
    ensures
        t.resized(cols, rows).cursor.row < rows,
        t.resized(cols, rows).cursor.col < cols,
        t.resized(cols, rows).scroll_top == 0,
        t.resized(cols, rows).scroll_bottom == rows - 1,
{
}

} // verus!
