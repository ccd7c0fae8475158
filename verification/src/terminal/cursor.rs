use vstd::prelude::*;
use super::cell::{CellAttrs, CellColor};

verus! {

/// Cursor rendering style
#[derive(Debug, Clone, Copy, PartialEq, Eq, Structural)]
pub enum CursorStyle {
    Block,
    Underline,
    Bar,
}

impl Default for CursorStyle {
    fn default() -> (r: Self)
        ensures
            r == CursorStyle::Block,
    {
        CursorStyle::Block
    }
}

/// Saved cursor state for DECSC/DECRC
#[derive(Debug, Clone, Copy, PartialEq, Eq, Structural)]
pub struct SavedCursor {
    pub row: usize,
    pub col: usize,
    pub attrs: CellAttrs,
    pub fg: CellColor,
    pub bg: CellColor,
    pub origin_mode: bool,
    pub autowrap: bool,
}

/// Cursor state
#[derive(Debug, Clone, Copy, PartialEq, Eq, Structural)]
pub struct Cursor {
    /// Row position (0-indexed)
    pub row: usize,
    /// Column position (0-indexed)
    pub col: usize,
    /// Cursor style
    pub style: CursorStyle,
    /// Cursor visibility
    pub visible: bool,
    /// Cursor blink state (for rendering)
    pub blink_on: bool,
    /// Saved cursor state (for DECSC/DECRC)
    pub saved: Option<SavedCursor>,
}

/// A cursor at the origin: block style, visible, blinking on, nothing saved.
pub open spec fn initial_cursor(c: Cursor) -> bool {
    &&& c.row == 0
    &&& c.col == 0
    &&& c.style == CursorStyle::Block
    &&& c.visible
    &&& c.blink_on
    &&& c.saved is None
}

/// A move of the cursor: to a position, or by a number of rows or columns
/// (down and right stop at a limit).
pub enum CursorMove {
    Goto(usize, usize),
    Up(usize),
    Down(usize, usize),
    Left(usize),
    Right(usize, usize),
}

/// The cursor after a move; only its position changes.
pub open spec fn after_move(c: Cursor, m: CursorMove) -> Cursor {
    match m {
        CursorMove::Goto(row, col) => Cursor { row, col, ..c },
        CursorMove::Up(n) => Cursor { row: if c.row >= n { (c.row - n) as usize } else { 0 }, ..c },
        CursorMove::Down(n, max_row) => Cursor {
            row: if c.row + n <= max_row { (c.row + n) as usize } else { max_row },
            ..c
        },
        CursorMove::Left(n) => Cursor { col: if c.col >= n { (c.col - n) as usize } else { 0 }, ..c },
        CursorMove::Right(n, max_col) => Cursor {
            col: if c.col + n <= max_col { (c.col + n) as usize } else { max_col },
            ..c
        },
    }
}

/// The cursor after a sequence of moves, in order.
pub open spec fn after_moves(c: Cursor, moves: Seq<CursorMove>) -> Cursor
    decreases moves.len(),
{
    if moves.len() == 0 {
        c
    } else {
        after_move(after_moves(c, moves.drop_last()), moves.last())
    }
}

/// The cursor with its position and the given state saved (replacing what
/// was saved before).
pub open spec fn saved_at(c: Cursor, attrs: CellAttrs, fg: CellColor, bg: CellColor, origin_mode: bool, autowrap: bool) -> Cursor {
    Cursor { saved: Some(SavedCursor { row: c.row, col: c.col, attrs, fg, bg, origin_mode, autowrap }), ..c }
}

/// The cursor after restoring, and the state restored: the saved position
/// comes back and the saved state is handed out and forgotten; with nothing
/// saved nothing changes.
pub open spec fn restored(c: Cursor) -> (Cursor, Option<(CellAttrs, CellColor, CellColor, bool, bool)>) {
    match c.saved {
        Some(s) => (Cursor { row: s.row, col: s.col, saved: None, ..c }, Some((s.attrs, s.fg, s.bg, s.origin_mode, s.autowrap))),
        None => (c, None),
    }
}

impl Default for Cursor {
    fn default() -> (r: Self)
        ensures
            initial_cursor(r),
    {
        Cursor { row: 0, col: 0, style: CursorStyle::Block, visible: true, blink_on: true, saved: None }
    }
}

impl Cursor {
    /// Create a new cursor at the origin
    pub fn new() -> (r: Self)
        ensures
            initial_cursor(r),
    {
        Cursor::default()
    }

    /// Move cursor to the specified position
    pub fn goto(&mut self, row: usize, col: usize)
        ensures
            *final(self) == after_move(*old(self), CursorMove::Goto(row, col)),
    {
        self.row = row;
        self.col = col;
    }

    /// Move cursor up by n rows (stops at top)
    pub fn move_up(&mut self, n: usize)
        ensures
            *final(self) == after_move(*old(self), CursorMove::Up(n)),
    {
        self.row = if self.row >= n { self.row - n } else { 0 };
    }

    /// Move cursor down by n rows, stopping at `max_row`
    pub fn move_down(&mut self, n: usize, max_row: usize)
        requires
            old(self).row + n <= usize::MAX,
        ensures
            *final(self) == after_move(*old(self), CursorMove::Down(n, max_row)),
    {
        let r = self.row + n;
        self.row = if r <= max_row { r } else { max_row };
    }

    /// Move cursor left by n columns (stops at left edge)
    pub fn move_left(&mut self, n: usize)
        ensures
            *final(self) == after_move(*old(self), CursorMove::Left(n)),
    {
        self.col = if self.col >= n { self.col - n } else { 0 };
    }

    /// Move cursor right by n columns, stopping at `max_col`
    pub fn move_right(&mut self, n: usize, max_col: usize)
        requires
            old(self).col + n <= usize::MAX,
        ensures
            *final(self) == after_move(*old(self), CursorMove::Right(n, max_col)),
    {
        let c = self.col + n;
        self.col = if c <= max_col { c } else { max_col };
    }

    /// Save cursor state (DECSC)
    pub fn save(&mut self, attrs: CellAttrs, fg: CellColor, bg: CellColor, origin_mode: bool, autowrap: bool)
        ensures
            *final(self) == saved_at(*old(self), attrs, fg, bg, origin_mode, autowrap),
    {
        self.saved = Some(SavedCursor { row: self.row, col: self.col, attrs, fg, bg, origin_mode, autowrap });
    }

    /// Restore cursor state (DECRC): the saved state is consumed.
    pub fn restore(&mut self) -> (r: Option<(CellAttrs, CellColor, CellColor, bool, bool)>)
        ensures
            (*final(self), r) == restored(*old(self)),
    {
        match self.saved {
            Some(s) => {
                self.saved = None;
                self.row = s.row;
                self.col = s.col;
                Some((s.attrs, s.fg, s.bg, s.origin_mode, s.autowrap))
            },
            None => None,
        }
    }

    /// Check if cursor has saved state
    pub fn has_saved(&self) -> (r: bool)
        ensures
            r == self.saved is Some,
    {
        self.saved.is_some()
    }
}

/// Moving the cursor keeps what is saved and everything but its position.
proof fn lemma_moves_keep_saved(c: Cursor, moves: Seq<CursorMove>)
    ensures
        after_moves(c, moves).saved == c.saved,
        after_moves(c, moves).style == c.style,
        after_moves(c, moves).visible == c.visible,
        after_moves(c, moves).blink_on == c.blink_on,
    decreases moves.len(),
{
    if moves.len() > 0 {
        lemma_moves_keep_saved(c, moves.drop_last());
    }
}

/// A cursor saved and then moved around comes back, on restore, to where it
/// was saved, with the state it was saved with; a later save replaces an
/// earlier one.
pub proof fn lemma_restore_after_moves(
    c: Cursor,
    attrs: CellAttrs,
    fg: CellColor,
    bg: CellColor,
    origin_mode: bool,
    autowrap: bool,
    moves: Seq<CursorMove>,
)
    ensures
        restored(after_moves(saved_at(c, attrs, fg, bg, origin_mode, autowrap), moves)) == (
            Cursor { saved: None, ..c },
            Some((attrs, fg, bg, origin_mode, autowrap)),
        ),
{
    lemma_moves_keep_saved(saved_at(c, attrs, fg, bg, origin_mode, autowrap), moves);
}

} // verus!
