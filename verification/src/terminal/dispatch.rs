//! What the escape-sequence parser's callbacks do to the terminal: printable
//! characters, C0 controls, CSI, ESC and OSC sequences.
use vstd::prelude::*;
use super::cursor::{Cursor, CursorStyle};
use super::cell::blank_cell;
use super::modes::{with_dec_mode, with_ansi_mode};
use super::sgr::{apply_sgr, sgr_applied, params_view};
use super::term::{Terminal, TermView, ClipboardEvent, ClipboardEventView, ClipboardSelection};
use crate::text::{
    push_decimal, decimal, str_from_utf8, str_to_string, chars_of, push_char, base64_decode,
    base64_standard_decoded,
};
use vstd::utf8::{valid_utf8, decode_utf8};

verus! {

/// Parameter `n` of a control sequence, or `default` when it is missing or
/// has no value.
pub open spec fn param_or(params: Seq<Seq<u16>>, n: int, default: u16) -> u16 {
    if 0 <= n < params.len() && params[n].len() > 0 {
        params[n][0]
    } else {
        default
    }
}

fn param(params: &Vec<Vec<u16>>, n: usize, default: u16) -> (r: u16)
    ensures
        r == param_or(params_view(params@), n as int, default),
{
    if n < params.len() && params[n].len() > 0 {
        params[n][0]
    } else {
        default
    }
}

/// The DEC private modes that also switch between the primary and the
/// alternate screen.
pub open spec fn is_alt_screen_mode(mode: u16) -> bool {
    mode == 1049 || mode == 47 || mode == 1047
}

/// The reply to a status report request (DSR 5): ESC [ 0 n.
pub open spec fn status_ok_reply() -> Seq<u8> {
    seq![0x1bu8, 0x5b, 0x30, 0x6e]
}

/// The cursor position report (DSR 6) for 0-based `row`, `col`:
/// ESC [ row+1 ; col+1 R.
pub open spec fn position_reply(row: nat, col: nat) -> Seq<u8> {
    seq![0x1bu8, 0x5b] + decimal(row + 1) + seq![0x3bu8] + decimal(col + 1) + seq![0x52u8]
}

/// The primary device attributes (DA1): ESC [ ? 6 4 ; 1 ; 2 ; 6 ; 9 ; 1 5 ;
/// 1 8 ; 2 1 ; 2 2 c (a VT420 with its usual capabilities).
pub open spec fn primary_attributes_reply() -> Seq<u8> {
    seq![
        0x1bu8, 0x5b, 0x3f, 0x36, 0x34, 0x3b, 0x31, 0x3b, 0x32, 0x3b, 0x36, 0x3b, 0x39, 0x3b,
        0x31, 0x35, 0x3b, 0x31, 0x38, 0x3b, 0x32, 0x31, 0x3b, 0x32, 0x32, 0x63,
    ]
}

/// The secondary device attributes (DA2): ESC [ > 6 5 ; 1 0 0 ; 0 c.
pub open spec fn secondary_attributes_reply() -> Seq<u8> {
    seq![0x1bu8, 0x5b, 0x3e, 0x36, 0x35, 0x3b, 0x31, 0x30, 0x30, 0x3b, 0x30, 0x63]
}

/// The cursor style that DECSCUSR selects.
pub open spec fn cursor_style_for(n: u16) -> CursorStyle {
    if n == 3 || n == 4 {
        CursorStyle::Underline
    } else if n == 5 || n == 6 {
        CursorStyle::Bar
    } else {
        CursorStyle::Block
    }
}

/// `n - 1`, stopping at 0.
pub open spec fn less_one(n: u16) -> int {
    if n >= 1 { n - 1 } else { 0 }
}

/// The smaller of two integers.
pub open spec fn min_int(a: int, b: int) -> int {
    if a <= b { a } else { b }
}

/// The cursor after a CSI movement on a `rows` x `cols` screen: A up, B
/// down, C right, D left (by the first parameter, default 1, stopping at the
/// edges), E and F down and up to column 0, G to a column and d to a row
/// (1-based, clamped to the screen).
pub open spec fn cursor_moved(c: Cursor, params: Seq<Seq<u16>>, action: char, rows: nat, cols: nat) -> Cursor {
    let n = param_or(params, 0, 1) as int;
    let up = if c.row >= n { c.row - n } else { 0 };
    let down = min_int(c.row + n, rows - 1);
    if action == 'A' {
        Cursor { row: up as usize, ..c }
    } else if action == 'B' {
        Cursor { row: down as usize, ..c }
    } else if action == 'C' {
        Cursor { col: min_int(c.col + n, cols - 1) as usize, ..c }
    } else if action == 'D' {
        Cursor { col: (if c.col >= n { c.col - n } else { 0 }) as usize, ..c }
    } else if action == 'E' {
        Cursor { row: down as usize, col: 0, ..c }
    } else if action == 'F' {
        Cursor { row: up as usize, col: 0, ..c }
    } else if action == 'G' {
        Cursor { col: min_int(less_one(param_or(params, 0, 1)), cols - 1) as usize, ..c }
    } else if action == 'd' {
        Cursor { row: min_int(less_one(param_or(params, 0, 1)), rows - 1) as usize, ..c }
    } else {
        c
    }
}

/// Move a cursor as CSI `action` does on a `rows` x `cols` screen.
fn move_cursor(c: Cursor, params: &Vec<Vec<u16>>, action: char, rows: usize, cols: usize) -> (r: Cursor)
    requires
        1 <= rows,
        1 <= cols,
        c.row <= isize::MAX,
        c.col <= isize::MAX,
    ensures
        r == cursor_moved(c, params_view(params@), action, rows as nat, cols as nat),
{
    let n = param(params, 0, 1) as usize;
    let mut c = c;
    if action == 'A' {
        c.move_up(n);
    } else if action == 'B' {
        c.move_down(n, rows - 1);
    } else if action == 'C' {
        c.move_right(n, cols - 1);
    } else if action == 'D' {
        c.move_left(n);
    } else if action == 'E' {
        c.move_down(n, rows - 1);
        c.col = 0;
    } else if action == 'F' {
        c.move_up(n);
        c.col = 0;
    } else if action == 'G' {
        let p = param(params, 0, 1) as usize;
        let col = if p >= 1 { p - 1 } else { 0 };
        c.col = if col <= cols - 1 { col } else { cols - 1 };
    } else if action == 'd' {
        let p = param(params, 0, 1) as usize;
        let row = if p >= 1 { p - 1 } else { 0 };
        c.row = if row <= rows - 1 { row } else { rows - 1 };
    }
    c
}

impl TermView {
    /// The state with a reply queued for the host.
    pub open spec fn replied(self, r: Seq<u8>) -> TermView {
        TermView { responses: self.responses.push(r), ..self }
    }

    /// The pen after the SGR parameters `params`.
    pub open spec fn sgr_set(self, params: Seq<Seq<u16>>) -> TermView {
        self.with_pen(sgr_applied(self.pen(), params))
    }

    /// DEC private modes from parameter `i` on set to `value`; modes 47, 1047
    /// and 1049 also enter or leave the alternate screen.
    pub open spec fn dec_modes_from(self, params: Seq<Seq<u16>>, i: int, value: bool) -> TermView
        decreases params.len() - i,
    {
        if i < 0 || i >= params.len() {
            self
        } else if params[i].len() > 0 {
            let mode = params[i][0];
            let t = self.with_modes(with_dec_mode(self.modes, mode, value));
            let t2 = if is_alt_screen_mode(mode) {
                if value { t.alt_entered() } else { t.primary_restored() }
            } else {
                t
            };
            t2.dec_modes_from(params, i + 1, value)
        } else {
            self.dec_modes_from(params, i + 1, value)
        }
    }

    /// ANSI modes from parameter `i` on set to `value`.
    pub open spec fn ansi_modes_from(self, params: Seq<Seq<u16>>, i: int, value: bool) -> TermView
        decreases params.len() - i,
    {
        if i < 0 || i >= params.len() {
            self
        } else if params[i].len() > 0 {
            self.with_modes(with_ansi_mode(self.modes, params[i][0], value)).ansi_modes_from(
                params,
                i + 1,
                value,
            )
        } else {
            self.ansi_modes_from(params, i + 1, value)
        }
    }

    /// A CSI sequence without intermediates that moves the cursor
    /// (A B C D E F G H f d); `self` for any other final character.
    pub open spec fn csi_cursor_moved(self, params: Seq<Seq<u16>>, action: char) -> TermView {
        if action == 'H' || action == 'f' {
            self.cursor_placed(param_or(params, 0, 1) as nat, param_or(params, 1, 1) as nat)
        } else {
            self.with_cursor(cursor_moved(self.cursor, params, action, self.rows, self.cols))
        }
    }

    /// A CSI sequence without intermediates that edits the screen
    /// (J K @ P L M X S T); `self` for any other final character.
    pub open spec fn csi_edited(self, params: Seq<Seq<u16>>, action: char) -> TermView {
        let n = param_or(params, 0, 1) as int;
        if action == 'J' {
            self.display_erased(param_or(params, 0, 0))
        } else if action == 'K' {
            self.line_erased(param_or(params, 0, 0))
        } else if action == '@' {
            self.blanks_inserted(n)
        } else if action == 'P' {
            self.chars_deleted(n)
        } else if action == 'L' {
            self.lines_inserted(n)
        } else if action == 'M' {
            self.lines_removed(n)
        } else if action == 'X' {
            self.chars_erased(n)
        } else if action == 'S' {
            self.region_scrolled_up(n)
        } else if action == 'T' {
            self.region_scrolled_down(n)
        } else {
            self
        }
    }

    /// The other CSI sequences without intermediates (m h l r g s u n c).
    pub open spec fn csi_set(self, params: Seq<Seq<u16>>, action: char) -> TermView {
        if action == 'm' {
            self.sgr_set(params)
        } else if action == 'h' {
            self.ansi_modes_from(params, 0, true)
        } else if action == 'l' {
            self.ansi_modes_from(params, 0, false)
        } else if action == 'r' {
            self.region_set(param_or(params, 0, 1) as nat, param_or(params, 1, self.rows as u16) as nat)
        } else if action == 'g' {
            let mode = param_or(params, 0, 0);
            if mode == 0 {
                self.with_tab_stop(self.cursor.col as int, false)
            } else if mode == 3 {
                self.tab_stops_cleared()
            } else {
                self
            }
        } else if action == 's' {
            self.cursor_saved()
        } else if action == 'u' {
            self.cursor_restored()
        } else if action == 'n' {
            let mode = param_or(params, 0, 0);
            if mode == 5 {
                self.replied(status_ok_reply())
            } else if mode == 6 {
                self.replied(position_reply(self.cursor.row as nat, self.cursor.col as nat))
            } else {
                self
            }
        } else if action == 'c' {
            self.replied(primary_attributes_reply())
        } else {
            self
        }
    }

    /// A CSI sequence with final character `action`.
    pub open spec fn csi_applied(
        self,
        params: Seq<Seq<u16>>,
        intermediates: Seq<u8>,
        ignore: bool,
        action: char,
    ) -> TermView {
        if ignore {
            self
        } else if intermediates.len() == 0 {
            if action == 'A' || action == 'B' || action == 'C' || action == 'D' || action == 'E'
                || action == 'F' || action == 'G' || action == 'H' || action == 'f' || action == 'd' {
                self.csi_cursor_moved(params, action)
            } else if action == 'J' || action == 'K' || action == '@' || action == 'P' || action == 'L'
                || action == 'M' || action == 'X' || action == 'S' || action == 'T' {
                self.csi_edited(params, action)
            } else {
                self.csi_set(params, action)
            }
        } else if intermediates == seq![0x3fu8] {
            if action == 'h' {
                self.dec_modes_from(params, 0, true)
            } else if action == 'l' {
                self.dec_modes_from(params, 0, false)
            } else {
                self
            }
        } else if intermediates == seq![0x3eu8] && action == 'c' {
            self.replied(secondary_attributes_reply())
        } else if intermediates == seq![0x20u8] && action == 'q' {
            self.with_cursor(Cursor { style: cursor_style_for(param_or(params, 0, 0)), ..self.cursor })
        } else {
            self
        }
    }

    /// The CSI sequences on which the terminal would index past its line or
    /// its tab stops: inserting or deleting characters with the cursor
    /// beyond the right margin, and clearing the tab stop under it.
    pub open spec fn csi_out_of_range(
        self,
        params: Seq<Seq<u16>>,
        intermediates: Seq<u8>,
        ignore: bool,
        action: char,
    ) -> bool {
        &&& !ignore
        &&& intermediates.len() == 0
        &&& {
            ||| ((action == '@' || action == 'P') && self.cursor.col > self.cols)
            ||| (action == 'g' && param_or(params, 0, 0) == 0 && self.cursor.col >= self.cols)
        }
    }
}

fn status_ok_bytes() -> (r: Vec<u8>)
    ensures
        r@ == status_ok_reply(),
{
    let r = vec![0x1bu8, 0x5b, 0x30, 0x6e];
    assert(r@ =~= status_ok_reply());
    r
}

fn primary_attributes_bytes() -> (r: Vec<u8>)
    ensures
        r@ == primary_attributes_reply(),
{
    let r = vec![
        0x1bu8, 0x5b, 0x3f, 0x36, 0x34, 0x3b, 0x31, 0x3b, 0x32, 0x3b, 0x36, 0x3b, 0x39, 0x3b,
        0x31, 0x35, 0x3b, 0x31, 0x38, 0x3b, 0x32, 0x31, 0x3b, 0x32, 0x32, 0x63,
    ];
    assert(r@ =~= primary_attributes_reply());
    r
}

fn secondary_attributes_bytes() -> (r: Vec<u8>)
    ensures
        r@ == secondary_attributes_reply(),
{
    let r = vec![0x1bu8, 0x5b, 0x3e, 0x36, 0x35, 0x3b, 0x31, 0x30, 0x30, 0x3b, 0x30, 0x63];
    assert(r@ =~= secondary_attributes_reply());
    r
}

fn position_bytes(row: usize, col: usize) -> (r: Vec<u8>)
    requires
        row < usize::MAX,
        col < usize::MAX,
    ensures
        r@ == position_reply(row as nat, col as nat),
{
    let mut r: Vec<u8> = Vec::new();
    r.push(0x1b);
    r.push(0x5b);
    push_decimal(&mut r, (row + 1) as u64);
    r.push(0x3b);
    push_decimal(&mut r, (col + 1) as u64);
    r.push(0x52);
    assert(r@ =~= position_reply(row as nat, col as nat));
    r
}

impl Terminal {
    /// CSI cursor movements (A B C D E F G H f d).
    fn csi_cursor(&mut self, params: &Vec<Vec<u16>>, action: char)
        requires
            old(self).wf(),
        ensures
            final(self).wf(),
            final(self)@ == old(self)@.csi_cursor_moved(params_view(params@), action),
    {
        if action == 'H' || action == 'f' {
            let row = param(params, 0, 1) as usize;
            let col = param(params, 1, 1) as usize;
            self.set_cursor_pos(row, col);
        } else {
            let c = move_cursor(*self.cursor(), params, action, self.rows(), self.cols());
            self.set_cursor(c);
        }
    }

    /// CSI screen edits (J K @ P L M X S T).
    fn csi_edit(&mut self, params: &Vec<Vec<u16>>, action: char)
        requires
            old(self).wf(),
            (action == '@' || action == 'P') ==> old(self)@.cursor.col <= old(self)@.cols,
        ensures
            final(self).wf(),
            final(self)@ == old(self)@.csi_edited(params_view(params@), action),
    {
        let n = param(params, 0, 1) as usize;
        if action == 'J' {
            self.erase_in_display(param(params, 0, 0));
        } else if action == 'K' {
            self.erase_in_line(param(params, 0, 0));
        } else if action == '@' {
            self.insert_blank(n);
        } else if action == 'P' {
            self.delete_chars(n);
        } else if action == 'L' {
            self.insert_lines(n);
        } else if action == 'M' {
            self.delete_lines(n);
        } else if action == 'X' {
            self.erase_chars(n);
        } else if action == 'S' {
            self.scroll_region_up(n);
        } else if action == 'T' {
            self.scroll_region_down(n);
        }
    }

    /// Set (`value`) or reset the DEC private modes listed in `params`.
    fn set_dec_modes(&mut self, params: &Vec<Vec<u16>>, value: bool)
        requires
            old(self).wf(),
        ensures
            final(self).wf(),
            final(self)@ == old(self)@.dec_modes_from(params_view(params@), 0, value),
    {
        let ghost ps = params_view(params@);
        let mut i: usize = 0;
        while i < params.len()
            invariant
                i <= params@.len(),
                ps == params_view(params@),
                self.wf(),
                old(self)@.dec_modes_from(ps, 0, value) == self@.dec_modes_from(ps, i as int, value),
            decreases params@.len() - i,
        {
            assert(ps[i as int] == params@[i as int]@);
            if params[i].len() > 0 {
                let mode = params[i][0];
                let mut m = *self.modes();
                m.set_dec_mode(mode, value);
                self.set_modes(m);
                if mode == 1049 || mode == 47 || mode == 1047 {
                    if value {
                        self.switch_to_alt_screen();
                    } else {
                        self.switch_to_primary_screen();
                    }
                }
            }
            i += 1;
        }
    }

    /// Set (`value`) or reset the ANSI modes listed in `params`.
    fn set_ansi_modes(&mut self, params: &Vec<Vec<u16>>, value: bool)
        requires
            old(self).wf(),
        ensures
            final(self).wf(),
            final(self)@ == old(self)@.ansi_modes_from(params_view(params@), 0, value),
    {
        let ghost ps = params_view(params@);
        let mut i: usize = 0;
        while i < params.len()
            invariant
                i <= params@.len(),
                ps == params_view(params@),
                self.wf(),
                old(self)@.ansi_modes_from(ps, 0, value) == self@.ansi_modes_from(ps, i as int, value),
            decreases params@.len() - i,
        {
            assert(ps[i as int] == params@[i as int]@);
            if params[i].len() > 0 {
                let mut m = *self.modes();
                m.set_ansi_mode(params[i][0], value);
                self.set_modes(m);
            }
            i += 1;
        }
    }

    /// The other CSI sequences without intermediates (m h l r g s u n c).
    fn csi_other(&mut self, params: &Vec<Vec<u16>>, action: char)
        requires
            old(self).wf(),
            (action == 'g' && param_or(params_view(params@), 0, 0) == 0) ==> old(self)@.cursor.col
                < old(self)@.cols,
        ensures
            final(self).wf(),
            final(self)@ == old(self)@.csi_set(params_view(params@), action),
    {
        if action == 'm' {
            let p = apply_sgr(self.pen(), params);
            self.set_pen(p);
        } else if action == 'h' {
            self.set_ansi_modes(params, true);
        } else if action == 'l' {
            self.set_ansi_modes(params, false);
        } else if action == 'r' {
            let top = param(params, 0, 1);
            let bottom = param(params, 1, self.rows() as u16);
            self.set_scroll_region(top as usize, bottom as usize);
        } else if action == 'g' {
            let mode = param(params, 0, 0);
            if mode == 0 {
                let col = self.cursor().col;
                self.set_tab_stop(col, false);
            } else if mode == 3 {
                self.clear_tab_stops();
            }
        } else if action == 's' {
            self.save_cursor();
        } else if action == 'u' {
            self.restore_cursor();
        } else if action == 'n' {
            let mode = param(params, 0, 0);
            if mode == 5 {
                self.queue_response(status_ok_bytes());
            } else if mode == 6 {
                let c = *self.cursor();
                self.queue_response(position_bytes(c.row, c.col));
            }
        } else if action == 'c' {
            self.queue_response(primary_attributes_bytes());
        }
    }

    /// Handle a CSI sequence: `params` with their sub-parameters, the
    /// intermediate bytes and the final character.
    pub fn csi_dispatch(&mut self, params: &Vec<Vec<u16>>, intermediates: &[u8], ignore: bool, action: char)
        requires
            old(self).wf(),
            !old(self)@.csi_out_of_range(params_view(params@), intermediates@, ignore, action),
        ensures
            final(self).wf(),
            final(self)@ == old(self)@.csi_applied(params_view(params@), intermediates@, ignore, action),
    {
        if ignore {
            return;
        }
        if intermediates.len() == 0 {
            if action == 'A' || action == 'B' || action == 'C' || action == 'D' || action == 'E'
                || action == 'F' || action == 'G' || action == 'H' || action == 'f' || action == 'd' {
                self.csi_cursor(params, action);
            } else if action == 'J' || action == 'K' || action == '@' || action == 'P' || action == 'L'
                || action == 'M' || action == 'X' || action == 'S' || action == 'T' {
                self.csi_edit(params, action);
            } else {
                self.csi_other(params, action);
            }
        } else if intermediates.len() == 1 && intermediates[0] == 0x3f {
            assert(intermediates@ =~= seq![0x3fu8]);
            if action == 'h' {
                self.set_dec_modes(params, true);
            } else if action == 'l' {
                self.set_dec_modes(params, false);
            }
        } else if intermediates.len() == 1 && intermediates[0] == 0x3e && action == 'c' {
            assert(intermediates@ =~= seq![0x3eu8]);
            self.queue_response(secondary_attributes_bytes());
        } else if intermediates.len() == 1 && intermediates[0] == 0x20 && action == 'q' {
            assert(intermediates@ =~= seq![0x20u8]);
            let n = param(params, 0, 0);
            let style = if n == 3 || n == 4 {
                CursorStyle::Underline
            } else if n == 5 || n == 6 {
                CursorStyle::Bar
            } else {
                CursorStyle::Block
            };
            let c = Cursor { style, ..*self.cursor() };
            self.set_cursor(c);
        } else {
            assert(intermediates@ != seq![0x3fu8]);
            assert(!(intermediates@ == seq![0x3eu8] && action == 'c'));
            assert(!(intermediates@ == seq![0x20u8] && action == 'q'));
        }
    }
}

impl TermView {
    /// An ESC sequence with final byte `byte`.
    pub open spec fn esc_applied(self, intermediates: Seq<u8>, ignore: bool, byte: u8) -> TermView {
        if ignore {
            self
        } else if intermediates.len() == 0 {
            if byte == 0x37 {
                // DECSC
                self.cursor_saved()
            } else if byte == 0x38 {
                // DECRC
                self.cursor_restored()
            } else if byte == 0x4d {
                // RI
                self.reverse_indexed()
            } else if byte == 0x44 {
                // IND
                self.line_fed()
            } else if byte == 0x45 {
                // NEL
                self.carriage_returned().line_fed()
            } else if byte == 0x48 {
                // HTS
                self.with_tab_stop(self.cursor.col as int, true)
            } else if byte == 0x63 {
                // RIS
                TermView::initial(self.cols, self.rows)
            } else {
                self
            }
        } else if intermediates == seq![0x23u8] && byte == 0x38 {
            // DECALN
            self.screen_filled('E')
        } else {
            self
        }
    }

    /// The ESC sequence that would set a tab stop beyond the last column.
    pub open spec fn esc_out_of_range(self, intermediates: Seq<u8>, ignore: bool, byte: u8) -> bool {
        !ignore && intermediates.len() == 0 && byte == 0x48 && self.cursor.col >= self.cols
    }

    /// A C0 control character.
    pub open spec fn executed(self, byte: u8) -> TermView {
        if byte == 0x07 {
            TermView { bell_pending: true, ..self }
        } else if byte == 0x08 {
            self.backspaced()
        } else if byte == 0x09 {
            self.tabbed()
        } else if byte == 0x0a || byte == 0x0b || byte == 0x0c {
            self.line_fed()
        } else if byte == 0x0d {
            self.carriage_returned()
        } else {
            self
        }
    }
}

impl Terminal {
    /// Whether a CSI sequence stays within the line and the tab stops (the
    /// sequences that do not are refused by `csi_dispatch`).
    pub fn csi_in_range(&self, params: &Vec<Vec<u16>>, intermediates: &[u8], ignore: bool, action: char) -> (r: bool)
        requires
            self.wf(),
        ensures
            r == !self@.csi_out_of_range(params_view(params@), intermediates@, ignore, action),
    {
        if ignore || intermediates.len() != 0 {
            return true;
        }
        let col = self.cursor().col;
        let cols = self.cols();
        if (action == '@' || action == 'P') && col > cols {
            return false;
        }
        !(action == 'g' && param(params, 0, 0) == 0 && col >= cols)
    }

    /// Whether an ESC sequence stays within the tab stops (the sequences that
    /// do not are refused by `esc_dispatch`).
    pub fn esc_in_range(&self, intermediates: &[u8], ignore: bool, byte: u8) -> (r: bool)
        requires
            self.wf(),
        ensures
            r == !self@.esc_out_of_range(intermediates@, ignore, byte),
    {
        !(!ignore && intermediates.len() == 0 && byte == 0x48 && self.cursor().col >= self.cols())
    }
}

impl Terminal {
    /// Handle a printable character.
    pub fn print(&mut self, c: char)
        requires
            old(self).wf(),
        ensures
            final(self).wf(),
            final(self)@ == old(self)@.char_written(c),
    {
        self.write_char(c);
    }

    /// Handle a C0 control character.
    pub fn execute(&mut self, byte: u8)
        requires
            old(self).wf(),
        ensures
            final(self).wf(),
            final(self)@ == old(self)@.executed(byte),
    {
        if byte == 0x07 {
            self.ring_bell();
        } else if byte == 0x08 {
            self.backspace();
        } else if byte == 0x09 {
            self.tab();
        } else if byte == 0x0a || byte == 0x0b || byte == 0x0c {
            self.linefeed();
        } else if byte == 0x0d {
            self.carriage_return();
        }
    }

    /// Handle an ESC sequence.
    pub fn esc_dispatch(&mut self, intermediates: &[u8], ignore: bool, byte: u8)
        requires
            old(self).wf(),
            !old(self)@.esc_out_of_range(intermediates@, ignore, byte),
        ensures
            final(self).wf(),
            final(self)@ == old(self)@.esc_applied(intermediates@, ignore, byte),
    {
        if ignore {
            return;
        }
        if intermediates.len() == 0 {
            if byte == 0x37 {
                self.save_cursor();
            } else if byte == 0x38 {
                self.restore_cursor();
            } else if byte == 0x4d {
                self.reverse_index();
            } else if byte == 0x44 {
                self.linefeed();
            } else if byte == 0x45 {
                self.carriage_return();
                self.linefeed();
            } else if byte == 0x48 {
                let col = self.cursor().col;
                self.set_tab_stop(col, true);
            } else if byte == 0x63 {
                self.reset();
            }
        } else if intermediates.len() == 1 && intermediates[0] == 0x23 && byte == 0x38 {
            assert(intermediates@ =~= seq![0x23u8]);
            self.fill_screen('E');
        } else {
            assert(!(intermediates@ == seq![0x23u8] && byte == 0x38));
        }
    }
}

/// The value of a hexadecimal digit.
pub open spec fn hex_digit(c: char) -> Option<u8> {
    let v = c as u32;
    if 0x30 <= v <= 0x39 {
        Some((v - 0x30) as u8)
    } else if 0x61 <= v <= 0x66 {
        Some((v - 0x61 + 10) as u8)
    } else if 0x41 <= v <= 0x46 {
        Some((v - 0x41 + 10) as u8)
    } else {
        None
    }
}

/// What `u8::from_str_radix(_, 16)` gives for the two-character string `a b`:
/// two hex digits, or a `+` sign and one digit.
pub open spec fn hex_pair(a: char, b: char) -> Option<u8> {
    match (hex_digit(a), hex_digit(b)) {
        (Some(x), Some(y)) => Some((x * 16 + y) as u8),
        (None, Some(y)) => if a == '+' { Some(y) } else { None },
        _ => None,
    }
}

fn hex_digit_of(c: char) -> (r: Option<u8>)
    ensures
        r == hex_digit(c),
{
    let v = c as u32;
    if 0x30 <= v && v <= 0x39 {
        Some((v - 0x30) as u8)
    } else if 0x61 <= v && v <= 0x66 {
        Some((v - 0x61 + 10) as u8)
    } else if 0x41 <= v && v <= 0x46 {
        Some((v - 0x41 + 10) as u8)
    } else {
        None
    }
}

fn hex_pair_of(a: char, b: char) -> (r: Option<u8>)
    ensures
        r == hex_pair(a, b),
{
    match (hex_digit_of(a), hex_digit_of(b)) {
        (Some(x), Some(y)) => Some(x * 16 + y),
        (None, Some(y)) => if a == '+' { Some(y) } else { None },
        _ => None,
    }
}

/// Percent-decoding: `%` and two hex digits become the character with that
/// code (0 to 255); a `%` without them is kept with what follows.
pub open spec fn url_decoded(s: Seq<char>) -> Seq<char>
    decreases s.len(),
{
    if s.len() == 0 {
        Seq::empty()
    } else if s[0] == '%' {
        if s.len() >= 3 && hex_pair(s[1], s[2]) is Some {
            seq![(hex_pair(s[1], s[2])->0) as char] + url_decoded(s.skip(3))
        } else {
            let k = if s.len() >= 3 { 3 } else { s.len() as int };
            s.take(k) + url_decoded(s.skip(k))
        }
    } else {
        seq![s[0]] + url_decoded(s.skip(1))
    }
}

/// URL decode a percent-encoded string
pub fn url_decode(s: &str) -> (r: String)
    ensures
        r@ == url_decoded(s@),
{
    let cs = chars_of(s);
    url_decode_chars(&cs)
}

fn url_decode_chars(cs: &Vec<char>) -> (r: String)
    ensures
        r@ == url_decoded(cs@),
{
    let ghost s = cs@;
    let mut out = String::new();
    let mut i: usize = 0;
    assert(cs@.skip(0) =~= cs@);
    while i < cs.len()
        invariant
            i <= cs@.len(),
            cs@ == s,
            out@ + url_decoded(cs@.skip(i as int)) == url_decoded(s),
        decreases cs@.len() - i,
    {
        let ghost rest = cs@.skip(i as int);
        let c = cs[i];
        if c == '%' {
            if cs.len() - i > 2 {
                match hex_pair_of(cs[i + 1], cs[i + 2]) {
                    Some(v) => {
                        push_char(&mut out, v as char);
                        proof {
                            assert(rest.skip(3) =~= cs@.skip(i + 3));
                        }
                        i += 3;
                        continue;
                    },
                    None => {},
                }
            }
            let k: usize = if cs.len() - i > 2 { 3 } else { cs.len() - i };
            let mut j: usize = 0;
            let ghost before = out@;
            while j < k
                invariant
                    j <= k,
                    i + k <= cs.len(),
                    out@ == before + cs@.subrange(i as int, i + j),
                decreases k - j,
            {
                push_char(&mut out, cs[i + j]);
                j += 1;
                proof {
                    assert(cs@.subrange(i as int, i + j) =~= cs@.subrange(i as int, i + j - 1).push(cs@[i + j - 1]));
                }
            }
            proof {
                assert(rest.take(k as int) =~= cs@.subrange(i as int, i + k));
                assert(rest.skip(k as int) =~= cs@.skip(i + k));
            }
            i += k;
        } else {
            push_char(&mut out, c);
            proof {
                assert(rest.skip(1) =~= cs@.skip(i + 1));
            }
            i += 1;
        }
    }
    proof {
        assert(cs@.skip(i as int) =~= Seq::<char>::empty());
    }
    out
}

/// The position of the first `/` at or after `from`.
pub open spec fn first_slash(s: Seq<char>, from: int) -> Option<int>
    decreases s.len() - from,
{
    if from < 0 || from >= s.len() {
        None
    } else if s[from] == '/' {
        Some(from)
    } else {
        first_slash(s, from + 1)
    }
}

/// The scheme prefix of a file URI.
pub open spec fn file_scheme() -> Seq<char> {
    seq!['f', 'i', 'l', 'e', ':', '/', '/']
}

/// The path that OSC 7 reports: for `file://host/path` the part from the
/// first `/` after the host on; anything else as it is.
pub open spec fn reported_path(uri: Seq<char>) -> Seq<char> {
    if uri.len() >= 7 && uri.take(7) == file_scheme() {
        match first_slash(uri.skip(7), 0) {
            Some(i) => uri.skip(7 + i),
            None => uri,
        }
    } else {
        uri
    }
}

/// The path that OSC 7 reports, as characters.
fn path_of_uri(uri: &Vec<char>) -> (r: Vec<char>)
    ensures
        r@ == reported_path(uri@),
{
    let n = uri.len();
    let mut start: usize = 0;
    if n >= 7 && uri[0] == 'f' && uri[1] == 'i' && uri[2] == 'l' && uri[3] == 'e' && uri[4] == ':'
        && uri[5] == '/' && uri[6] == '/' {
        assert(uri@.take(7) =~= file_scheme());
        let ghost rest = uri@.skip(7);
        let mut i: usize = 7;
        while i < n && uri[i] != '/'
            invariant
                7 <= i <= n,
                n == uri@.len(),
                rest == uri@.skip(7),
                first_slash(rest, 0) == first_slash(rest, i - 7),
            decreases n - i,
        {
            assert(rest[i - 7] == uri@[i as int]);
            i += 1;
        }
        if i < n {
            assert(rest[i - 7] == uri@[i as int]);
            start = i;
        }
    } else {
        assert(!(uri@.len() >= 7 && uri@.take(7) == file_scheme())) by {
            if uri@.len() >= 7 && uri@.take(7) == file_scheme() {
                assert(uri@[0] == uri@.take(7)[0]);
                assert(uri@[1] == uri@.take(7)[1]);
                assert(uri@[2] == uri@.take(7)[2]);
                assert(uri@[3] == uri@.take(7)[3]);
                assert(uri@[4] == uri@.take(7)[4]);
                assert(uri@[5] == uri@.take(7)[5]);
                assert(uri@[6] == uri@.take(7)[6]);
            }
        }
    }
    let mut out: Vec<char> = Vec::new();
    let mut j: usize = start;
    while j < n
        invariant
            start <= j <= n,
            n == uri@.len(),
            out@ == uri@.subrange(start as int, j as int),
        decreases n - j,
    {
        out.push(uri[j]);
        j += 1;
        proof {
            assert(uri@.subrange(start as int, j as int) =~= uri@.subrange(start as int, j - 1).push(uri@[j - 1]));
        }
    }
    assert(out@ =~= uri@.skip(start as int));
    out
}

/// The clipboard selection named by the first parameter of OSC 52: `p`
/// primary, `s` or nothing both, anything else the clipboard.
pub open spec fn osc52_selection(p: Seq<u8>) -> ClipboardSelection {
    if p == seq![0x70u8] {
        ClipboardSelection::Primary
    } else if p == seq![0x73u8] || p.len() == 0 {
        ClipboardSelection::Both
    } else {
        ClipboardSelection::Clipboard
    }
}

impl TermView {
    /// The state with a clipboard event queued.
    pub open spec fn clipboard_pushed(self, e: ClipboardEventView) -> TermView {
        TermView { clipboard_events: self.clipboard_events.push(e), ..self }
    }

    /// OSC 52 clipboard data after decoding: a store request when the data
    /// decoded, nothing otherwise.
    pub open spec fn clipboard_stored(self, sel: ClipboardSelection, decoded: Option<Seq<u8>>) -> TermView {
        match decoded {
            Some(d) => self.clipboard_pushed(ClipboardEventView::Store(sel, d)),
            None => self,
        }
    }

    /// An OSC sequence: 0 and 2 set the title, 7 the working directory, 8
    /// starts or ends a hyperlink, 52 asks for clipboard access, 133;A
    /// reports a prompt. Text that is not UTF-8 is ignored.
    pub open spec fn osc_applied(self, params: Seq<Seq<u8>>) -> TermView {
        if params.len() == 0 {
            self
        } else {
            let p0 = params[0];
            if p0 == seq![0x30u8] || p0 == seq![0x32u8] {
                if params.len() > 1 && valid_utf8(params[1]) {
                    TermView { title: decode_utf8(params[1]), ..self }
                } else {
                    self
                }
            } else if p0 == seq![0x37u8] {
                if params.len() > 1 && valid_utf8(params[1]) {
                    TermView { cwd: Some(url_decoded(reported_path(decode_utf8(params[1])))), ..self }
                } else {
                    self
                }
            } else if p0 == seq![0x38u8] {
                if params.len() >= 3 {
                    if valid_utf8(params[2]) {
                        let uri = decode_utf8(params[2]);
                        if uri.len() == 0 {
                            self.with_hyperlink(0)
                        } else {
                            self.hyperlink_registered(uri).with_hyperlink(self.next_hyperlink_id)
                        }
                    } else {
                        self
                    }
                } else if params.len() == 2 {
                    self.with_hyperlink(0)
                } else {
                    self
                }
            } else if p0 == seq![0x35u8, 0x32] {
                if params.len() >= 3 {
                    let sel = osc52_selection(params[1]);
                    let data = params[2];
                    if data == seq![0x3fu8] {
                        self.clipboard_pushed(ClipboardEventView::Query(sel))
                    } else if data == seq![0x21u8] {
                        self.clipboard_pushed(ClipboardEventView::Clear(sel))
                    } else {
                        self.clipboard_stored(sel, base64_standard_decoded(data))
                    }
                } else {
                    self
                }
            } else if p0 == seq![0x31u8, 0x33, 0x33] {
                if params.len() >= 2 && params[1] == seq![0x41u8] {
                    TermView { prompt_ready: true, ..self }
                } else {
                    self
                }
            } else {
                self
            }
        }
    }
}

/// Whether `p` is the single byte `b`.
fn is_byte(p: &Vec<u8>, b: u8) -> (r: bool)
    ensures
        r == (p@ == seq![b]),
{
    if p.len() == 1 && p[0] == b {
        assert(p@ =~= seq![b]);
        true
    } else {
        assert(p@ != seq![b]) by {
            if p@ == seq![b] {
                assert(p@.len() == 1 && p@[0] == b);
            }
        }
        false
    }
}

/// Whether `p` is the two bytes `a b`.
fn is_bytes2(p: &Vec<u8>, a: u8, b: u8) -> (r: bool)
    ensures
        r == (p@ == seq![a, b]),
{
    if p.len() == 2 && p[0] == a && p[1] == b {
        assert(p@ =~= seq![a, b]);
        true
    } else {
        assert(p@ != seq![a, b]) by {
            if p@ == seq![a, b] {
                assert(p@.len() == 2 && p@[0] == a && p@[1] == b);
            }
        }
        false
    }
}

/// Whether `p` is the three bytes `a b c`.
fn is_bytes3(p: &Vec<u8>, a: u8, b: u8, c: u8) -> (r: bool)
    ensures
        r == (p@ == seq![a, b, c]),
{
    if p.len() == 3 && p[0] == a && p[1] == b && p[2] == c {
        assert(p@ =~= seq![a, b, c]);
        true
    } else {
        assert(p@ != seq![a, b, c]) by {
            if p@ == seq![a, b, c] {
                assert(p@.len() == 3 && p@[0] == a && p@[1] == b && p@[2] == c);
            }
        }
        false
    }
}

/// The clipboard selection named by the first parameter of OSC 52.
fn selection_of(p: &Vec<u8>) -> (r: ClipboardSelection)
    ensures
        r == osc52_selection(p@),
{
    if is_byte(p, 0x70) {
        ClipboardSelection::Primary
    } else if is_byte(p, 0x73) || p.len() == 0 {
        ClipboardSelection::Both
    } else {
        ClipboardSelection::Clipboard
    }
}

impl Terminal {
    /// Queue the store request for clipboard data that OSC 52 sent, given
    /// what its base64 decoding gave (`None` when it failed).
    pub fn clipboard_store(&mut self, selection: ClipboardSelection, decoded: Option<Vec<u8>>)
        requires
            old(self).wf(),
        ensures
            final(self).wf(),
            final(self)@ == old(self)@.clipboard_stored(
                selection,
                match decoded {
                    Some(d) => Some(d@),
                    None => None,
                },
            ),
    {
        match decoded {
            Some(d) => self.push_clipboard_event(ClipboardEvent::Store(selection, d)),
            None => {},
        }
    }

    /// OSC 0 / 2: set the title.
    fn osc_title(&mut self, params: &Vec<Vec<u8>>)
        requires
            old(self).wf(),
        ensures
            final(self).wf(),
            final(self)@ == (if params@.len() > 1 && valid_utf8(params@[1]@) {
                TermView { title: decode_utf8(params@[1]@), ..old(self)@ }
            } else {
                old(self)@
            }),
    {
        if params.len() > 1 {
            match str_from_utf8(params[1].as_slice()) {
                Some(t) => self.set_title(str_to_string(t)),
                None => {},
            }
        }
    }

    /// OSC 7: set the working directory.
    fn osc_cwd(&mut self, params: &Vec<Vec<u8>>)
        requires
            old(self).wf(),
        ensures
            final(self).wf(),
            final(self)@ == (if params@.len() > 1 && valid_utf8(params@[1]@) {
                TermView { cwd: Some(url_decoded(reported_path(decode_utf8(params@[1]@)))), ..old(self)@ }
            } else {
                old(self)@
            }),
    {
        if params.len() > 1 {
            match str_from_utf8(params[1].as_slice()) {
                Some(uri) => {
                    let cs = chars_of(uri);
                    let path = path_of_uri(&cs);
                    self.set_cwd(url_decode_chars(&path));
                },
                None => {},
            }
        }
    }

    /// OSC 8: start or end a hyperlink.
    fn osc_hyperlink(&mut self, params: &Vec<Vec<u8>>)
        requires
            old(self).wf(),
            params@.len() >= 1,
        ensures
            final(self).wf(),
            final(self)@ == (if params@.len() >= 3 {
                if valid_utf8(params@[2]@) {
                    if decode_utf8(params@[2]@).len() == 0 {
                        old(self)@.with_hyperlink(0)
                    } else {
                        old(self)@.hyperlink_registered(decode_utf8(params@[2]@)).with_hyperlink(
                            old(self)@.next_hyperlink_id,
                        )
                    }
                } else {
                    old(self)@
                }
            } else if params@.len() == 2 {
                old(self)@.with_hyperlink(0)
            } else {
                old(self)@
            }),
    {
        if params.len() >= 3 {
            match str_from_utf8(params[2].as_slice()) {
                Some(uri) => {
                    if uri.is_empty() {
                        self.set_hyperlink(0);
                    } else {
                        let id = self.register_hyperlink(str_to_string(uri));
                        self.set_hyperlink(id);
                    }
                },
                None => {},
            }
        } else if params.len() == 2 {
            self.set_hyperlink(0);
        }
    }

    /// OSC 52: clipboard access.
    fn osc_clipboard(&mut self, params: &Vec<Vec<u8>>)
        requires
            old(self).wf(),
            params@.len() >= 3,
        ensures
            final(self).wf(),
            final(self)@ == ({
                let sel = osc52_selection(params@[1]@);
                let data = params@[2]@;
                if data == seq![0x3fu8] {
                    old(self)@.clipboard_pushed(ClipboardEventView::Query(sel))
                } else if data == seq![0x21u8] {
                    old(self)@.clipboard_pushed(ClipboardEventView::Clear(sel))
                } else {
                    old(self)@.clipboard_stored(sel, base64_standard_decoded(data))
                }
            }),
    {
        let sel = selection_of(&params[1]);
        let data = &params[2];
        if is_byte(data, 0x3f) {
            self.push_clipboard_event(ClipboardEvent::Query(sel));
        } else if is_byte(data, 0x21) {
            self.push_clipboard_event(ClipboardEvent::Clear(sel));
        } else {
            let decoded = match base64_decode(data.as_slice()) {
                Ok(d) => Some(d),
                Err(_) => None,
            };
            self.clipboard_store(sel, decoded);
        }
    }

    /// Handle an OSC sequence (its parameters split at `;`).
    pub fn osc_dispatch(&mut self, params: &Vec<Vec<u8>>, bell_terminated: bool)
        requires
            old(self).wf(),
        ensures
            final(self).wf(),
            final(self)@ == old(self)@.osc_applied(byte_params_view(params@)),
    {
        proof {
            assert forall|i: int| 0 <= i < params@.len() implies #[trigger] byte_params_view(params@)[i]
                == params@[i]@ by {}
        }
        if params.len() == 0 {
            return;
        }
        let p0 = &params[0];
        if is_byte(p0, 0x30) || is_byte(p0, 0x32) {
            self.osc_title(params);
        } else if is_byte(p0, 0x37) {
            self.osc_cwd(params);
        } else if is_byte(p0, 0x38) {
            self.osc_hyperlink(params);
        } else if is_bytes2(p0, 0x35, 0x32) {
            if params.len() >= 3 {
                self.osc_clipboard(params);
            }
        } else if is_bytes3(p0, 0x31, 0x33, 0x33) {
            if params.len() >= 2 && is_byte(&params[1], 0x41) {
                self.set_prompt_ready();
            }
        }
    }
}

/// The views of a list of byte strings.
pub open spec fn byte_params_view(params: Seq<Vec<u8>>) -> Seq<Seq<u8>> {
    params.map_values(|p: Vec<u8>| p@)
}

/// ESC 7 (DECSC) followed by ESC 8 (DECRC) gives back the cursor position,
/// the pen and the origin and auto-wrap modes as they were; only the saved
/// slot is left empty.
pub proof fn lemma_save_restore_round_trip(t: TermView)
    ensures
        t.esc_applied(Seq::empty(), false, 0x37).esc_applied(Seq::empty(), false, 0x38) == t.with_cursor(
            Cursor { saved: None, ..t.cursor },
        ),
{
    let s = t.cursor_saved();
    assert(s.cursor_restored().modes == t.modes);
}

/// Text without a `%` is left as it is by percent-decoding.
pub proof fn lemma_url_decode_plain(s: Seq<char>)
    requires
        !s.contains('%'),
    ensures
        url_decoded(s) == s,
    decreases s.len(),
{
    if s.len() > 0 {
        assert(s[0] != '%');
        let rest = s.skip(1);
        assert forall|i: int| 0 <= i < rest.len() implies rest[i] != '%' by {
            assert(rest[i] == s[i + 1]);
        }
        lemma_url_decode_plain(rest);
        assert(seq![s[0]] + rest =~= s);
    }
}

/// Percent-decoding never makes text longer.
pub proof fn lemma_url_decode_shortens(s: Seq<char>)
    ensures
        url_decoded(s).len() <= s.len(),
    decreases s.len(),
{
    if s.len() > 0 {
        if s[0] == '%' {
            if s.len() >= 3 && hex_pair(s[1], s[2]) is Some {
                lemma_url_decode_shortens(s.skip(3));
            } else {
                let k = if s.len() >= 3 { 3 } else { s.len() as int };
                lemma_url_decode_shortens(s.skip(k));
            }
        } else {
            lemma_url_decode_shortens(s.skip(1));
        }
    }
}

/// CSI K erases in the cursor's line: mode 0 from the cursor to the end of
/// the line, mode 1 from its start through the cursor, mode 2 the whole
/// line. Erased cells become blank; every other cell, every other line, the
/// scrollback and the cursor stay as they were.
pub proof fn lemma_erase_in_line(t: TermView, mode: u16)
    requires
        t.wf(),
        t.cursor.row < t.rows,
        mode <= 2,
    ensures
        ({
            let u = t.csi_applied(seq![seq![mode]], Seq::empty(), false, 'K');
            let row = t.cursor.row as int;
            let col = t.cursor.col as int;
            &&& u.cursor == t.cursor
            &&& u.rows == t.rows && u.cols == t.cols
            &&& u.grid.scrollback == t.grid.scrollback
            &&& u.grid.lines.len() == t.grid.lines.len()
            &&& forall|r: int| 0 <= r < t.rows && r != row ==> #[trigger] u.grid.lines[r] == t.grid.lines[r]
            &&& u.grid.lines[row].cells.len() == t.cols
            &&& forall|j: int|
                0 <= j < t.cols ==> #[trigger] u.grid.lines[row].cells[j] == (if mode == 2 || (mode == 0 && j
                    >= col) || (mode == 1 && j <= col) {
                    blank_cell()
                } else {
                    t.grid.lines[row].cells[j]
                })
        }),
{
    let u = t.csi_applied(seq![seq![mode]], Seq::empty(), false, 'K');
    assert(param_or(seq![seq![mode]], 0, 0) == mode);
    assert(u == t.line_erased(mode));
}

/// CSI J erases in the display: mode 0 from the cursor to the end of the
/// display, mode 1 from its start through the cursor, modes 2 and 3 the
/// whole display. Erased cells become blank and every other cell stays;
/// mode 2 first keeps the display's lines in the scrollback, mode 3 empties
/// the scrollback, and the other modes leave it alone. The cursor stays.
pub proof fn lemma_erase_in_display(t: TermView, mode: u16)
    requires
        t.wf(),
        mode <= 3,
    ensures
        ({
            let u = t.csi_applied(seq![seq![mode]], Seq::empty(), false, 'J');
            let row = t.cursor.row as int;
            let col = t.cursor.col as int;
            &&& u.cursor == t.cursor
            &&& u.grid.lines.len() == t.rows
            &&& forall|r: int| 0 <= r < t.rows ==> (#[trigger] u.grid.lines[r]).cells.len() == t.cols
            &&& forall|r: int, j: int|
                0 <= r < t.rows && 0 <= j < t.cols ==> #[trigger] u.grid.lines[r].cells[j] == (if mode >= 2 || (mode
                    == 0 && (r > row || (r == row && j >= col))) || (mode == 1 && (r < row || (r == row && j
                    <= col))) {
                    blank_cell()
                } else {
                    t.grid.lines[r].cells[j]
                })
            &&& mode <= 1 ==> u.grid.scrollback == t.grid.scrollback
            &&& mode == 3 ==> u.grid.scrollback.len() == 0
            &&& mode == 2 ==> u.grid.scrollback == (if t.grid.scrollback.len() + t.rows > t.grid.max_scrollback {
                (t.grid.scrollback + t.grid.lines).skip(t.grid.scrollback.len() + t.rows - t.grid.max_scrollback)
            } else {
                t.grid.scrollback + t.grid.lines
            })
        }),
{
    let u = t.csi_applied(seq![seq![mode]], Seq::empty(), false, 'J');
    assert(param_or(seq![seq![mode]], 0, 0) == mode);
    assert(u == t.display_erased(mode));
}

} // verus!
