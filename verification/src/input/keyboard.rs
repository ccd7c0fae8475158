//! Keyboard input handling for terminal
use vstd::prelude::*;
use vstd::utf8::{encode_scalar, encode_utf8};
use crate::config::keybinds::Modifiers;
use crate::terminal::modes::TerminalModes;
use crate::text::{push_decimal, decimal, push_utf8, ascii_lower, push_char, str_to_lowercase, str_to_string, lowered};

verus! {

/// A key as the window system reports it.
#[derive(Debug, Clone, Copy, PartialEq, Eq, Structural)]
pub enum Key {
    Return,
    Tab,
    Escape,
    Backspace,
    Delete,
    Insert,
    Home,
    End,
    PageUp,
    PageDown,
    Up,
    Down,
    Right,
    Left,
    F1,
    F2,
    F3,
    F4,
    F5,
    F6,
    F7,
    F8,
    F9,
    F10,
    F11,
    F12,
    Space,
    /// A key that produces a character
    Char(char),
    /// Any other key (modifiers alone, media keys, ...)
    Other,
}

/// xterm-style modifier code: 1 + 1 for shift + 2 for alt + 4 for ctrl.
pub open spec fn modifier_code(ctrl: bool, alt: bool, shift: bool) -> u8 {
    (1 + (if shift { 1int } else { 0 }) + (if alt { 2int } else { 0 }) + (if ctrl { 4int } else { 0 })) as u8
}

/// ESC [ 1 ; m f
pub open spec fn csi_one_mod(m: u8, f: u8) -> Seq<u8> {
    seq![0x1bu8, 0x5b, 0x31, 0x3b] + decimal(m as nat) + seq![f]
}

/// ESC [ num ; m ~
pub open spec fn csi_num_mod_tilde(num: Seq<u8>, m: u8) -> Seq<u8> {
    seq![0x1bu8, 0x5b] + num + seq![0x3bu8] + decimal(m as nat) + seq![0x7eu8]
}

/// The bytes of an arrow key (final byte `dir`): modified keys send
/// ESC [ 1 ; m dir, others ESC O dir in application cursor mode and
/// ESC [ dir otherwise.
pub open spec fn arrow_bytes(dir: u8, ctrl: bool, alt: bool, shift: bool, app_cursor: bool) -> Seq<u8> {
    let m = modifier_code(ctrl, alt, shift);
    if m > 1 {
        csi_one_mod(m, dir)
    } else if app_cursor {
        seq![0x1bu8, 0x4f, dir]
    } else {
        seq![0x1bu8, 0x5b, dir]
    }
}

/// The number that F5-F12 send (15 17 18 19 20 21 23 24).
pub open spec fn function_key_number(n: u8) -> nat {
    if n == 5 {
        15
    } else if n == 6 {
        17
    } else if n == 7 {
        18
    } else if n == 8 {
        19
    } else if n == 9 {
        20
    } else if n == 10 {
        21
    } else if n == 11 {
        23
    } else {
        24
    }
}

/// The bytes of function key F`n`: F1-F4 are ESC O P/Q/R/S (ESC [ 1 ; m
/// P/Q/R/S when modified), F5-F12 ESC [ num ~ (ESC [ num ; m ~ when
/// modified); nothing for other numbers.
pub open spec fn function_key_bytes(n: u8, ctrl: bool, alt: bool, shift: bool) -> Seq<u8> {
    let m = modifier_code(ctrl, alt, shift);
    if 1 <= n <= 4 {
        let code = (0x4f + n) as u8;
        if m > 1 {
            csi_one_mod(m, code)
        } else {
            seq![0x1bu8, 0x4f, code]
        }
    } else if 5 <= n <= 12 {
        let num = decimal(function_key_number(n));
        if m > 1 {
            csi_num_mod_tilde(num, m)
        } else {
            seq![0x1bu8, 0x5b] + num + seq![0x7eu8]
        }
    } else {
        Seq::empty()
    }
}

/// The bytes of an editing key with base sequence `base` (such as `3~` or
/// `H`): ESC [ base, or with modifiers ESC [ num ; m ~ for `num~` bases and
/// ESC [ 1 ; m X for one-letter bases.
pub open spec fn modified_key_bytes(base: Seq<u8>, ctrl: bool, alt: bool, shift: bool) -> Seq<u8> {
    let m = modifier_code(ctrl, alt, shift);
    if base.len() > 0 && base.last() == 0x7e {
        if m > 1 {
            csi_num_mod_tilde(base.drop_last(), m)
        } else {
            seq![0x1bu8, 0x5b] + base
        }
    } else {
        if m > 1 {
            csi_one_mod(m, base[0])
        } else {
            seq![0x1bu8, 0x5b] + base
        }
    }
}

/// The control code that Ctrl with a character sends (the character taken
/// in ASCII lower case and cut to a byte).
pub open spec fn ctrl_code(c: char) -> Option<u8> {
    let code = ((ascii_lower(c) as u32) % 256) as u8;
    if 0x61 <= code <= 0x7a {
        Some((code - 0x61 + 1) as u8)
    } else if code == 0x5b {
        Some(0x1b)
    } else if code == 0x5c {
        Some(0x1c)
    } else if code == 0x5d {
        Some(0x1d)
    } else if code == 0x5e {
        Some(0x1e)
    } else if code == 0x5f {
        Some(0x1f)
    } else if code == 0x3f {
        Some(0x7f)
    } else if code == 0x40 {
        Some(0x00)
    } else {
        None
    }
}

/// The bytes of a character key: a control code with Ctrl (ESC first with
/// Alt too; nothing for characters without one), ESC and the UTF-8 of the
/// character with Alt, the UTF-8 alone otherwise.
pub open spec fn char_key_bytes(c: char, ctrl: bool, alt: bool) -> Seq<u8> {
    if ctrl {
        match ctrl_code(c) {
            Some(code) => if alt { seq![0x1bu8, code] } else { seq![code] },
            None => Seq::empty(),
        }
    } else if alt {
        seq![0x1bu8] + encode_scalar(c as u32)
    } else {
        encode_scalar(c as u32)
    }
}

/// The bytes a key sends to the program in the terminal; `None` for keys
/// that send nothing.
pub open spec fn key_bytes(key: Key, m: Modifiers, app_cursor: bool) -> Option<Seq<u8>> {
    let (ctrl, alt, shift) = (m.ctrl, m.alt, m.shift);
    let any = ctrl || alt || shift;
    match key {
        Key::Return => Some(seq![0x0du8]),
        Key::Tab => Some(if shift { seq![0x1bu8, 0x5b, 0x5a] } else { seq![0x09u8] }),
        Key::Escape => Some(seq![0x1bu8]),
        Key::Backspace => Some(if alt { seq![0x1bu8, 0x7f] } else { seq![0x7fu8] }),
        Key::Delete => Some(modified_key_bytes(seq![0x33u8, 0x7e], ctrl, alt, shift)),
        Key::Insert => Some(modified_key_bytes(seq![0x32u8, 0x7e], ctrl, alt, shift)),
        Key::Home => Some(
            if any {
                modified_key_bytes(seq![0x48u8], ctrl, alt, shift)
            } else if app_cursor {
                seq![0x1bu8, 0x4f, 0x48]
            } else {
                seq![0x1bu8, 0x5b, 0x48]
            },
        ),
        Key::End => Some(
            if any {
                modified_key_bytes(seq![0x46u8], ctrl, alt, shift)
            } else if app_cursor {
                seq![0x1bu8, 0x4f, 0x46]
            } else {
                seq![0x1bu8, 0x5b, 0x46]
            },
        ),
        Key::PageUp => Some(modified_key_bytes(seq![0x35u8, 0x7e], ctrl, alt, shift)),
        Key::PageDown => Some(modified_key_bytes(seq![0x36u8, 0x7e], ctrl, alt, shift)),
        Key::Up => Some(arrow_bytes(0x41, ctrl, alt, shift, app_cursor)),
        Key::Down => Some(arrow_bytes(0x42, ctrl, alt, shift, app_cursor)),
        Key::Right => Some(arrow_bytes(0x43, ctrl, alt, shift, app_cursor)),
        Key::Left => Some(arrow_bytes(0x44, ctrl, alt, shift, app_cursor)),
        Key::F1 => Some(function_key_bytes(1, ctrl, alt, shift)),
        Key::F2 => Some(function_key_bytes(2, ctrl, alt, shift)),
        Key::F3 => Some(function_key_bytes(3, ctrl, alt, shift)),
        Key::F4 => Some(function_key_bytes(4, ctrl, alt, shift)),
        Key::F5 => Some(function_key_bytes(5, ctrl, alt, shift)),
        Key::F6 => Some(function_key_bytes(6, ctrl, alt, shift)),
        Key::F7 => Some(function_key_bytes(7, ctrl, alt, shift)),
        Key::F8 => Some(function_key_bytes(8, ctrl, alt, shift)),
        Key::F9 => Some(function_key_bytes(9, ctrl, alt, shift)),
        Key::F10 => Some(function_key_bytes(10, ctrl, alt, shift)),
        Key::F11 => Some(function_key_bytes(11, ctrl, alt, shift)),
        Key::F12 => Some(function_key_bytes(12, ctrl, alt, shift)),
        Key::Space => Some(
            if ctrl {
                seq![0x00u8]
            } else if alt {
                seq![0x1bu8, 0x20]
            } else {
                seq![0x20u8]
            },
        ),
        Key::Char(c) => Some(char_key_bytes(c, ctrl, alt)),
        Key::Other => None,
    }
}

/// Keyboard handler for translating key events to terminal escape sequences
pub struct KeyboardHandler;

impl KeyboardHandler {
    /// Translate a key event to bytes for the PTY
    pub fn translate(key: Key, mods: &Modifiers, modes: &TerminalModes) -> (r: Option<Vec<u8>>)
        ensures
            match r {
                Some(v) => key_bytes(key, *mods, modes.application_cursor) == Some(v@),
                None => key_bytes(key, *mods, modes.application_cursor) is None,
            },
    {
        let ctrl = mods.ctrl;
        let alt = mods.alt;
        let shift = mods.shift;
        let app = modes.application_cursor;
        let bytes = match key {
            Key::Return => vec![0x0d],
            Key::Tab => {
                if shift {
                    // Shift+Tab = reverse tab (CSI Z)
                    vec![0x1b, 0x5b, 0x5a]
                } else {
                    vec![0x09]
                }
            },
            Key::Escape => vec![0x1b],
            Key::Backspace => {
                if alt {
                    vec![0x1b, 0x7f]
                } else {
                    vec![0x7f]
                }
            },
            Key::Delete => Self::modified_key(&vec![0x33, 0x7e], ctrl, alt, shift),
            Key::Insert => Self::modified_key(&vec![0x32, 0x7e], ctrl, alt, shift),
            Key::Home => {
                if ctrl || alt || shift {
                    Self::modified_key(&vec![0x48], ctrl, alt, shift)
                } else if app {
                    vec![0x1b, 0x4f, 0x48]
                } else {
                    vec![0x1b, 0x5b, 0x48]
                }
            },
            Key::End => {
                if ctrl || alt || shift {
                    Self::modified_key(&vec![0x46], ctrl, alt, shift)
                } else if app {
                    vec![0x1b, 0x4f, 0x46]
                } else {
                    vec![0x1b, 0x5b, 0x46]
                }
            },
            Key::PageUp => Self::modified_key(&vec![0x35, 0x7e], ctrl, alt, shift),
            Key::PageDown => Self::modified_key(&vec![0x36, 0x7e], ctrl, alt, shift),
            Key::Up => Self::arrow_key(0x41, ctrl, alt, shift, modes),
            Key::Down => Self::arrow_key(0x42, ctrl, alt, shift, modes),
            Key::Right => Self::arrow_key(0x43, ctrl, alt, shift, modes),
            Key::Left => Self::arrow_key(0x44, ctrl, alt, shift, modes),
            Key::F1 => Self::function_key(1, ctrl, alt, shift),
            Key::F2 => Self::function_key(2, ctrl, alt, shift),
            Key::F3 => Self::function_key(3, ctrl, alt, shift),
            Key::F4 => Self::function_key(4, ctrl, alt, shift),
            Key::F5 => Self::function_key(5, ctrl, alt, shift),
            Key::F6 => Self::function_key(6, ctrl, alt, shift),
            Key::F7 => Self::function_key(7, ctrl, alt, shift),
            Key::F8 => Self::function_key(8, ctrl, alt, shift),
            Key::F9 => Self::function_key(9, ctrl, alt, shift),
            Key::F10 => Self::function_key(10, ctrl, alt, shift),
            Key::F11 => Self::function_key(11, ctrl, alt, shift),
            Key::F12 => Self::function_key(12, ctrl, alt, shift),
            Key::Space => {
                if ctrl {
                    // Ctrl+Space = NUL
                    vec![0x00]
                } else if alt {
                    vec![0x1b, 0x20]
                } else {
                    vec![0x20]
                }
            },
            Key::Char(c) => Self::char_key(c, ctrl, alt),
            Key::Other => {
                return None;
            },
        };
        proof {
            assert(bytes@ =~= key_bytes(key, *mods, app)->0);
        }
        Some(bytes)
    }

    /// ESC [ 1 ; m f
    fn csi_one_modified(m: u8, f: u8) -> (r: Vec<u8>)
        ensures
            r@ == csi_one_mod(m, f),
    {
        let mut r = vec![0x1b, 0x5b, 0x31, 0x3b];
        push_decimal(&mut r, m as u64);
        r.push(f);
        assert(r@ =~= csi_one_mod(m, f));
        r
    }

    /// Generate escape sequence for arrow keys with modifiers
    fn arrow_key(dir: u8, ctrl: bool, alt: bool, shift: bool, modes: &TerminalModes) -> (r: Vec<u8>)
        ensures
            r@ == arrow_bytes(dir, ctrl, alt, shift, modes.application_cursor),
    {
        let modifier = Self::modifier_code(ctrl, alt, shift);
        if modifier > 1 {
            // Modified arrow: CSI 1 ; modifier dir
            Self::csi_one_modified(modifier, dir)
        } else if modes.application_cursor {
            let r = vec![0x1b, 0x4f, dir];
            assert(r@ =~= seq![0x1bu8, 0x4f, dir]);
            r
        } else {
            let r = vec![0x1b, 0x5b, dir];
            assert(r@ =~= seq![0x1bu8, 0x5b, dir]);
            r
        }
    }

    /// Generate escape sequence for function keys with modifiers
    fn function_key(n: u8, ctrl: bool, alt: bool, shift: bool) -> (r: Vec<u8>)
        ensures
            r@ == function_key_bytes(n, ctrl, alt, shift),
    {
        let modifier = Self::modifier_code(ctrl, alt, shift);
        if 1 <= n && n <= 4 {
            // F1-F4 use SS3 (ESC O P..S)
            let code = 0x4f + n;
            if modifier > 1 {
                Self::csi_one_modified(modifier, code)
            } else {
                let r = vec![0x1b, 0x4f, code];
                assert(r@ =~= seq![0x1bu8, 0x4f, code]);
                r
            }
        } else if 5 <= n && n <= 12 {
            // F5-F12 use CSI number ~
            let num: u64 = if n == 5 {
                15
            } else if n == 6 {
                17
            } else if n == 7 {
                18
            } else if n == 8 {
                19
            } else if n == 9 {
                20
            } else if n == 10 {
                21
            } else if n == 11 {
                23
            } else {
                24
            };
            let mut r = vec![0x1b, 0x5b];
            push_decimal(&mut r, num);
            if modifier > 1 {
                r.push(0x3b);
                push_decimal(&mut r, modifier as u64);
            }
            r.push(0x7e);
            proof {
                let digits = decimal(function_key_number(n));
                if modifier > 1 {
                    assert(r@ =~= csi_num_mod_tilde(digits, modifier));
                } else {
                    assert(r@ =~= seq![0x1bu8, 0x5b] + digits + seq![0x7eu8]);
                }
            }
            r
        } else {
            Vec::new()
        }
    }

    /// Generate escape sequence for editing keys with modifiers
    fn modified_key(base: &Vec<u8>, ctrl: bool, alt: bool, shift: bool) -> (r: Vec<u8>)
        requires
            base@.len() > 0,
        ensures
            r@ == modified_key_bytes(base@, ctrl, alt, shift),
    {
        let modifier = Self::modifier_code(ctrl, alt, shift);
        let n = base.len();
        let mut r = vec![0x1b, 0x5b];
        if base[n - 1] == 0x7e && modifier > 1 {
            // CSI number ; modifier ~
            let mut i: usize = 0;
            while i < n - 1
                invariant
                    i <= n - 1,
                    n == base@.len(),
                    r@ == seq![0x1bu8, 0x5b] + base@.take(i as int),
                decreases n - 1 - i,
            {
                r.push(base[i]);
                i += 1;
                assert(base@.take(i as int) =~= base@.take(i - 1).push(base@[i - 1]));
            }
            r.push(0x3b);
            push_decimal(&mut r, modifier as u64);
            r.push(0x7e);
            assert(base@.take(n - 1) =~= base@.drop_last());
            assert(r@ =~= csi_num_mod_tilde(base@.drop_last(), modifier));
            r
        } else if base[n - 1] != 0x7e && modifier > 1 {
            // CSI 1 ; modifier code (H, F, etc.)
            Self::csi_one_modified(modifier, base[0])
        } else {
            let mut i: usize = 0;
            while i < n
                invariant
                    i <= n,
                    n == base@.len(),
                    r@ == seq![0x1bu8, 0x5b] + base@.take(i as int),
                decreases n - i,
            {
                r.push(base[i]);
                i += 1;
                assert(base@.take(i as int) =~= base@.take(i - 1).push(base@[i - 1]));
            }
            assert(base@.take(n as int) =~= base@);
            r
        }
    }

    /// Generate bytes for character keys with modifiers
    fn char_key(c: char, ctrl: bool, alt: bool) -> (r: Vec<u8>)
        ensures
            r@ == char_key_bytes(c, ctrl, alt),
    {
        if ctrl {
            // Ctrl+letter = control code
            let lower = if 'A' <= c && c <= 'Z' { ((c as u32) + 32) as u8 as char } else { c };
            let code = ((lower as u32) % 256) as u8;
            let ctrl_code: u8 = if 0x61 <= code && code <= 0x7a {
                code - 0x61 + 1
            } else if code == 0x5b {
                // Ctrl+[ = ESC
                0x1b
            } else if code == 0x5c {
                0x1c
            } else if code == 0x5d {
                0x1d
            } else if code == 0x5e {
                0x1e
            } else if code == 0x5f {
                0x1f
            } else if code == 0x3f {
                // Ctrl+? = DEL
                0x7f
            } else if code == 0x40 {
                // Ctrl+@ = NUL
                0x00
            } else {
                return Vec::new();
            };
            if alt {
                let r = vec![0x1b, ctrl_code];
                assert(r@ =~= seq![0x1bu8, ctrl_code]);
                r
            } else {
                let r = vec![ctrl_code];
                assert(r@ =~= seq![ctrl_code]);
                r
            }
        } else if alt {
            // Alt sends escape prefix
            let mut bytes = vec![0x1b];
            push_utf8(&mut bytes, c);
            bytes
        } else {
            // Regular character
            let mut bytes = Vec::new();
            push_utf8(&mut bytes, c);
            assert(bytes@ =~= encode_scalar(c as u32));
            bytes
        }
    }

    /// Calculate xterm-style modifier code
    /// 1 = none, 2 = shift, 3 = alt, 4 = shift+alt
    /// 5 = ctrl, 6 = shift+ctrl, 7 = alt+ctrl, 8 = shift+alt+ctrl
    fn modifier_code(ctrl: bool, alt: bool, shift: bool) -> (r: u8)
        ensures
            r == modifier_code(ctrl, alt, shift),
    {
        let mut code = 1u8;
        if shift {
            code += 1;
        }
        if alt {
            code += 2;
        }
        if ctrl {
            code += 4;
        }
        code
    }
}

/// The name a key is looked up by in the keybindings: a character in
/// lower case, other keys by their lower-case names.
pub open spec fn key_name_of(key: Key) -> Seq<char> {
    match key {
        Key::Char(c) => lowered(seq![c]),
        Key::Return => "return"@,
        Key::Tab => "tab"@,
        Key::Backspace => "backspace"@,
        Key::Escape => "escape"@,
        Key::Up => "up"@,
        Key::Down => "down"@,
        Key::Left => "left"@,
        Key::Right => "right"@,
        Key::Home => "home"@,
        Key::End => "end"@,
        Key::PageUp => "page_up"@,
        Key::PageDown => "page_down"@,
        Key::Insert => "insert"@,
        Key::Delete => "delete"@,
        Key::F1 => "f1"@,
        Key::F2 => "f2"@,
        Key::F3 => "f3"@,
        Key::F4 => "f4"@,
        Key::F5 => "f5"@,
        Key::F6 => "f6"@,
        Key::F7 => "f7"@,
        Key::F8 => "f8"@,
        Key::F9 => "f9"@,
        Key::F10 => "f10"@,
        Key::F11 => "f11"@,
        Key::F12 => "f12"@,
        Key::Space => "space"@,
        Key::Other => "unknown"@,
    }
}

/// The name of a key for keybinding lookup
pub fn key_name(key: &Key) -> (r: String)
    ensures
        r@ == key_name_of(*key),
{
    match key {
        Key::Char(c) => {
            let mut one = String::new();
            push_char(&mut one, *c);
            assert(one@ =~= seq![*c]);
            str_to_lowercase(one.as_str())
        },
        Key::Return => str_to_string("return"),
        Key::Tab => str_to_string("tab"),
        Key::Backspace => str_to_string("backspace"),
        Key::Escape => str_to_string("escape"),
        Key::Up => str_to_string("up"),
        Key::Down => str_to_string("down"),
        Key::Left => str_to_string("left"),
        Key::Right => str_to_string("right"),
        Key::Home => str_to_string("home"),
        Key::End => str_to_string("end"),
        Key::PageUp => str_to_string("page_up"),
        Key::PageDown => str_to_string("page_down"),
        Key::Insert => str_to_string("insert"),
        Key::Delete => str_to_string("delete"),
        Key::F1 => str_to_string("f1"),
        Key::F2 => str_to_string("f2"),
        Key::F3 => str_to_string("f3"),
        Key::F4 => str_to_string("f4"),
        Key::F5 => str_to_string("f5"),
        Key::F6 => str_to_string("f6"),
        Key::F7 => str_to_string("f7"),
        Key::F8 => str_to_string("f8"),
        Key::F9 => str_to_string("f9"),
        Key::F10 => str_to_string("f10"),
        Key::F11 => str_to_string("f11"),
        Key::F12 => str_to_string("f12"),
        Key::Space => str_to_string("space"),
        Key::Other => str_to_string("unknown"),
    }
}

/// The bytes a paste of `text` sends: its UTF-8, between `ESC [ 200 ~`
/// and `ESC [ 201 ~` when the application asked for bracketed paste.
pub open spec fn pasted(text: Seq<char>, bracketed: bool) -> Seq<u8> {
    if bracketed {
        seq![0x1bu8, 0x5b, 0x32, 0x30, 0x30, 0x7e] + encode_utf8(text) + seq![0x1bu8, 0x5b, 0x32, 0x30, 0x31, 0x7e]
    } else {
        encode_utf8(text)
    }
}

/// The bytes to write for pasting `text`
pub fn paste_bytes(text: &str, bracketed: bool) -> (r: Vec<u8>)
    ensures
        r@ == pasted(text@, bracketed),
{
    let b = text.as_bytes();
    let mut out: Vec<u8> = Vec::new();
    if bracketed {
        out.push(0x1b);
        out.push(0x5b);
        out.push(0x32);
        out.push(0x30);
        out.push(0x30);
        out.push(0x7e);
    }
    let ghost start = out@;
    let mut i: usize = 0;
    while i < b.len()
        invariant
            i <= b@.len(),
            out@ == start + b@.take(i as int),
        decreases b@.len() - i,
    {
        out.push(b[i]);
        i += 1;
        assert(b@.take(i as int) =~= b@.take(i - 1).push(b@[i - 1]));
    }
    assert(b@.take(i as int) =~= b@);
    if bracketed {
        out.push(0x1b);
        out.push(0x5b);
        out.push(0x32);
        out.push(0x30);
        out.push(0x31);
        out.push(0x7e);
        assert(out@ =~= pasted(text@, bracketed));
    } else {
        assert(out@ =~= pasted(text@, bracketed));
    }
    out
}

/// The xterm modifier number: 1, plus 1 with shift, 2 with alt, 4 with ctrl.
pub open spec fn xterm_modifier(m: Modifiers) -> int {
    1 + (if m.shift { 1int } else { 0 }) + (if m.alt { 2int } else { 0 }) + (if m.ctrl { 4int } else { 0 })
}

/// The editing keys send ESC [ n ~, with n 2 for Insert, 3 for Delete, 5
/// for Page Up and 6 for Page Down, in either cursor mode; held modifiers
/// add `; m` before the `~`. Home, End and the arrows with modifiers send
/// ESC [ 1 ; m and their letter (H, F, A up, B down, C right, D left).
pub proof fn lemma_editing_key_bytes(m: Modifiers, app_cursor: bool)
    ensures
        ({
            let code = xterm_modifier(m);
            let tail: Seq<u8> = if code > 1 { seq![0x3bu8, (0x30 + code) as u8, 0x7e] } else { seq![0x7eu8] };
            let one = |f: u8| seq![0x1bu8, 0x5b, 0x31, 0x3b, (0x30 + code) as u8, f];
            &&& key_bytes(Key::Insert, m, app_cursor) == Some(seq![0x1bu8, 0x5b, 0x32] + tail)
            &&& key_bytes(Key::Delete, m, app_cursor) == Some(seq![0x1bu8, 0x5b, 0x33] + tail)
            &&& key_bytes(Key::PageUp, m, app_cursor) == Some(seq![0x1bu8, 0x5b, 0x35] + tail)
            &&& key_bytes(Key::PageDown, m, app_cursor) == Some(seq![0x1bu8, 0x5b, 0x36] + tail)
            &&& code > 1 ==> {
                &&& key_bytes(Key::Home, m, app_cursor) == Some(one(0x48))
                &&& key_bytes(Key::End, m, app_cursor) == Some(one(0x46))
                &&& key_bytes(Key::Up, m, app_cursor) == Some(one(0x41))
                &&& key_bytes(Key::Down, m, app_cursor) == Some(one(0x42))
                &&& key_bytes(Key::Right, m, app_cursor) == Some(one(0x43))
                &&& key_bytes(Key::Left, m, app_cursor) == Some(one(0x44))
            }
        }),
{
    let code = xterm_modifier(m);
    assert(modifier_code(m.ctrl, m.alt, m.shift) == code);
    assert(decimal(code as nat) == seq![(code + 48) as u8]);
    let tail: Seq<u8> = if code > 1 { seq![0x3bu8, (0x30 + code) as u8, 0x7e] } else { seq![0x7eu8] };
    assert(seq![0x32u8, 0x7e].drop_last() =~= seq![0x32u8]);
    assert(seq![0x33u8, 0x7e].drop_last() =~= seq![0x33u8]);
    assert(seq![0x35u8, 0x7e].drop_last() =~= seq![0x35u8]);
    assert(seq![0x36u8, 0x7e].drop_last() =~= seq![0x36u8]);
    assert(seq![0x1bu8, 0x5b] + seq![0x32u8, 0x7e] =~= seq![0x1bu8, 0x5b, 0x32] + seq![0x7eu8]);
    assert(seq![0x1bu8, 0x5b] + seq![0x33u8, 0x7e] =~= seq![0x1bu8, 0x5b, 0x33] + seq![0x7eu8]);
    assert(seq![0x1bu8, 0x5b] + seq![0x35u8, 0x7e] =~= seq![0x1bu8, 0x5b, 0x35] + seq![0x7eu8]);
    assert(seq![0x1bu8, 0x5b] + seq![0x36u8, 0x7e] =~= seq![0x1bu8, 0x5b, 0x36] + seq![0x7eu8]);
    assert(csi_num_mod_tilde(seq![0x32u8], code as u8) =~= seq![0x1bu8, 0x5b, 0x32] + seq![0x3bu8, (0x30 + code) as u8, 0x7e]);
    assert(csi_num_mod_tilde(seq![0x33u8], code as u8) =~= seq![0x1bu8, 0x5b, 0x33] + seq![0x3bu8, (0x30 + code) as u8, 0x7e]);
    assert(csi_num_mod_tilde(seq![0x35u8], code as u8) =~= seq![0x1bu8, 0x5b, 0x35] + seq![0x3bu8, (0x30 + code) as u8, 0x7e]);
    assert(csi_num_mod_tilde(seq![0x36u8], code as u8) =~= seq![0x1bu8, 0x5b, 0x36] + seq![0x3bu8, (0x30 + code) as u8, 0x7e]);
    if code > 1 {
        assert forall|f: u8| #[trigger] csi_one_mod(code as u8, f) =~= seq![0x1bu8, 0x5b, 0x31, 0x3b, (0x30 + code) as u8, f] by {}
    }
}

/// Without modifiers the keys send: Return CR, Tab HT, Escape ESC,
/// Backspace DEL, Space a space; Home, End and the arrows ESC [ and their
/// letter (ESC O and the letter in application cursor mode); F1-F4 ESC O P
/// to ESC O S; F5-F12 ESC [ 15 ~, 17 ~, 18 ~, 19 ~, 20 ~, 21 ~, 23 ~, 24 ~.
pub proof fn lemma_plain_key_bytes(app_cursor: bool)
    ensures
        ({
            let m = Modifiers { ctrl: false, alt: false, shift: false, super_key: false };
            let intro: u8 = if app_cursor { 0x4f } else { 0x5b };
            let fk = |a: u8, b: u8| Some(seq![0x1bu8, 0x5b, a, b, 0x7e]);
            &&& key_bytes(Key::Return, m, app_cursor) == Some(seq![0x0du8])
            &&& key_bytes(Key::Tab, m, app_cursor) == Some(seq![0x09u8])
            &&& key_bytes(Key::Escape, m, app_cursor) == Some(seq![0x1bu8])
            &&& key_bytes(Key::Backspace, m, app_cursor) == Some(seq![0x7fu8])
            &&& key_bytes(Key::Space, m, app_cursor) == Some(seq![0x20u8])
            &&& key_bytes(Key::Home, m, app_cursor) == Some(seq![0x1bu8, intro, 0x48])
            &&& key_bytes(Key::End, m, app_cursor) == Some(seq![0x1bu8, intro, 0x46])
            &&& key_bytes(Key::Up, m, app_cursor) == Some(seq![0x1bu8, intro, 0x41])
            &&& key_bytes(Key::Down, m, app_cursor) == Some(seq![0x1bu8, intro, 0x42])
            &&& key_bytes(Key::Right, m, app_cursor) == Some(seq![0x1bu8, intro, 0x43])
            &&& key_bytes(Key::Left, m, app_cursor) == Some(seq![0x1bu8, intro, 0x44])
            &&& key_bytes(Key::F1, m, app_cursor) == Some(seq![0x1bu8, 0x4f, 0x50])
            &&& key_bytes(Key::F2, m, app_cursor) == Some(seq![0x1bu8, 0x4f, 0x51])
            &&& key_bytes(Key::F3, m, app_cursor) == Some(seq![0x1bu8, 0x4f, 0x52])
            &&& key_bytes(Key::F4, m, app_cursor) == Some(seq![0x1bu8, 0x4f, 0x53])
            &&& key_bytes(Key::F5, m, app_cursor) == fk(0x31, 0x35)
            &&& key_bytes(Key::F6, m, app_cursor) == fk(0x31, 0x37)
            &&& key_bytes(Key::F7, m, app_cursor) == fk(0x31, 0x38)
            &&& key_bytes(Key::F8, m, app_cursor) == fk(0x31, 0x39)
            &&& key_bytes(Key::F9, m, app_cursor) == fk(0x32, 0x30)
            &&& key_bytes(Key::F10, m, app_cursor) == fk(0x32, 0x31)
            &&& key_bytes(Key::F11, m, app_cursor) == fk(0x32, 0x33)
            &&& key_bytes(Key::F12, m, app_cursor) == fk(0x32, 0x34)
        }),
{
    let m = Modifiers { ctrl: false, alt: false, shift: false, super_key: false };
    assert(modifier_code(false, false, false) == 1);
    reveal_with_fuel(decimal, 3);
    assert(decimal(15) =~= seq![0x31u8, 0x35]);
    assert(decimal(17) =~= seq![0x31u8, 0x37]);
    assert(decimal(18) =~= seq![0x31u8, 0x38]);
    assert(decimal(19) =~= seq![0x31u8, 0x39]);
    assert(decimal(20) =~= seq![0x32u8, 0x30]);
    assert(decimal(21) =~= seq![0x32u8, 0x31]);
    assert(decimal(23) =~= seq![0x32u8, 0x33]);
    assert(decimal(24) =~= seq![0x32u8, 0x34]);
    assert(seq![0x1bu8, 0x5b] + decimal(15) + seq![0x7eu8] =~= seq![0x1bu8, 0x5b, 0x31, 0x35, 0x7e]);
    assert(seq![0x1bu8, 0x5b] + decimal(17) + seq![0x7eu8] =~= seq![0x1bu8, 0x5b, 0x31, 0x37, 0x7e]);
    assert(seq![0x1bu8, 0x5b] + decimal(18) + seq![0x7eu8] =~= seq![0x1bu8, 0x5b, 0x31, 0x38, 0x7e]);
    assert(seq![0x1bu8, 0x5b] + decimal(19) + seq![0x7eu8] =~= seq![0x1bu8, 0x5b, 0x31, 0x39, 0x7e]);
    assert(seq![0x1bu8, 0x5b] + decimal(20) + seq![0x7eu8] =~= seq![0x1bu8, 0x5b, 0x32, 0x30, 0x7e]);
    assert(seq![0x1bu8, 0x5b] + decimal(21) + seq![0x7eu8] =~= seq![0x1bu8, 0x5b, 0x32, 0x31, 0x7e]);
    assert(seq![0x1bu8, 0x5b] + decimal(23) + seq![0x7eu8] =~= seq![0x1bu8, 0x5b, 0x32, 0x33, 0x7e]);
    assert(seq![0x1bu8, 0x5b] + decimal(24) + seq![0x7eu8] =~= seq![0x1bu8, 0x5b, 0x32, 0x34, 0x7e]);
}

/// Without modifiers, different keys (other than character keys) send
/// different bytes, in either cursor mode.
#[verifier::rlimit(60)]
pub proof fn lemma_plain_keys_distinct(k1: Key, k2: Key, app_cursor: bool)
    requires
        !(k1 is Char) && !(k1 is Other),
        !(k2 is Char) && !(k2 is Other),
        k1 != k2,
    ensures
        key_bytes(k1, Modifiers { ctrl: false, alt: false, shift: false, super_key: false }, app_cursor) != key_bytes(
            k2,
            Modifiers { ctrl: false, alt: false, shift: false, super_key: false },
            app_cursor,
        ),
{
    let m = Modifiers { ctrl: false, alt: false, shift: false, super_key: false };
    lemma_plain_key_bytes(app_cursor);
    lemma_editing_key_bytes(m, app_cursor);
    let b1 = key_bytes(k1, m, app_cursor)->0;
    let b2 = key_bytes(k2, m, app_cursor)->0;
    if b1 =~= b2 {
        assert(b1.len() == b2.len());
        if b1.len() == 3 {
            assert(b1[1] == b2[1] && b1[2] == b2[2]);
        } else if b1.len() == 4 {
            assert(b1[2] == b2[2]);
        } else if b1.len() == 5 {
            assert(b1[2] == b2[2] && b1[3] == b2[3]);
        } else {
            assert(b1[0] == b2[0]);
        }
    }
}

} // verus!