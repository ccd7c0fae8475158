use vstd::prelude::*;

verus! {

/// Mouse tracking mode
#[derive(Debug, Clone, Copy, PartialEq, Eq, Structural)]
pub enum MouseMode {
    /// No mouse reporting
    Off,
    /// X10 compatibility mode - report button press only
    X10,
    /// VT200 mode - report button press and release
    Vt200,
    /// Button-event tracking - report motion while button pressed
    ButtonEvent,
    /// Any-event tracking - report all motion
    AnyEvent,
}

impl Default for MouseMode {
    fn default() -> (r: Self)
        ensures
            r == MouseMode::Off,
    {
        MouseMode::Off
    }
}

/// Mouse coordinate encoding
#[derive(Debug, Clone, Copy, PartialEq, Eq, Structural)]
pub enum MouseEncoding {
    /// X10 encoding - limited to 223 columns/rows
    X10,
    /// UTF-8 encoding - extended range
    Utf8,
    /// SGR encoding - modern, preferred
    Sgr,
    /// urxvt encoding
    Urxvt,
}

impl Default for MouseEncoding {
    fn default() -> (r: Self)
        ensures
            r == MouseEncoding::X10,
    {
        MouseEncoding::X10
    }
}

/// Terminal modes (DEC private modes and ANSI modes)
#[derive(Debug, Clone, Copy, PartialEq, Eq, Structural)]
pub struct TerminalModes {
    /// DECCKM - Application cursor keys
    pub application_cursor: bool,
    /// DECNKM - Application keypad
    pub application_keypad: bool,
    /// DECAWM - Auto-wrap mode
    pub autowrap: bool,
    /// DECOM - Origin mode (cursor relative to scroll region)
    pub origin: bool,
    /// DECTCEM - Text cursor enable (visibility)
    pub cursor_visible: bool,
    /// DECSCNM - Screen mode (reverse video)
    pub reverse_video: bool,
    /// DECBKM - Backarrow key mode
    pub backarrow_is_backspace: bool,
    /// IRM - Insert/Replace mode
    pub insert: bool,
    /// LNM - Linefeed/Newline mode
    pub linefeed: bool,
    /// Bracketed paste mode
    pub bracketed_paste: bool,
    /// Focus event reporting
    pub focus_events: bool,
    /// Alternate screen buffer active
    pub alt_screen: bool,
    pub mouse_mode: MouseMode,
    pub mouse_encoding: MouseEncoding,
}

/// Every mode off, no mouse reporting, X10 mouse encoding.
pub open spec fn modes_all_off() -> TerminalModes {
    TerminalModes {
        application_cursor: false,
        application_keypad: false,
        autowrap: false,
        origin: false,
        cursor_visible: false,
        reverse_video: false,
        backarrow_is_backspace: false,
        insert: false,
        linefeed: false,
        bracketed_paste: false,
        focus_events: false,
        alt_screen: false,
        mouse_mode: MouseMode::Off,
        mouse_encoding: MouseEncoding::X10,
    }
}

/// The modes of a fresh terminal: auto-wrap on, cursor visible, all else off.
pub open spec fn initial_modes() -> TerminalModes {
    TerminalModes { autowrap: true, cursor_visible: true, ..modes_all_off() }
}

/// The effect of setting (`value`) or resetting DEC private mode `mode`.
#[verifier::opaque]
pub open spec fn with_dec_mode(m: TerminalModes, mode: u16, value: bool) -> TerminalModes {
    match mode {
        1 => TerminalModes { application_cursor: value, ..m },
        5 => TerminalModes { reverse_video: value, ..m },
        6 => TerminalModes { origin: value, ..m },
        7 => TerminalModes { autowrap: value, ..m },
        25 => TerminalModes { cursor_visible: value, ..m },
        47 | 1047 | 1049 => TerminalModes { alt_screen: value, ..m },
        66 => TerminalModes { application_keypad: value, ..m },
        67 => TerminalModes { backarrow_is_backspace: value, ..m },
        1000 => TerminalModes { mouse_mode: if value { MouseMode::X10 } else { MouseMode::Off }, ..m },
        1002 => TerminalModes {
            mouse_mode: if value { MouseMode::ButtonEvent } else { MouseMode::Off },
            ..m
        },
        1003 => TerminalModes { mouse_mode: if value { MouseMode::AnyEvent } else { MouseMode::Off }, ..m },
        1004 => TerminalModes { focus_events: value, ..m },
        1005 => TerminalModes {
            mouse_encoding: if value { MouseEncoding::Utf8 } else { MouseEncoding::X10 },
            ..m
        },
        1006 => TerminalModes {
            mouse_encoding: if value { MouseEncoding::Sgr } else { MouseEncoding::X10 },
            ..m
        },
        1015 => TerminalModes {
            mouse_encoding: if value { MouseEncoding::Urxvt } else { MouseEncoding::X10 },
            ..m
        },
        2004 => TerminalModes { bracketed_paste: value, ..m },
        _ => m,
    }
}

/// The effect of setting (`value`) or resetting ANSI mode `mode`.
pub open spec fn with_ansi_mode(m: TerminalModes, mode: u16, value: bool) -> TerminalModes {
    if mode == 4 {
        TerminalModes { insert: value, ..m }
    } else if mode == 20 {
        TerminalModes { linefeed: value, ..m }
    } else {
        m
    }
}

impl Default for TerminalModes {
    fn default() -> (r: Self)
        ensures
            r == modes_all_off(),
    {
        TerminalModes {
            application_cursor: false,
            application_keypad: false,
            autowrap: false,
            origin: false,
            cursor_visible: false,
            reverse_video: false,
            backarrow_is_backspace: false,
            insert: false,
            linefeed: false,
            bracketed_paste: false,
            focus_events: false,
            alt_screen: false,
            mouse_mode: MouseMode::Off,
            mouse_encoding: MouseEncoding::X10,
        }
    }
}

impl TerminalModes {
    pub fn new() -> (r: Self)
        ensures
            r == initial_modes(),
    {
        TerminalModes { autowrap: true, cursor_visible: true, ..TerminalModes::default() }
    }

    /// Reset to default modes
    pub fn reset(&mut self)
        ensures
            *final(self) == initial_modes(),
    {
        *self = TerminalModes::new();
    }

    /// Set a DEC private mode
    pub fn set_dec_mode(&mut self, mode: u16, value: bool)
        ensures
            *final(self) == with_dec_mode(*old(self), mode, value),
    {
        reveal(with_dec_mode);
        let m = *self;
        // 3 (DECCOLM), 12 (cursor blink) and 1048 (save/restore cursor) are
        // handled elsewhere; unknown modes are ignored.
        *self = match mode {
            1 => TerminalModes { application_cursor: value, ..m },
            5 => TerminalModes { reverse_video: value, ..m },
            6 => TerminalModes { origin: value, ..m },
            7 => TerminalModes { autowrap: value, ..m },
            25 => TerminalModes { cursor_visible: value, ..m },
            47 | 1047 | 1049 => TerminalModes { alt_screen: value, ..m },
            66 => TerminalModes { application_keypad: value, ..m },
            67 => TerminalModes { backarrow_is_backspace: value, ..m },
            1000 => TerminalModes { mouse_mode: if value { MouseMode::X10 } else { MouseMode::Off }, ..m },
            1002 => TerminalModes {
                mouse_mode: if value { MouseMode::ButtonEvent } else { MouseMode::Off },
                ..m
            },
            1003 => TerminalModes {
                mouse_mode: if value { MouseMode::AnyEvent } else { MouseMode::Off },
                ..m
            },
            1004 => TerminalModes { focus_events: value, ..m },
            1005 => TerminalModes {
                mouse_encoding: if value { MouseEncoding::Utf8 } else { MouseEncoding::X10 },
                ..m
            },
            1006 => TerminalModes {
                mouse_encoding: if value { MouseEncoding::Sgr } else { MouseEncoding::X10 },
                ..m
            },
            1015 => TerminalModes {
                mouse_encoding: if value { MouseEncoding::Urxvt } else { MouseEncoding::X10 },
                ..m
            },
            2004 => TerminalModes { bracketed_paste: value, ..m },
            _ => m,
        };
    }

    /// Set an ANSI mode
    pub fn set_ansi_mode(&mut self, mode: u16, value: bool)
        ensures
            *final(self) == with_ansi_mode(*old(self), mode, value),
    {
        match mode {
            4 => self.insert = value,
            20 => self.linefeed = value,
            _ => {},  // Unknown mode, ignore
        }
    }
}

proof fn lemma_flag_modes_last_wins(m: TerminalModes, mode: u16, first: bool, second: bool)
    requires
        mode == 1 || mode == 5 || mode == 6 || mode == 7 || mode == 25 || mode == 66,
    ensures
        with_dec_mode(with_dec_mode(m, mode, first), mode, second) == with_dec_mode(m, mode, second),
{
    if mode == 1 {
        assert(with_dec_mode(with_dec_mode(m, 1, first), 1, second) == with_dec_mode(m, 1, second)) by {
            reveal(with_dec_mode);
        }
    } else if mode == 5 {
        assert(with_dec_mode(with_dec_mode(m, 5, first), 5, second) == with_dec_mode(m, 5, second)) by {
            reveal(with_dec_mode);
        }
    } else if mode == 6 {
        assert(with_dec_mode(with_dec_mode(m, 6, first), 6, second) == with_dec_mode(m, 6, second)) by {
            reveal(with_dec_mode);
        }
    } else if mode == 7 {
        assert(with_dec_mode(with_dec_mode(m, 7, first), 7, second) == with_dec_mode(m, 7, second)) by {
            reveal(with_dec_mode);
        }
    } else if mode == 25 {
        assert(with_dec_mode(with_dec_mode(m, 25, first), 25, second) == with_dec_mode(m, 25, second)) by {
            reveal(with_dec_mode);
        }
    } else if mode == 66 {
        assert(with_dec_mode(with_dec_mode(m, 66, first), 66, second) == with_dec_mode(m, 66, second)) by {
            reveal(with_dec_mode);
        }
    }
}

proof fn lemma_feature_modes_last_wins(m: TerminalModes, mode: u16, first: bool, second: bool)
    requires
        mode == 67 || mode == 1004 || mode == 2004 || mode == 47 || mode == 1047 || mode == 1049,
    ensures
        with_dec_mode(with_dec_mode(m, mode, first), mode, second) == with_dec_mode(m, mode, second),
{
    if mode == 67 {
        assert(with_dec_mode(with_dec_mode(m, 67, first), 67, second) == with_dec_mode(m, 67, second)) by {
            reveal(with_dec_mode);
        }
    } else if mode == 1004 {
        assert(with_dec_mode(with_dec_mode(m, 1004, first), 1004, second) == with_dec_mode(m, 1004, second)) by {
            reveal(with_dec_mode);
        }
    } else if mode == 2004 {
        assert(with_dec_mode(with_dec_mode(m, 2004, first), 2004, second) == with_dec_mode(m, 2004, second)) by {
            reveal(with_dec_mode);
        }
    } else if mode == 47 {
        assert(with_dec_mode(with_dec_mode(m, 47, first), 47, second) == with_dec_mode(m, 47, second)) by {
            reveal(with_dec_mode);
        }
    } else if mode == 1047 {
        assert(with_dec_mode(with_dec_mode(m, 1047, first), 1047, second) == with_dec_mode(m, 1047, second)) by {
            reveal(with_dec_mode);
        }
    } else if mode == 1049 {
        assert(with_dec_mode(with_dec_mode(m, 1049, first), 1049, second) == with_dec_mode(m, 1049, second)) by {
            reveal(with_dec_mode);
        }
    }
}

proof fn lemma_mouse_modes_last_wins(m: TerminalModes, mode: u16, first: bool, second: bool)
    requires
        mode == 1000 || mode == 1002 || mode == 1003 || mode == 1005 || mode == 1006 || mode == 1015,
    ensures
        with_dec_mode(with_dec_mode(m, mode, first), mode, second) == with_dec_mode(m, mode, second),
{
    if mode == 1000 {
        assert(with_dec_mode(with_dec_mode(m, 1000, first), 1000, second) == with_dec_mode(m, 1000, second)) by {
            reveal(with_dec_mode);
        }
    } else if mode == 1002 {
        assert(with_dec_mode(with_dec_mode(m, 1002, first), 1002, second) == with_dec_mode(m, 1002, second)) by {
            reveal(with_dec_mode);
        }
    } else if mode == 1003 {
        assert(with_dec_mode(with_dec_mode(m, 1003, first), 1003, second) == with_dec_mode(m, 1003, second)) by {
            reveal(with_dec_mode);
        }
    } else if mode == 1005 {
        assert(with_dec_mode(with_dec_mode(m, 1005, first), 1005, second) == with_dec_mode(m, 1005, second)) by {
            reveal(with_dec_mode);
        }
    } else if mode == 1006 {
        assert(with_dec_mode(with_dec_mode(m, 1006, first), 1006, second) == with_dec_mode(m, 1006, second)) by {
            reveal(with_dec_mode);
        }
    } else if mode == 1015 {
        assert(with_dec_mode(with_dec_mode(m, 1015, first), 1015, second) == with_dec_mode(m, 1015, second)) by {
            reveal(with_dec_mode);
        }
    }
}

/// Setting a DEC private mode twice leaves what the second call set: the
/// last write wins, and the first leaves no trace.
pub proof fn lemma_dec_mode_last_wins(m: TerminalModes, mode: u16, first: bool, second: bool)
    ensures
        with_dec_mode(with_dec_mode(m, mode, first), mode, second) == with_dec_mode(m, mode, second),
{
    if mode == 1 || mode == 5 || mode == 6 || mode == 7 || mode == 25 || mode == 66 {
        lemma_flag_modes_last_wins(m, mode, first, second);
    } else if mode == 67 || mode == 1004 || mode == 2004 || mode == 47 || mode == 1047 || mode == 1049 {
        lemma_feature_modes_last_wins(m, mode, first, second);
    } else if mode == 1000 || mode == 1002 || mode == 1003 || mode == 1005 || mode == 1006 || mode == 1015 {
        lemma_mouse_modes_last_wins(m, mode, first, second);
    } else {
        assert(with_dec_mode(m, mode, first) == m) by {
            reveal(with_dec_mode);
        }
    }
}

/// Setting an ANSI mode twice leaves what the second call set.
pub proof fn lemma_ansi_mode_last_wins(m: TerminalModes, mode: u16, first: bool, second: bool)
    ensures
        with_ansi_mode(with_ansi_mode(m, mode, first), mode, second) == with_ansi_mode(m, mode, second),
{
}

} // verus!
