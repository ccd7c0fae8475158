//! Mouse input handling: encoding mouse events as terminal reports.
use vstd::prelude::*;
use vstd::utf8::{encode_scalar, is_scalar};
use crate::terminal::modes::{MouseEncoding, MouseMode};
use crate::text::{push_decimal, decimal, push_utf8_scalar};

verus! {

/// Mouse button
#[derive(Debug, Clone, Copy, PartialEq, Eq, Structural)]
pub enum MouseButton {
    Left,
    Middle,
    Right,
    WheelUp,
    WheelDown,
    /// No button: a release or a motion without a button held
    NoButton,
}

/// The button number of a report.
pub open spec fn button_code(b: MouseButton) -> u8 {
    match b {
        MouseButton::Left => 0,
        MouseButton::Middle => 1,
        MouseButton::Right => 2,
        MouseButton::WheelUp => 64,
        MouseButton::WheelDown => 65,
        MouseButton::NoButton => 3,
    }
}

impl MouseButton {
    fn code(&self) -> (r: u8)
        ensures
            r == button_code(*self),
    {
        match self {
            MouseButton::Left => 0,
            MouseButton::Middle => 1,
            MouseButton::Right => 2,
            MouseButton::WheelUp => 64,
            MouseButton::WheelDown => 65,
            // Release or motion
            MouseButton::NoButton => 3,
        }
    }
}

/// Mouse event type
#[derive(Debug, Clone, Copy, PartialEq, Eq, Structural)]
pub enum MouseEvent {
    Press(MouseButton),
    Release(MouseButton),
    Motion,
    Drag(MouseButton),
}

/// Whether a tracking mode reports an event: X10 presses only, VT200
/// presses and releases, button-event mode also drags, any-event mode all.
pub open spec fn reported(event: MouseEvent, mode: MouseMode) -> bool {
    match mode {
        MouseMode::Off => false,
        MouseMode::X10 => event is Press,
        MouseMode::Vt200 => event is Press || event is Release,
        MouseMode::ButtonEvent => event is Press || event is Release || event is Drag,
        MouseMode::AnyEvent => true,
    }
}

/// The button of an event (none for a motion) and whether it is a release.
pub open spec fn event_button(event: MouseEvent) -> (MouseButton, bool) {
    match event {
        MouseEvent::Press(b) => (b, false),
        MouseEvent::Release(b) => (b, true),
        MouseEvent::Motion => (MouseButton::NoButton, false),
        MouseEvent::Drag(b) => (b, false),
    }
}

/// The report code: the button number, plus 4 with shift, 8 with alt, 16
/// with ctrl and 32 for motion.
pub open spec fn report_code(event: MouseEvent, shift: bool, alt: bool, ctrl: bool) -> u8 {
    (button_code(event_button(event).0) + (if shift { 4int } else { 0 }) + (if alt { 8int } else { 0 }) + (
    if ctrl { 16int } else { 0 }) + (if event is Motion || event is Drag { 32int } else { 0 })) as u8
}

/// `n + 1`, stopping at the largest `usize`.
pub open spec fn plus_one(n: usize) -> usize {
    if n < usize::MAX { (n + 1) as usize } else { n }
}

/// The UTF-8 form of a coordinate: the coordinate plus 32 as a character
/// (a space when that is no character).
pub open spec fn utf8_coord(coord: usize) -> Seq<u8> {
    let val = ((coord as u32) + 32) as u32;
    if val < 128 {
        seq![val as u8]
    } else if is_scalar(val) {
        encode_scalar(val)
    } else {
        encode_scalar(0x20)
    }
}

/// Whether a coordinate can be written in the UTF-8 encoding.
pub open spec fn utf8_coord_fits(coord: usize) -> bool {
    (coord as u32) + 32 <= u32::MAX
}

/// The report for code `code` at 1-based `col`, `row` in an encoding.
pub open spec fn report_bytes(code: u8, col: usize, row: usize, release: bool, encoding: MouseEncoding) -> Option<
    Seq<u8>,
> {
    match encoding {
        MouseEncoding::X10 => if release || col > 223 || row > 223 {
            None
        } else {
            Some(seq![0x1bu8, 0x5b, 0x4d, (code + 32) as u8, (col + 32) as u8, (row + 32) as u8])
        },
        MouseEncoding::Utf8 => Some(
            seq![0x1bu8, 0x5b, 0x4d, if release { 35u8 } else { (code + 32) as u8 }] + utf8_coord(col)
                + utf8_coord(row),
        ),
        MouseEncoding::Sgr => Some(
            seq![0x1bu8, 0x5b, 0x3c] + decimal(code as nat) + seq![0x3bu8] + decimal(col as nat) + seq![0x3bu8]
                + decimal(row as nat) + seq![if release { 0x6du8 } else { 0x4du8 }],
        ),
        MouseEncoding::Urxvt => Some(
            seq![0x1bu8, 0x5b] + decimal(((if release { 3 } else { code }) + 32) as nat) + seq![0x3bu8]
                + decimal(col as nat) + seq![0x3bu8] + decimal(row as nat) + seq![0x4du8],
        ),
    }
}

/// The report of a mouse event at 0-based `col`, `row`; `None` when the
/// mode does not report it or the encoding cannot express it.
pub open spec fn mouse_report(
    event: MouseEvent,
    col: usize,
    row: usize,
    shift: bool,
    alt: bool,
    ctrl: bool,
    mode: MouseMode,
    encoding: MouseEncoding,
) -> Option<Seq<u8>> {
    if !reported(event, mode) {
        None
    } else {
        report_bytes(
            report_code(event, shift, alt, ctrl),
            plus_one(col),
            plus_one(row),
            event_button(event).1,
            encoding,
        )
    }
}

/// Mouse handler for encoding mouse events
pub struct MouseHandler;

impl MouseHandler {
    /// Whether `encode` can write the event's coordinates (what it needs:
    /// in the UTF-8 encoding each coordinate plus 33 must fit in 32 bits)
    pub fn encodable(event: MouseEvent, col: usize, row: usize, mode: MouseMode, encoding: MouseEncoding) -> (r: bool)
        ensures
            r == ((reported(event, mode) && encoding == MouseEncoding::Utf8) ==> utf8_coord_fits(plus_one(col))
                && utf8_coord_fits(plus_one(row))),
    {
        if !Self::should_report(event, mode) || encoding != MouseEncoding::Utf8 {
            return true;
        }
        let c = if col < usize::MAX { col + 1 } else { col };
        let r = if row < usize::MAX { row + 1 } else { row };
        (c as u32) <= u32::MAX - 32 && (r as u32) <= u32::MAX - 32
    }

    /// Encode a mouse event for the PTY based on current mode and encoding
    #[verifier::spinoff_prover]
    #[verifier::rlimit(40)]
    pub fn encode(
        event: MouseEvent,
        col: usize,
        row: usize,
        shift: bool,
        alt: bool,
        ctrl: bool,
        mode: MouseMode,
        encoding: MouseEncoding,
    ) -> (r: Option<Vec<u8>>)
        requires
            (reported(event, mode) && encoding == MouseEncoding::Utf8) ==> utf8_coord_fits(plus_one(col))
                && utf8_coord_fits(plus_one(row)),
        ensures
            match r {
                Some(v) => mouse_report(event, col, row, shift, alt, ctrl, mode, encoding) == Some(v@),
                None => mouse_report(event, col, row, shift, alt, ctrl, mode, encoding) is None,
            },
    {
        if !Self::should_report(event, mode) {
            return None;
        }
        let (button, is_release) = match event {
            MouseEvent::Press(btn) => (btn, false),
            MouseEvent::Release(btn) => (btn, true),
            MouseEvent::Motion => (MouseButton::NoButton, false),
            MouseEvent::Drag(btn) => (btn, false),
        };
        let mut code = button.code();
        // Add modifier bits
        if shift {
            code += 4;
        }
        if alt {
            code += 8;
        }
        if ctrl {
            code += 16;
        }
        // Motion flag
        if matches!(event, MouseEvent::Motion | MouseEvent::Drag(_)) {
            code += 32;
        }
        // Convert to 1-based coordinates
        let col = if col < usize::MAX { col + 1 } else { col };
        let row = if row < usize::MAX { row + 1 } else { row };
        match encoding {
            MouseEncoding::X10 => Self::encode_x10(code, col, row, is_release),
            MouseEncoding::Utf8 => Self::encode_utf8(code, col, row, is_release),
            MouseEncoding::Sgr => Self::encode_sgr(code, col, row, is_release),
            MouseEncoding::Urxvt => Self::encode_urxvt(code, col, row, is_release),
        }
    }

    /// Check if the event should be reported based on mode
    fn should_report(event: MouseEvent, mode: MouseMode) -> (r: bool)
        ensures
            r == reported(event, mode),
    {
        match mode {
            MouseMode::Off => false,
            MouseMode::X10 => matches!(event, MouseEvent::Press(_)),
            MouseMode::Vt200 => matches!(event, MouseEvent::Press(_) | MouseEvent::Release(_)),
            MouseMode::ButtonEvent => matches!(
                event,
                MouseEvent::Press(_) | MouseEvent::Release(_) | MouseEvent::Drag(_)
            ),
            MouseMode::AnyEvent => true,
        }
    }

    /// X10 encoding: ESC [ M Cb Cx Cy (limited to 223 columns/rows)
    fn encode_x10(code: u8, col: usize, row: usize, is_release: bool) -> (r: Option<Vec<u8>>)
        requires
            code <= 125,
        ensures
            match r {
                Some(v) => report_bytes(code, col, row, is_release, MouseEncoding::X10) == Some(v@),
                None => report_bytes(code, col, row, is_release, MouseEncoding::X10) is None,
            },
    {
        // X10 doesn't report release
        if is_release {
            return None;
        }
        // X10 can only encode up to 223
        if col > 223 || row > 223 {
            return None;
        }
        let r = vec![0x1b, 0x5b, 0x4d, code + 32, (col as u8) + 32, (row as u8) + 32];
        assert(r@ =~= seq![0x1bu8, 0x5b, 0x4d, (code + 32) as u8, (col + 32) as u8, (row + 32) as u8]);
        Some(r)
    }

    /// UTF-8 encoding: like X10 but coordinates are UTF-8 encoded
    fn encode_utf8(code: u8, col: usize, row: usize, is_release: bool) -> (r: Option<Vec<u8>>)
        requires
            code <= 125,
            utf8_coord_fits(col),
            utf8_coord_fits(row),
        ensures
            match r {
                Some(v) => report_bytes(code, col, row, is_release, MouseEncoding::Utf8) == Some(v@),
                None => report_bytes(code, col, row, is_release, MouseEncoding::Utf8) is None,
            },
    {
        let mut result = vec![0x1b, 0x5b, 0x4d];
        // Button code
        result.push(code + 32);
        // Column and row, UTF-8 encoded
        Self::push_utf8_coord(&mut result, col);
        Self::push_utf8_coord(&mut result, row);
        if is_release {
            // Release: button 3
            result.set(3, 3 + 32);
        }
        assert(result@ =~= seq![0x1bu8, 0x5b, 0x4d, if is_release { 35u8 } else { (code + 32) as u8 }]
            + utf8_coord(col) + utf8_coord(row));
        Some(result)
    }

    /// Append a UTF-8 encoded coordinate value
    fn push_utf8_coord(result: &mut Vec<u8>, coord: usize)
        requires
            utf8_coord_fits(coord),
        ensures
            final(result)@ == old(result)@ + utf8_coord(coord),
    {
        let val = (coord as u32) + 32;
        if val < 128 {
            result.push(val as u8);
            assert(final(result)@ =~= old(result)@ + utf8_coord(coord));
        } else if val <= 0x10ffff && !(0xd800 <= val && val <= 0xdfff) {
            push_utf8_scalar(result, val);
        } else {
            push_utf8_scalar(result, 0x20);
        }
    }

    /// SGR encoding: ESC [ < Cb ; Cx ; Cy M/m
    fn encode_sgr(code: u8, col: usize, row: usize, is_release: bool) -> (r: Option<Vec<u8>>)
        ensures
            match r {
                Some(v) => report_bytes(code, col, row, is_release, MouseEncoding::Sgr) == Some(v@),
                None => report_bytes(code, col, row, is_release, MouseEncoding::Sgr) is None,
            },
    {
        let terminator: u8 = if is_release { 0x6d } else { 0x4d };
        let mut r = vec![0x1b, 0x5b, 0x3c];
        push_decimal(&mut r, code as u64);
        r.push(0x3b);
        push_decimal(&mut r, col as u64);
        r.push(0x3b);
        push_decimal(&mut r, row as u64);
        r.push(terminator);
        assert(r@ =~= seq![0x1bu8, 0x5b, 0x3c] + decimal(code as nat) + seq![0x3bu8] + decimal(col as nat)
            + seq![0x3bu8] + decimal(row as nat) + seq![terminator]);
        Some(r)
    }

    /// URXVT encoding: ESC [ Cb ; Cx ; Cy M
    fn encode_urxvt(code: u8, col: usize, row: usize, is_release: bool) -> (r: Option<Vec<u8>>)
        requires
            code <= 125,
        ensures
            match r {
                Some(v) => report_bytes(code, col, row, is_release, MouseEncoding::Urxvt) == Some(v@),
                None => report_bytes(code, col, row, is_release, MouseEncoding::Urxvt) is None,
            },
    {
        let code = if is_release { 3 } else { code };
        let mut r = vec![0x1b, 0x5b];
        push_decimal(&mut r, (code + 32) as u64);
        r.push(0x3b);
        push_decimal(&mut r, col as u64);
        r.push(0x3b);
        push_decimal(&mut r, row as u64);
        r.push(0x4d);
        assert(r@ =~= seq![0x1bu8, 0x5b] + decimal((code + 32) as nat) + seq![0x3bu8] + decimal(col as nat)
            + seq![0x3bu8] + decimal(row as nat) + seq![0x4du8]);
        Some(r)
    }
}

/// Events that are never reported: none with reporting off, only presses in
/// X10 mode, and no release in the X10 encoding (which has no code for it).
pub proof fn lemma_unreported_events(
    event: MouseEvent,
    col: usize,
    row: usize,
    shift: bool,
    alt: bool,
    ctrl: bool,
    mode: MouseMode,
    encoding: MouseEncoding,
)
    ensures
        mode == MouseMode::Off ==> mouse_report(event, col, row, shift, alt, ctrl, mode, encoding) is None,
        (mode == MouseMode::X10 && !(event is Press)) ==> mouse_report(
            event,
            col,
            row,
            shift,
            alt,
            ctrl,
            mode,
            encoding,
        ) is None,
        (encoding == MouseEncoding::X10 && event is Release) ==> mouse_report(
            event,
            col,
            row,
            shift,
            alt,
            ctrl,
            mode,
            encoding,
        ) is None,
{
}

/// In the SGR encoding a release is reported exactly as the press of the
/// same button, but for the final byte: `m` in place of `M`.
pub proof fn lemma_sgr_release_mirrors_press(
    button: MouseButton,
    col: usize,
    row: usize,
    shift: bool,
    alt: bool,
    ctrl: bool,
    mode: MouseMode,
)
    requires
        mode == MouseMode::Vt200 || mode == MouseMode::ButtonEvent || mode == MouseMode::AnyEvent,
    ensures
        mouse_report(MouseEvent::Press(button), col, row, shift, alt, ctrl, mode, MouseEncoding::Sgr) matches Some(
            p,
        ) && mouse_report(MouseEvent::Release(button), col, row, shift, alt, ctrl, mode, MouseEncoding::Sgr)
            == Some(p.drop_last().push(0x6du8)),
        mouse_report(MouseEvent::Press(button), col, row, shift, alt, ctrl, mode, MouseEncoding::Sgr) matches Some(
            p,
        ) && p.last() == 0x4du8,
{
    let code = report_code(MouseEvent::Press(button), shift, alt, ctrl);
    assert(report_code(MouseEvent::Release(button), shift, alt, ctrl) == code);
    let body = seq![0x1bu8, 0x5b, 0x3c] + decimal(code as nat) + seq![0x3bu8] + decimal(plus_one(col) as nat)
        + seq![0x3bu8] + decimal(plus_one(row) as nat);
    assert((body + seq![0x4du8]).drop_last() =~= body);
    assert(body.push(0x6du8) =~= body + seq![0x6du8]);
}

/// The button of an X11 button press (1 to 5; the wheel is 4 and 5).
pub open spec fn press_button_of(detail: u8) -> Option<MouseButton> {
    match detail {
        1 => Some(MouseButton::Left),
        2 => Some(MouseButton::Middle),
        3 => Some(MouseButton::Right),
        4 => Some(MouseButton::WheelUp),
        5 => Some(MouseButton::WheelDown),
        _ => None,
    }
}

/// The button of an X11 button press
pub fn press_button(detail: u8) -> (r: Option<MouseButton>)
    ensures
        r == press_button_of(detail),
{
    match detail {
        1 => Some(MouseButton::Left),
        2 => Some(MouseButton::Middle),
        3 => Some(MouseButton::Right),
        4 => Some(MouseButton::WheelUp),
        5 => Some(MouseButton::WheelDown),
        _ => None,
    }
}

/// The button of an X11 button release (the wheel has none)
pub fn release_button(detail: u8) -> (r: Option<MouseButton>)
    ensures
        r == (if 1 <= detail <= 3 { press_button_of(detail) } else { None::<MouseButton> }),
{
    match detail {
        1 => Some(MouseButton::Left),
        2 => Some(MouseButton::Middle),
        3 => Some(MouseButton::Right),
        _ => None,
    }
}

/// The event a pointer motion is, from the X11 button state: a drag of the
/// first button held (left, middle, right), or a plain motion.
pub open spec fn motion_event_of(state: u16) -> MouseEvent {
    if state & 0x100 != 0 {
        MouseEvent::Drag(MouseButton::Left)
    } else if state & 0x200 != 0 {
        MouseEvent::Drag(MouseButton::Middle)
    } else if state & 0x400 != 0 {
        MouseEvent::Drag(MouseButton::Right)
    } else {
        MouseEvent::Motion
    }
}

/// The event a pointer motion is
pub fn motion_event(state: u16) -> (r: MouseEvent)
    ensures
        r == motion_event_of(state),
{
    if state & 0x100 != 0 {
        MouseEvent::Drag(MouseButton::Left)
    } else if state & 0x200 != 0 {
        MouseEvent::Drag(MouseButton::Middle)
    } else if state & 0x400 != 0 {
        MouseEvent::Drag(MouseButton::Right)
    } else {
        MouseEvent::Motion
    }
}

/// The button numbers of the xterm mouse protocol: a press is reported
/// with 0, 1 and 2 for the left, middle and right buttons and 64 and 65 for
/// the wheel turned up and down, plus 4 with shift, 8 with alt and 16 with
/// ctrl; in the X10 encoding that number plus 32 is the button byte, in the
/// SGR encoding it is written in decimal.
pub proof fn lemma_press_button_numbers(
    button: MouseButton,
    col: usize,
    row: usize,
    shift: bool,
    alt: bool,
    ctrl: bool,
    mode: MouseMode,
)
    requires
        mode != MouseMode::Off,
        button != MouseButton::NoButton,
        col < 223,
        row < 223,
    ensures
        ({
            let n: int = match button {
                MouseButton::Left => 0int,
                MouseButton::Middle => 1int,
                MouseButton::Right => 2int,
                MouseButton::WheelUp => 64int,
                MouseButton::WheelDown => 65int,
                MouseButton::NoButton => 3int,
            } + (if shift { 4int } else { 0 }) + (if alt { 8int } else { 0 }) + (if ctrl { 16int } else { 0 });
            &&& mouse_report(MouseEvent::Press(button), col, row, shift, alt, ctrl, mode, MouseEncoding::X10)
                == Some(seq![0x1bu8, 0x5b, 0x4d, (n + 32) as u8, (col + 33) as u8, (row + 33) as u8])
            &&& mouse_report(MouseEvent::Press(button), col, row, shift, alt, ctrl, mode, MouseEncoding::Sgr)
                == Some(
                seq![0x1bu8, 0x5b, 0x3c] + decimal(n as nat) + seq![0x3bu8] + decimal((col + 1) as nat) + seq![
                    0x3bu8,
                ] + decimal((row + 1) as nat) + seq![0x4du8],
            )
        }),
{
}

/// Motion is reported with 32 added to the button number (3 when no
/// button is held, so a plain motion is 35), a drag with the held button's
/// number plus 32; modifiers add 4, 8 and 16 as for presses.
pub proof fn lemma_motion_numbers(button: MouseButton, col: usize, row: usize, shift: bool, alt: bool, ctrl: bool)
    requires
        col < 223,
        row < 223,
    ensures
        ({
            let mods: int = (if shift { 4int } else { 0 }) + (if alt { 8int } else { 0 }) + (if ctrl { 16int } else { 0 });
            let held: int = match button {
                MouseButton::Left => 0int,
                MouseButton::Middle => 1int,
                MouseButton::Right => 2int,
                MouseButton::WheelUp => 64int,
                MouseButton::WheelDown => 65int,
                MouseButton::NoButton => 3int,
            };
            &&& mouse_report(MouseEvent::Motion, col, row, shift, alt, ctrl, MouseMode::AnyEvent, MouseEncoding::X10)
                == Some(seq![0x1bu8, 0x5b, 0x4d, (35 + mods + 32) as u8, (col + 33) as u8, (row + 33) as u8])
            &&& mouse_report(
                MouseEvent::Drag(button),
                col,
                row,
                shift,
                alt,
                ctrl,
                MouseMode::ButtonEvent,
                MouseEncoding::X10,
            ) == Some(seq![0x1bu8, 0x5b, 0x4d, (held + 32 + mods + 32) as u8, (col + 33) as u8, (row + 33) as u8])
        }),
{
}

} // verus!
