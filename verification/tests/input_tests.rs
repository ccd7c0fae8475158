use garterm::config::Modifiers;
use garterm::input::{Key, KeyboardHandler, MouseButton, MouseEvent, MouseHandler, Selection, SelectionMode};
use garterm::terminal::{Grid, MouseEncoding, MouseMode, TerminalModes};

fn ctrl() -> Modifiers {
    Modifiers { ctrl: true, ..Default::default() }
}

fn alt() -> Modifiers {
    Modifiers { alt: true, ..Default::default() }
}

fn shift() -> Modifiers {
    Modifiers { shift: true, ..Default::default() }
}

fn modes() -> TerminalModes {
    TerminalModes::new()
}

#[test]
fn test_ctrl_c() {
    let result = KeyboardHandler::translate(Key::Char('c'), &ctrl(), &modes());
    assert_eq!(result, Some(vec![0x03])); // ETX
}

#[test]
fn test_alt_x() {
    let result = KeyboardHandler::translate(Key::Char('x'), &alt(), &modes());
    assert_eq!(result, Some(vec![0x1b, b'x']));
}

#[test]
fn test_shift_tab() {
    let result = KeyboardHandler::translate(Key::Tab, &shift(), &modes());
    assert_eq!(result, Some(vec![0x1b, b'[', b'Z']));
}

#[test]
fn test_ctrl_arrow() {
    let mods = Modifiers { ctrl: true, ..Default::default() };
    let result = KeyboardHandler::translate(Key::Right, &mods, &modes());
    assert_eq!(result, Some(b"\x1b[1;5C".to_vec()));
}

#[test]
fn application_cursor_keys() {
    let mut m = modes();
    m.set_dec_mode(1, true);
    let none = Modifiers::none();
    assert_eq!(KeyboardHandler::translate(Key::Up, &none, &m), Some(b"\x1bOA".to_vec()));
    assert_eq!(KeyboardHandler::translate(Key::Up, &none, &modes()), Some(b"\x1b[A".to_vec()));
}

#[test]
fn plain_and_unicode_chars() {
    let none = Modifiers::none();
    assert_eq!(KeyboardHandler::translate(Key::Char('a'), &none, &modes()), Some(b"a".to_vec()));
    assert_eq!(KeyboardHandler::translate(Key::Char('é'), &none, &modes()), Some("é".as_bytes().to_vec()));
    assert_eq!(KeyboardHandler::translate(Key::Return, &none, &modes()), Some(vec![0x0d]));
}

fn encode(event: MouseEvent, col: usize, row: usize, mode: MouseMode, enc: MouseEncoding) -> Option<Vec<u8>> {
    MouseHandler::encode(event, col, row, false, false, false, mode, enc)
}

#[test]
fn test_sgr_press() {
    let result = MouseHandler::encode(
        MouseEvent::Press(MouseButton::Left),
        10,
        20,
        false,
        false,
        false,
        MouseMode::ButtonEvent,
        MouseEncoding::Sgr,
    );
    assert_eq!(result, Some(b"\x1b[<0;11;21M".to_vec()));
}

#[test]
fn test_sgr_release() {
    let result = MouseHandler::encode(
        MouseEvent::Release(MouseButton::Left),
        10,
        20,
        false,
        false,
        false,
        MouseMode::ButtonEvent,
        MouseEncoding::Sgr,
    );
    assert_eq!(result, Some(b"\x1b[<0;11;21m".to_vec()));
}

#[test]
fn test_x10_no_release() {
    let result = MouseHandler::encode(
        MouseEvent::Release(MouseButton::Left),
        10,
        20,
        false,
        false,
        false,
        MouseMode::X10,
        MouseEncoding::X10,
    );
    assert_eq!(result, None);
}

#[test]
fn test_x10_press() {
    let result = MouseHandler::encode(
        MouseEvent::Press(MouseButton::Left),
        0,
        0,
        false,
        false,
        false,
        MouseMode::X10,
        MouseEncoding::X10,
    );
    assert_eq!(result, Some(vec![0x1b, b'[', b'M', 32, 33, 33]));
}

#[test]
fn mouse_off_and_motion() {
    assert_eq!(encode(MouseEvent::Press(MouseButton::Left), 1, 1, MouseMode::Off, MouseEncoding::Sgr), None);
    assert_eq!(encode(MouseEvent::Motion, 1, 1, MouseMode::ButtonEvent, MouseEncoding::Sgr), None);
    assert_eq!(encode(MouseEvent::Motion, 1, 2, MouseMode::AnyEvent, MouseEncoding::Sgr), Some(b"\x1b[<35;2;3M".to_vec()));
    // X10 encoding cannot address columns past 222.
    assert_eq!(encode(MouseEvent::Press(MouseButton::Left), 223, 0, MouseMode::X10, MouseEncoding::X10), None);
}

#[test]
fn mouse_modifiers_and_urxvt() {
    let r = MouseHandler::encode(
        MouseEvent::Press(MouseButton::Right),
        0,
        0,
        true,
        false,
        true,
        MouseMode::Vt200,
        MouseEncoding::Sgr,
    );
    assert_eq!(r, Some(b"\x1b[<22;1;1M".to_vec()));
    assert_eq!(
        encode(MouseEvent::Release(MouseButton::Left), 4, 5, MouseMode::Vt200, MouseEncoding::Urxvt),
        Some(b"\x1b[35;5;6M".to_vec())
    );
}

#[test]
fn sgr_release_mirrors_press() {
    for button in [MouseButton::Left, MouseButton::Middle, MouseButton::Right] {
        let p = encode(MouseEvent::Press(button), 7, 3, MouseMode::Vt200, MouseEncoding::Sgr).unwrap();
        let r = encode(MouseEvent::Release(button), 7, 3, MouseMode::Vt200, MouseEncoding::Sgr).unwrap();
        assert_eq!(p[..p.len() - 1], r[..r.len() - 1]);
        assert_eq!(*p.last().unwrap(), b'M');
        assert_eq!(*r.last().unwrap(), b'm');
    }
}

#[test]
fn test_selection_contains_normal() {
    let mut sel = Selection::new();
    sel.start(1, 5, SelectionMode::Normal);
    sel.update(3, 10);
    sel.finish();

    // First line
    assert!(!sel.contains(1, 4, 80));
    assert!(sel.contains(1, 5, 80));
    assert!(sel.contains(1, 79, 80));

    // Middle line
    assert!(sel.contains(2, 0, 80));
    assert!(sel.contains(2, 79, 80));

    // Last line
    assert!(sel.contains(3, 0, 80));
    assert!(sel.contains(3, 10, 80));
    assert!(!sel.contains(3, 11, 80));

    // Outside
    assert!(!sel.contains(0, 0, 80));
    assert!(!sel.contains(4, 0, 80));
}

#[test]
fn test_selection_contains_block() {
    let mut sel = Selection::new();
    sel.start(1, 5, SelectionMode::Block);
    sel.update(3, 10);
    sel.finish();

    // Inside block
    assert!(sel.contains(1, 5, 80));
    assert!(sel.contains(2, 7, 80));
    assert!(sel.contains(3, 10, 80));

    // Outside block
    assert!(!sel.contains(1, 4, 80));
    assert!(!sel.contains(1, 11, 80));
    assert!(!sel.contains(2, 4, 80));
    assert!(!sel.contains(2, 11, 80));
}

#[test]
fn selection_direction_does_not_matter() {
    let mut forward = Selection::new();
    forward.start(1, 5, SelectionMode::Normal);
    forward.update(3, 10);
    let mut backward = Selection::new();
    backward.start(3, 10, SelectionMode::Normal);
    backward.update(1, 5);
    assert_eq!(forward.bounds(), backward.bounds());
    for row in 0..5 {
        for col in 0..20 {
            assert_eq!(forward.contains(row, col, 80), backward.contains(row, col, 80));
        }
    }
}

#[test]
fn empty_selection_and_line_mode() {
    let sel = Selection::new();
    assert!(sel.is_empty());
    assert_eq!(sel.bounds(), None);
    assert!(!sel.contains(0, 0, 80));
    let mut line = Selection::new();
    line.select_line(2, 80);
    assert!(line.contains(2, 0, 80));
    assert!(line.contains(2, 79, 80));
    assert!(!line.contains(1, 79, 80));
}

fn grid_with(text: &str) -> Grid {
    let mut grid = Grid::new(20, 3, 10);
    for (i, c) in text.chars().enumerate() {
        grid.cell_mut(0, i).unwrap().c = c;
    }
    grid
}

#[test]
fn select_word_and_text() {
    let grid = grid_with("foo bar_1 baz");
    let mut sel = Selection::new();
    sel.select_word(0, 5, &grid, 20);
    assert_eq!(sel.get_text(&grid, 20), "bar_1");
    sel.select_word(0, 0, &grid, 20);
    assert_eq!(sel.get_text(&grid, 20), "foo");
    let mut all = Selection::new();
    all.select_all(3, 20);
    assert_eq!(all.get_text(&grid, 20), "foo bar_1 baz\n\n");
}

use garterm::input::keyboard::key_name;
use garterm::input::mouse::{motion_event, press_button, release_button};
use garterm::input::search::{match_scroll_offset, search_key_step, SearchKeyStep};
use garterm::input::selection::{click_action, next_click_count, ClickAction};

#[test]
fn key_names() {
    assert_eq!(key_name(&Key::Char('Q')), "q");
    assert_eq!(key_name(&Key::PageUp), "page_up");
    assert_eq!(key_name(&Key::F11), "f11");
    assert_eq!(key_name(&Key::Other), "unknown");
}

#[test]
fn search_keys() {
    let none = Modifiers::none();
    assert_eq!(search_key_step(Key::Escape, &none, false), SearchKeyStep::Cancel);
    assert_eq!(search_key_step(Key::Char('n'), &none, true), SearchKeyStep::AddChar('n'));
    assert_eq!(search_key_step(Key::Char('n'), &none, false), SearchKeyStep::NextMatch);
    assert_eq!(search_key_step(Key::Char('n'), &Modifiers::shift(), false), SearchKeyStep::PrevMatch);
    assert_eq!(search_key_step(Key::Char('n'), &Modifiers::alt(), false), SearchKeyStep::AddChar('n'));
    assert_eq!(search_key_step(Key::Char('i'), &Modifiers::ctrl(), false), SearchKeyStep::ToggleCase);
    assert_eq!(search_key_step(Key::Up, &none, false), SearchKeyStep::Ignore);
    assert_eq!(match_scroll_offset(3, 10), Some(7));
    assert_eq!(match_scroll_offset(12, 10), None);
}

#[test]
fn pointer_decoding() {
    assert_eq!(press_button(4), Some(MouseButton::WheelUp));
    assert_eq!(press_button(9), None);
    assert_eq!(release_button(4), None);
    assert_eq!(release_button(3), Some(MouseButton::Right));
    assert_eq!(motion_event(0x200), MouseEvent::Drag(MouseButton::Middle));
    assert_eq!(motion_event(0x001), MouseEvent::Motion);
}

#[test]
fn clicks() {
    assert_eq!(next_click_count(1, 120), 2);
    assert_eq!(next_click_count(2, 400), 1);
    assert_eq!(click_action(1, true), ClickAction::Start(SelectionMode::Block));
    assert_eq!(click_action(2, false), ClickAction::Word);
    assert_eq!(click_action(5, false), ClickAction::Line);
    let mut sel = Selection::new();
    sel.start(2, 3, SelectionMode::Normal);
    assert_eq!(sel.visible_bounds(), None);
    sel.update(2, 4);
    assert!(sel.visible_bounds().is_some());
}

use garterm::input::keyboard::paste_bytes;

#[test]
fn paste_bracketing() {
    assert_eq!(paste_bytes("hi", false), b"hi".to_vec());
    assert_eq!(paste_bytes("hi", true), b"\x1b[200~hi\x1b[201~".to_vec());
}

#[test]
fn mouse_encodable() {
    assert!(MouseHandler::encodable(MouseEvent::Press(MouseButton::Left), 5, 5, MouseMode::X10, MouseEncoding::Utf8));
    assert!(!MouseHandler::encodable(
        MouseEvent::Press(MouseButton::Left),
        u32::MAX as usize - 20,
        5,
        MouseMode::X10,
        MouseEncoding::Utf8
    ));
    assert!(MouseHandler::encodable(MouseEvent::Motion, usize::MAX, 5, MouseMode::X10, MouseEncoding::Utf8));
    let r = MouseHandler::encode(MouseEvent::Press(MouseButton::Left), 200, 0, false, false, false, MouseMode::X10, MouseEncoding::Utf8);
    assert_eq!(r, Some(vec![0x1b, b'[', b'M', 32, 0xc3, 0xa9, 33]));
}

use garterm::input::SearchState;
use garterm::terminal::SearchMatch;

#[test]
fn search_prev_undoes_next() {
    let mut s = SearchState::new();
    let m = |row: usize| SearchMatch { row, col_start: 0, col_end: 2 };
    s.set_matches(vec![m(0), m(1), m(2)]);
    s.next_match();
    s.next_match();
    assert_eq!(s.current_match, 2);
    s.next_match();
    assert_eq!(s.current_match, 0);
    s.prev_match();
    assert_eq!(s.current_match, 2);
    s.next_match();
    assert_eq!(s.current_match, 0);
    assert_eq!(s.match_count_text(), "1/3");
}

#[test]
fn search_pop_undoes_push() {
    let mut s = SearchState::new();
    s.push_char('a');
    s.push_char('b');
    s.pop_char();
    assert_eq!(s.query, "a");
    s.pop_char();
    s.pop_char();
    assert_eq!(s.query, "");
}

#[test]
fn empty_selection_copies_nothing_at_any_width() {
    let grid = grid_with("foo");
    let sel = Selection::new();
    assert_eq!(sel.get_text(&grid, 0), "");
    assert_eq!(sel.get_text(&grid, 500), "");
    // A selection below the screen copies nothing either.
    let mut below = Selection::new();
    below.start(7, 0, SelectionMode::Normal);
    assert_eq!(below.get_text(&grid, 0), "");
    // A line selection reads its first cell even at no width.
    let mut line = Selection::new();
    line.start(0, 0, SelectionMode::Line);
    assert_eq!(line.get_text(&grid, 0), "f");
}

#[test]
fn match_count_without_matches() {
    let mut s = SearchState::new();
    s.current_match = usize::MAX;
    assert_eq!(s.match_count_text(), "");
    s.push_char('x');
    assert_eq!(s.match_count_text(), "No matches");
}

#[test]
fn search_matches_cycle_back() {
    let mut s = SearchState::new();
    let m = |row: usize| SearchMatch { row, col_start: 0, col_end: 1 };
    s.set_matches(vec![m(0), m(1), m(2), m(3)]);
    s.next_match();
    let start = s.current_match;
    for _ in 0..4 {
        s.next_match();
    }
    assert_eq!(s.current_match, start);
}
