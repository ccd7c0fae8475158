use garterm::terminal::cell::{Cell, CellColor};
use garterm::terminal::dispatch::url_decode;
use garterm::terminal::sgr::{apply_sgr, Pen};
use garterm::terminal::{CellAttrs, ClipboardEvent, ClipboardSelection, Grid, Terminal, TerminalModes};

#[test]
fn test_cell_default() {
    let cell = Cell::default();
    assert_eq!(cell.c, ' ');
    assert!(cell.is_empty());
}

#[test]
fn test_cell_reset() {
    let mut cell = Cell::new('A');
    cell.fg = CellColor::Indexed(1);
    cell.attrs.bold = true;
    cell.reset();
    assert!(cell.is_empty());
}

#[test]
fn test_grid_new() {
    let grid = Grid::new(80, 24, 1000);
    assert_eq!(grid.cols(), 80);
    assert_eq!(grid.rows(), 24);
}

#[test]
fn test_scroll_up() {
    let mut grid = Grid::new(80, 24, 1000);
    grid.cell_mut(0, 0).unwrap().c = 'A';
    grid.scroll_up(1, 0, 23);
    assert_eq!(grid.scrollback_len(), 1);
    assert_eq!(grid.cell(0, 0).unwrap().c, ' ');
}

#[test]
fn cell_width_of_wide_char() {
    assert_eq!(Cell::new('a').width(), 1);
    assert_eq!(Cell::new('中').width(), 2);
}

#[test]
fn scrollback_is_capped() {
    let mut grid = Grid::new(10, 3, 2);
    for _ in 0..5 {
        grid.scroll_up(1, 0, 2);
    }
    assert_eq!(grid.scrollback_len(), 2);
    // Scrolling a region that does not start at the top saves nothing.
    grid.scroll_up(1, 1, 2);
    assert_eq!(grid.scrollback_len(), 2);
}

fn params(list: &[&[u16]]) -> Vec<Vec<u16>> {
    list.iter().map(|p| p.to_vec()).collect()
}

fn write(term: &mut Terminal, s: &str) {
    for c in s.chars() {
        term.print(c);
    }
}

fn row_text(term: &Terminal, row: usize) -> String {
    let mut s = String::new();
    for col in 0..term.cols() {
        s.push(term.grid().cell(row, col).unwrap().c);
    }
    s.trim_end().to_string()
}

#[test]
fn print_and_newline() {
    let mut term = Terminal::new(10, 3);
    write(&mut term, "hi");
    term.execute(0x0d);
    term.execute(0x0a);
    write(&mut term, "yo");
    assert_eq!(row_text(&term, 0), "hi");
    assert_eq!(row_text(&term, 1), "yo");
    assert_eq!((term.cursor().row, term.cursor().col), (1, 2));
}

#[test]
fn wrap_at_end_of_line() {
    let mut term = Terminal::new(4, 3);
    write(&mut term, "abcdef");
    assert_eq!(row_text(&term, 0), "abcd");
    assert_eq!(row_text(&term, 1), "ef");
}

#[test]
fn cursor_position_and_erase() {
    let mut term = Terminal::new(10, 5);
    term.csi_dispatch(&params(&[&[3], &[4]]), &[], false, 'H');
    assert_eq!((term.cursor().row, term.cursor().col), (2, 3));
    write(&mut term, "xyz");
    term.csi_dispatch(&params(&[&[3], &[5]]), &[], false, 'H');
    term.csi_dispatch(&params(&[&[0]]), &[], false, 'K');
    assert_eq!(row_text(&term, 2), "   x");
}

#[test]
fn save_and_restore_cursor() {
    let mut term = Terminal::new(20, 10);
    term.csi_dispatch(&params(&[&[2], &[3]]), &[], false, 'H');
    term.csi_dispatch(&params(&[&[1]]), &[], false, 'm');
    term.esc_dispatch(&[], false, b'7');
    term.csi_dispatch(&params(&[&[8], &[9]]), &[], false, 'H');
    term.csi_dispatch(&params(&[&[0]]), &[], false, 'm');
    term.esc_dispatch(&[], false, b'8');
    assert_eq!((term.cursor().row, term.cursor().col), (1, 2));
    term.print('Q');
    assert!(term.grid().cell(1, 2).unwrap().attrs.bold);
}

#[test]
fn dec_mode_last_write_wins() {
    let mut a = TerminalModes::new();
    a.set_dec_mode(2004, true);
    a.set_dec_mode(2004, false);
    let mut b = TerminalModes::new();
    b.set_dec_mode(2004, false);
    assert_eq!(a, b);
    assert!(!a.bracketed_paste);
    let mut c = TerminalModes::new();
    c.set_dec_mode(1006, true);
    c.set_dec_mode(1006, true);
    assert_eq!(c.mouse_encoding, garterm::terminal::MouseEncoding::Sgr);
}

#[test]
fn sgr_reset_keeps_hyperlink() {
    let mut attrs = CellAttrs::default();
    attrs.bold = true;
    attrs.hyperlink_id = 3;
    let pen = Pen { attrs, fg: CellColor::Indexed(1), bg: CellColor::Rgb(1, 2, 3) };
    let reset = apply_sgr(pen, &params(&[&[0]]));
    let mut plain = CellAttrs::default();
    plain.hyperlink_id = 3;
    assert_eq!(reset, Pen { attrs: plain, fg: CellColor::Default, bg: CellColor::Default });
}

#[test]
fn sgr_colors() {
    let pen = Pen { attrs: CellAttrs::default(), fg: CellColor::Default, bg: CellColor::Default };
    let p = apply_sgr(pen, &params(&[&[31], &[102]]));
    assert_eq!((p.fg, p.bg), (CellColor::Indexed(1), CellColor::Indexed(10)));
    let p = apply_sgr(pen, &params(&[&[38], &[2], &[10], &[20], &[30], &[1]]));
    assert_eq!(p.fg, CellColor::Rgb(10, 20, 30));
    assert!(p.attrs.bold);
    let p = apply_sgr(pen, &params(&[&[48], &[5], &[200]]));
    assert_eq!(p.bg, CellColor::Indexed(200));
}

#[test]
fn resize_keeps_cursor_on_screen() {
    let mut term = Terminal::new(80, 24);
    term.csi_dispatch(&params(&[&[20], &[70]]), &[], false, 'H');
    term.resize(40, 10);
    assert_eq!((term.cursor().row, term.cursor().col), (9, 39));
    assert_eq!((term.cols(), term.rows()), (40, 10));
}

#[test]
fn device_attributes_and_status_replies() {
    let mut term = Terminal::new(10, 5);
    term.csi_dispatch(&params(&[&[6]]), &[], false, 'n');
    term.csi_dispatch(&params(&[&[5]]), &[], false, 'n');
    let replies = term.take_responses();
    assert_eq!(replies, vec![b"\x1b[1;1R".to_vec(), b"\x1b[0n".to_vec()]);
    assert!(term.take_responses().is_empty());
}

#[test]
fn osc_title_utf8() {
    let mut term = Terminal::new(10, 5);
    term.osc_dispatch(&vec![b"0".to_vec(), "héllo".as_bytes().to_vec()], true);
    assert_eq!(term.title(), "héllo");
    // A title that is not UTF-8 is ignored.
    term.osc_dispatch(&vec![b"2".to_vec(), vec![0xff, 0xfe]], true);
    assert_eq!(term.title(), "héllo");
}

#[test]
fn osc7_sets_cwd() {
    let mut term = Terminal::new(10, 5);
    term.osc_dispatch(&vec![b"7".to_vec(), b"file://host/home/me/my%20dir".to_vec()], true);
    assert_eq!(term.cwd(), Some("/home/me/my dir"));
}

#[test]
fn osc52_store_decodes_base64() {
    let mut term = Terminal::new(10, 5);
    term.osc_dispatch(&vec![b"52".to_vec(), b"c".to_vec(), b"aGVsbG8=".to_vec()], true);
    let events = term.take_clipboard_events();
    assert_eq!(events.len(), 1);
    assert!(matches!(&events[0], ClipboardEvent::Store(ClipboardSelection::Clipboard, d) if d == b"hello"));
    term.osc_dispatch(&vec![b"52".to_vec(), b"p".to_vec(), b"?".to_vec()], true);
    let events = term.take_clipboard_events();
    assert!(matches!(&events[0], ClipboardEvent::Query(ClipboardSelection::Primary)));
}

#[test]
fn clipboard_response_encodes_base64() {
    let mut term = Terminal::new(10, 5);
    term.clipboard_response(ClipboardSelection::Clipboard, b"hi");
    assert_eq!(term.take_responses(), vec![b"\x1b]52;c;aGk=\x07".to_vec()]);
}

#[test]
fn url_decoding() {
    assert_eq!(url_decode("/home/user"), "/home/user");
    assert_eq!(url_decode("a%20b"), "a b");
    assert_eq!(url_decode("100%"), "100%");
    assert_eq!(url_decode("%zz!"), "%zz!");
    assert_eq!(url_decode("%41%42"), "AB");
}

#[test]
fn bell_and_tabs() {
    let mut term = Terminal::new(20, 3);
    term.execute(0x07);
    assert!(term.take_bell());
    assert!(!term.take_bell());
    term.execute(0x09);
    assert_eq!(term.cursor().col, 8);
    term.execute(0x09);
    assert_eq!(term.cursor().col, 16);
    term.execute(0x09);
    assert_eq!(term.cursor().col, 19);
}

#[test]
fn search_finds_matches() {
    let mut grid = Grid::new(20, 2, 10);
    for (i, c) in "Foo foo".chars().enumerate() {
        grid.cell_mut(1, i).unwrap().c = c;
    }
    let hits = grid.search("foo", true);
    assert_eq!(hits.len(), 2);
    assert_eq!((hits[0].row, hits[0].col_start, hits[0].col_end), (1, 0, 3));
    assert_eq!((hits[1].row, hits[1].col_start, hits[1].col_end), (1, 4, 7));
    assert_eq!(grid.search("foo", false).len(), 1);
    assert!(grid.search("", true).is_empty());
}

#[test]
fn alternate_screen_round_trip() {
    let mut term = Terminal::new(10, 3);
    write(&mut term, "main");
    term.csi_dispatch(&params(&[&[1049]]), b"?", false, 'h');
    assert_eq!(row_text(&term, 0), "");
    write(&mut term, "alt");
    term.csi_dispatch(&params(&[&[1049]]), b"?", false, 'l');
    assert_eq!(row_text(&term, 0), "main");
}

use garterm::render::atlas::{FontStyle, GlyphAtlas, GlyphKey};

#[test]
fn sequences_in_range() {
    let mut term = Terminal::new(5, 2);
    assert!(term.csi_in_range(&params(&[&[0]]), &[], false, 'g'));
    assert!(term.esc_in_range(&[], false, b'H'));
    write(&mut term, "abcde");
    // The cursor now waits past the last column.
    assert_eq!(term.cursor().col, 5);
    assert!(!term.csi_in_range(&params(&[&[0]]), &[], false, 'g'));
    assert!(term.csi_in_range(&params(&[&[3]]), &[], false, 'g'));
    assert!(!term.esc_in_range(&[], false, b'H'));
    assert!(term.esc_in_range(&[], true, b'H'));
}

#[test]
fn glyph_atlas_packing() {
    let mut atlas = GlyphAtlas::new(16, 16);
    let key = GlyphKey { c: 'a', style: FontStyle::Regular };
    assert!(atlas.insert_fits(3, 2));
    let e = atlas.insert(key, 3, 2, 0, 0, &vec![9, 9, 9, 8, 8, 8]).unwrap();
    assert_eq!((e.x, e.y, e.width, e.height), (1, 1, 3, 2));
    assert_eq!(atlas.get(key), Some(e));
    assert_eq!(atlas.data()[16 + 1], 9);
    assert_eq!(atlas.data()[2 * 16 + 3], 8);
    assert!(atlas.is_dirty());
    // Wider than the texture: it would run past the last row.
    assert!(!atlas.insert_fits(40, 11));
    // Too tall: the atlas reports that it is full instead.
    assert!(atlas.insert_fits(40, 15));
    let empty = atlas.insert_empty(GlyphKey { c: ' ', style: FontStyle::Bold });
    assert_eq!(empty.width, 0);
}

#[test]
fn viewport_down_undoes_up() {
    let mut grid = Grid::new(10, 4, 100);
    grid.scroll_up(3, 0, 3);
    grid.scroll_up(2, 0, 3);
    assert_eq!(grid.scrollback_len(), 5);
    grid.scroll_viewport_up(1);
    grid.scroll_viewport_up(3);
    assert_eq!(grid.scroll_offset(), 4);
    grid.scroll_viewport_down(3);
    assert_eq!(grid.scroll_offset(), 1);
    // Past the oldest line the viewport stops, so going back down lands lower.
    grid.scroll_viewport_up(10);
    assert_eq!(grid.scroll_offset(), 5);
    grid.scroll_viewport_down(10);
    assert_eq!(grid.scroll_offset(), 0);
    assert!(grid.is_at_bottom());
}

#[test]
fn space_with_attributes_is_not_empty() {
    let mut cell = Cell::new(' ');
    assert!(cell.is_empty());
    cell.attrs.inverse = true;
    assert!(!cell.is_empty());
}

use garterm::terminal::Cursor;

#[test]
fn cursor_restore_after_moves() {
    let mut c = Cursor::new();
    assert_eq!(c.restore(), None);
    assert_eq!((c.row, c.col), (0, 0));
    c.goto(2, 3);
    c.save(CellAttrs::default(), CellColor::Default, CellColor::Default, false, true);
    c.goto(5, 5);
    let mut bold = CellAttrs::default();
    bold.bold = true;
    c.save(bold, CellColor::Indexed(1), CellColor::Default, true, false);
    c.move_up(2);
    c.move_right(4, 10);
    c.move_down(9, 7);
    c.move_left(1);
    assert_eq!(c.restore(), Some((bold, CellColor::Indexed(1), CellColor::Default, true, false)));
    assert_eq!((c.row, c.col), (5, 5));
    assert!(!c.has_saved());
}

#[test]
fn visible_lines_deep_in_scrollback() {
    let mut grid = Grid::new(4, 2, 100);
    for k in 0..6u8 {
        grid.cell_mut(0, 0).unwrap().c = (b'a' + k) as char;
        grid.scroll_up(1, 0, 1);
    }
    // Scrollback holds a..f (oldest first); the display is blank.
    assert_eq!(grid.scrollback_len(), 6);
    grid.set_scroll_offset(5);
    let rows: Vec<char> = grid.visible_lines().iter().map(|l| l.get(0).unwrap().c).collect();
    assert_eq!(rows, vec!['b', 'c']);
    grid.set_scroll_offset(1);
    let rows: Vec<char> = grid.visible_lines().iter().map(|l| l.get(0).unwrap().c).collect();
    assert_eq!(rows, vec!['f', ' ']);
    grid.set_scroll_offset(0);
    assert_eq!(grid.visible_lines().len(), 2);
}

#[test]
fn clipboard_response_padding() {
    let mut term = Terminal::new(10, 5);
    term.clipboard_response(ClipboardSelection::Primary, b"");
    term.clipboard_response(ClipboardSelection::Primary, b"a");
    term.clipboard_response(ClipboardSelection::Both, b"abc");
    term.clipboard_response(ClipboardSelection::Clipboard, &[0xfb, 0xff, 0xfe, 0x00]);
    assert_eq!(
        term.take_responses(),
        vec![
            b"\x1b]52;p;\x07".to_vec(),
            b"\x1b]52;p;YQ==\x07".to_vec(),
            b"\x1b]52;s;YWJj\x07".to_vec(),
            b"\x1b]52;c;+//+AA==\x07".to_vec(),
        ]
    );
}
