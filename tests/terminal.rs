use ascii_processing_unit::cell::Color;
use ascii_processing_unit::terminal::{Terminal, TerminalType};

fn row_text(t: &Terminal, y: usize, n: usize) -> String {
    t.get_screen()[y][..n].iter().map(|c| c.char).collect()
}

#[test]
fn clear_home_print_and_report_position() {
    let mut t = Terminal::new("t".to_string(), 80, 24, TerminalType::Ansi);
    t.process_data(b"\x1b[2J\x1b[1;1HHello\r\n\x1b[6n");
    assert_eq!(row_text(&t, 0, 5), "Hello");
    assert_eq!((t.cursor_x, t.cursor_y), (0, 1));
    assert_eq!(t.take_responses(), vec![b"\x1b[2;1R".to_vec()]);
    assert!(t.response_queue.is_empty());
}

#[test]
fn sgr_colours_and_reset() {
    let mut t = Terminal::new("t".to_string(), 10, 2, TerminalType::Ansi);
    t.process_data(b"\x1b[1;31;44mA\x1b[0mB\x1b[38;5;10mC\x1b[93mD");
    let s = t.get_screen();
    assert_eq!((s[0][0].fg, s[0][0].bg, s[0][0].attrs.bold), (Color::Red, Color::Blue, true));
    assert_eq!((s[0][1].fg, s[0][1].bg, s[0][1].attrs.bold), (Color::White, Color::Black, false));
    assert_eq!(s[0][2].fg, Color::BrightGreen);
    assert_eq!(s[0][3].fg, Color::BrightYellow);
}

#[test]
fn wrap_and_scroll() {
    let mut t = Terminal::new("t".to_string(), 3, 2, TerminalType::Ansi);
    t.process_data(b"abcdefg");
    assert_eq!(row_text(&t, 0, 3), "def");
    assert_eq!(row_text(&t, 1, 3), "g  ");
    assert_eq!(t.scrollback.len(), 1);
    assert_eq!(t.scrollback[0].iter().map(|c| c.char).collect::<String>(), "abc");
}

#[test]
fn cursor_moves_clamp() {
    let mut t = Terminal::new("t".to_string(), 10, 5, TerminalType::Ansi);
    t.process_data(b"\x1b[99;99H");
    assert_eq!((t.cursor_x, t.cursor_y), (9, 4));
    t.process_data(b"\x1b[3A\x1b[20D");
    assert_eq!((t.cursor_x, t.cursor_y), (0, 1));
    t.process_data(b"\t");
    assert_eq!(t.cursor_x, 8);
    t.process_data(b"\t");
    assert_eq!(t.cursor_x, 9);
}

#[test]
fn erase_line_parts() {
    let mut t = Terminal::new("t".to_string(), 5, 1, TerminalType::Ansi);
    t.process_data(b"abcde\x1b[1;3H\x1b[K");
    assert_eq!(row_text(&t, 0, 5), "ab   ");
    t.process_data(b"\x1b[1;1Hxyz\x1b[1;2H\x1b[1K");
    assert_eq!(row_text(&t, 0, 5), "  z  ");
}

#[test]
fn raw_mode_ignores_escapes() {
    let mut t = Terminal::new("t".to_string(), 10, 2, TerminalType::from_str("RAW"));
    t.process_data(b"a\x1b[31mb");
    assert_eq!(row_text(&t, 0, 6), "a[31mb");
    assert_eq!(TerminalType::from_str("xterm"), TerminalType::Xterm);
    assert_eq!(TerminalType::from_str("dumb"), TerminalType::Ansi);
}

#[test]
fn resize_keeps_overlap() {
    let mut t = Terminal::new("t".to_string(), 4, 2, TerminalType::Ansi);
    t.process_data(b"wxyz");
    t.resize(2, 3);
    assert_eq!(row_text(&t, 0, 2), "wx");
    assert_eq!(t.get_screen().len(), 3);
    assert_eq!(t.cursor_x, 1);
}
