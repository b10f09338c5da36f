use ascii_processing_unit::cell::{Attrs, Cell, Color};

#[test]
fn test_color_codes() {
    assert_eq!(Color::Black.fg_code(), 30);
    assert_eq!(Color::White.fg_code(), 37);
    assert_eq!(Color::BrightRed.fg_code(), 91);
    assert_eq!(Color::Black.bg_code(), 40);
    assert_eq!(Color::BrightWhite.bg_code(), 107);
}

#[test]
fn test_cell_dirty() {
    let mut cell = Cell::default();
    cell.dirty = false;
    cell.set_char('X');
    assert!(cell.dirty);
}

#[test]
fn color_from_out_of_range_is_white() {
    assert_eq!(Color::from(16u8), Color::White);
    assert_eq!(Color::from(200u8), Color::White);
    assert_eq!(Color::from(10u8), Color::BrightGreen);
    assert_eq!(Color::BrightGreen.fg_code(), 92);
}

#[test]
fn set_char_dirty_only_on_change() {
    let mut cell = Cell::new('a');
    cell.dirty = false;
    cell.set_char('a');
    assert!(!cell.dirty);
    cell.set_char('b');
    assert!(cell.dirty);
    cell.dirty = false;
    cell.set_char('b');
    cell.set_char('b');
    assert!(!cell.dirty);
    cell.set_char('c');
    cell.set_char('b');
    assert!(cell.dirty);
}

#[test]
fn set_keeps_clean_on_equal_values() {
    let mut cell = Cell::full('q', Color::Red, Color::Blue, Attrs::new().bold());
    cell.dirty = false;
    cell.set('q', Color::Red, Color::Blue, Attrs::new().bold());
    assert!(!cell.dirty);
    cell.set_fg(Color::Green);
    assert!(cell.dirty);
}

#[test]
fn attrs_codes_in_order() {
    let a = Attrs::new().reverse().bold().blink();
    assert_eq!(a.sgr_codes(), vec![1, 5, 7]);
    assert!(a.any());
    assert!(!Attrs::new().any());
}

#[test]
fn clear_keeps_clean_default_cell_clean() {
    let mut cell = Cell::default();
    cell.dirty = false;
    cell.clear();
    assert!(!cell.dirty);
    cell.set_char('x');
    cell.dirty = false;
    cell.clear();
    assert!(cell.dirty);
    assert_eq!(cell.char, ' ');
}
