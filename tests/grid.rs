use ascii_processing_unit::cell::{Attrs, Color};
use ascii_processing_unit::grid::{BoxChars, Grid};

#[test]
fn test_grid_new() {
    let grid = Grid::new(80, 24);
    assert_eq!(grid.cols, 80);
    assert_eq!(grid.rows, 24);
}

#[test]
fn test_grid_set_get() {
    let mut grid = Grid::new(80, 24);
    grid.set(10, 5, 'X', Color::Red, Color::Black, Attrs::default());

    let cell = grid.get(10, 5).unwrap();
    assert_eq!(cell.char, 'X');
    assert_eq!(cell.fg, Color::Red);
}

#[test]
fn test_grid_write_str() {
    let mut grid = Grid::new(80, 24);
    grid.write_str(5, 10, "Hello", Color::Green, Color::Black, Attrs::default());

    assert_eq!(grid.get(5, 10).unwrap().char, 'H');
    assert_eq!(grid.get(6, 10).unwrap().char, 'e');
    assert_eq!(grid.get(9, 10).unwrap().char, 'o');
}

#[test]
fn out_of_bounds_is_ignored() {
    let mut grid = Grid::new(4, 2);
    grid.set(4, 0, 'X', Color::Red, Color::Black, Attrs::default());
    grid.set(0, 2, 'X', Color::Red, Color::Black, Attrs::default());
    assert!(grid.get(4, 0).is_none());
    assert!(grid.iter().iter().all(|e| e.2.char == ' '));
}

#[test]
fn write_str_truncates_at_right_edge() {
    let mut grid = Grid::new(4, 1);
    grid.write_str(2, 0, "abcd", Color::White, Color::Black, Attrs::default());
    assert_eq!(grid.get(2, 0).unwrap().char, 'a');
    assert_eq!(grid.get(3, 0).unwrap().char, 'b');
    assert_eq!(grid.get(0, 0).unwrap().char, ' ');
}

#[test]
fn draw_box_needs_two_by_two() {
    let mut grid = Grid::new(5, 5);
    grid.draw_box(0, 0, 1, 3, &BoxChars::single(), Color::White, Color::Black);
    assert_eq!(grid.get(0, 0).unwrap().char, ' ');
    grid.draw_box(1, 1, 3, 3, &BoxChars::single(), Color::White, Color::Black);
    assert_eq!(grid.get(1, 1).unwrap().char, '┌');
    assert_eq!(grid.get(3, 1).unwrap().char, '┐');
    assert_eq!(grid.get(2, 1).unwrap().char, '─');
    assert_eq!(grid.get(1, 2).unwrap().char, '│');
    assert_eq!(grid.get(3, 3).unwrap().char, '┘');
    assert_eq!(grid.get(2, 2).unwrap().char, ' ');
}

#[test]
fn iter_dirty_lists_changed_cells_in_row_order() {
    let mut grid = Grid::new(3, 2);
    grid.mark_all_clean();
    assert!(!grid.is_dirty());
    grid.set(2, 1, 'z', Color::White, Color::Black, Attrs::default());
    grid.set(0, 1, 'y', Color::White, Color::Black, Attrs::default());
    grid.set(1, 0, ' ', Color::White, Color::Black, Attrs::default());
    let d = grid.iter_dirty();
    assert_eq!(d.len(), 2);
    assert_eq!((d[0].0, d[0].1), (0, 1));
    assert_eq!((d[1].0, d[1].1), (2, 1));
}

#[test]
fn blit_copies_intersection() {
    let mut src = Grid::new(2, 2);
    src.fill_rect(0, 0, 2, 2, '#', Color::Red, Color::Black);
    let mut dst = Grid::new(3, 3);
    dst.blit(&src, 0, 0, 2, 2, 2, 2);
    assert_eq!(dst.get(2, 2).unwrap().char, '#');
    assert_eq!(dst.get(1, 1).unwrap().char, ' ');
}

#[test]
fn get_mut_changes_one_cell() {
    let mut grid = Grid::new(3, 3);
    grid.mark_all_clean();
    grid.get_mut(1, 2).unwrap().set_char('Z');
    assert!(grid.get_mut(3, 0).is_none());
    assert_eq!(grid.get(1, 2).unwrap().char, 'Z');
    assert_eq!(grid.iter_dirty().len(), 1);
}
