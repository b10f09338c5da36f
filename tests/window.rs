use ascii_processing_unit::cell::Color;
use ascii_processing_unit::window::{BorderStyle, Window, WindowManager};

#[test]
fn bordered_content_is_two_smaller() {
    let mut w = Window::new("w", 0, 0, 20, 5);
    assert_eq!((w.inner_width(), w.inner_height()), (18, 3));
    w.set_border(BorderStyle::Borderless);
    assert_eq!((w.inner_width(), w.inner_height()), (20, 5));
    w.set_border(BorderStyle::Double);
    w.resize(7, 9);
    assert_eq!((w.inner_width() + 2, w.inner_height() + 2), (7, 9));
}

#[test]
fn composite_draws_chrome_and_content() {
    let mut wm = WindowManager::new(30, 10);
    let i = wm.create_window("w", 2, 1, 10, 4);
    wm.windows[i].set_title("hi".to_string());
    wm.windows[i].print(0, 0, "X", Color::BrightGreen, None);
    wm.composite();
    let at = |x: usize, y: usize| wm.display.get(x, y).unwrap().char;
    assert_eq!(at(2, 1), '┌');
    assert_eq!(at(3, 1), '[');
    assert_eq!(at(4, 1), ']');
    assert_eq!(at(3, 2), 'X');
    assert_eq!(at(11, 4), '◢');
    assert_eq!(at(2, 4), '└');
    assert_eq!(at(0, 0), ' ');
    let row: String = (0..30).map(|x| at(x, 1)).collect();
    assert!(row.contains("[hi]"));
}

#[test]
fn invert_window_swaps_colours() {
    let mut wm = WindowManager::new(5, 5);
    let i = wm.create_window("cursor", 1, 1, 1, 1);
    wm.windows[i].invert = true;
    wm.composite();
    let c = wm.display.get(1, 1).unwrap();
    assert_eq!((c.fg, c.bg), (Color::Black, Color::White));
    let d = wm.display.get(0, 0).unwrap();
    assert_eq!((d.fg, d.bg), (Color::White, Color::Black));
}

#[test]
fn z_order_stays_sorted() {
    let mut wm = WindowManager::new(40, 20);
    wm.create_window("a", 0, 0, 5, 5);
    wm.create_window("b", 0, 0, 5, 5);
    wm.create_window("c", 0, 0, 5, 5);
    wm.bring_to_front("a");
    let ids: Vec<&str> = wm.windows.iter().map(|w| w.id.as_str()).collect();
    assert_eq!(ids, vec!["b", "c", "a"]);
    wm.send_to_back("c");
    let ids: Vec<&str> = wm.windows.iter().map(|w| w.id.as_str()).collect();
    assert_eq!(ids, vec!["c", "b", "a"]);
    wm.create_window("d", 0, 0, 5, 5);
    let zs: Vec<i32> = wm.windows.iter().map(|w| w.z_index).collect();
    assert!(zs.windows(2).all(|p| p[0] <= p[1]));
    assert_eq!(wm.window_at(1, 1), Some("a"));
    wm.remove("a");
    assert!(wm.get("a").is_none());
}

#[test]
fn hit_tests_go_front_to_back() {
    let mut wm = WindowManager::new(40, 20);
    wm.create_window("back", 0, 0, 10, 5);
    wm.create_window("front", 5, 0, 10, 5);
    assert_eq!(wm.hit_close_button(6, 0), Some("front"));
    assert_eq!(wm.hit_title_bar(3, 0), Some("back"));
    assert_eq!(wm.hit_title_bar(6, 0), Some("back"));
    assert_eq!(wm.hit_title_bar(8, 0), Some("front"));
    assert_eq!(wm.hit_resize_handle(14, 4), Some("front"));
}

#[test]
fn get_mut_edits_in_place() {
    let mut wm = WindowManager::new(20, 10);
    wm.create_window("w", 1, 1, 6, 4);
    wm.get_mut("w").unwrap().move_to(3, 2);
    assert!(wm.get_mut("nope").is_none());
    let w = wm.get("w").unwrap();
    assert_eq!((w.x, w.y), (3, 2));
    wm.mark_all_clean();
    assert!(!wm.is_dirty());
}

#[test]
fn narrow_title_stays_inside_window() {
    let mut wm = WindowManager::new(20, 5);
    let i = wm.create_window("n", 2, 1, 5, 3);
    wm.windows[i].set_title("a".to_string());
    wm.composite();
    assert_eq!(wm.display.get(7, 1).unwrap().char, ' ');
    assert_eq!(wm.display.get(6, 1).unwrap().char, '┐');
}
