use ascii_processing_unit::cell::{Attrs, Color};
use ascii_processing_unit::grid::Grid;
use ascii_processing_unit::renderer::{AnsiIbmRenderer, MouseMode, Renderer};

#[test]
fn test_renderer_init() {
    let mut renderer = AnsiIbmRenderer::standard();
    let init = renderer.init();
    assert!(init.contains("\x1b[?25l"));
    assert!(init.contains("\x1b[2J"));
}

#[test]
fn test_render_simple() {
    let mut renderer = AnsiIbmRenderer::new(10, 5);
    let mut grid = Grid::new(10, 5);
    grid.set(0, 0, 'X', Color::Red, Color::Black, Attrs::default());

    let output = renderer.render_full(&grid);
    assert!(output.contains("X"));
    assert!(output.contains("31"));
}

#[test]
fn attribute_off_forces_reset_and_colour() {
    let mut r = AnsiIbmRenderer::new(2, 1);
    let mut g = Grid::new(2, 1);
    g.set(0, 0, 'a', Color::Red, Color::Black, Attrs::new().bold());
    g.set(1, 0, 'b', Color::Red, Color::Black, Attrs::new());
    let out = r.render_full(&g);
    assert_eq!(out, "\x1b[H\x1b[0m\x1b[1;1H\x1b[1;31ma\x1b[0;31;40mb");
}

#[test]
fn clean_grid_renders_nothing_after_full() {
    let mut r = AnsiIbmRenderer::new(4, 2);
    let mut g = Grid::new(4, 2);
    g.write_str(0, 0, "hi", Color::Cyan, Color::Black, Attrs::default());
    let full = r.render_full(&g);
    assert!(!full.is_empty());
    g.mark_all_clean();
    assert_eq!(r.render_dirty(&g), "");
}

#[test]
fn dirty_render_moves_only_when_needed() {
    let mut r = AnsiIbmRenderer::new(10, 4);
    let mut g = Grid::new(10, 4);
    g.mark_all_clean();
    g.set(3, 2, 'a', Color::White, Color::Black, Attrs::default());
    g.set(4, 2, 'b', Color::White, Color::Black, Attrs::default());
    g.set(0, 3, '\x07', Color::White, Color::Black, Attrs::default());
    let out = r.render_dirty(&g);
    assert_eq!(out, "\x1b[3;4Hab\x1b[4;1H ");
}

#[test]
fn mouse_modes() {
    let r = AnsiIbmRenderer::standard();
    assert_eq!(r.enable_mouse(MouseMode::Sgr), "\x1b[?1006h\x1b[?1002h");
    assert_eq!(r.enable_mouse(MouseMode::Normal), "\x1b[?1000h");
    assert_eq!(r.enable_mouse(MouseMode::Off), r.disable_mouse());
    assert_eq!(MouseMode::from_str("BUTTON"), MouseMode::Button);
    assert_eq!(MouseMode::from_str("Off"), MouseMode::Off);
    assert_eq!(MouseMode::from_str("whatever"), MouseMode::Sgr);
    assert_eq!(Renderer::name(&r), "ansi-ibm");
}
