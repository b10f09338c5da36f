//! Windows (bordered content regions with chrome) and the window manager,
//! which keeps them in z-order and composites them onto a display grid.
use vstd::prelude::*;
use crate::cell::{cell_after_set, no_attrs, same_look, Attrs, Cell, Color};
use crate::grid::{box_glyph, copied_cell, spec_ascii, spec_double, spec_heavy, spec_rounded, spec_single, BoxChars, Grid};
use crate::text::chars_of;

verus! {

/// Border style of a window.
#[derive(Debug, Clone, Copy, PartialEq, Eq, Structural)]
pub enum BorderStyle {
    Borderless,
    Single,
    Double,
    Rounded,
    Heavy,
    Ascii,
}

impl BorderStyle {
    /// Box characters of this style; `None` has none.
    pub fn chars(&self) -> (r: Option<BoxChars>)
        ensures
            r is Some <==> *self != BorderStyle::Borderless,
            r is Some ==> r->0 == spec_box_chars(*self),
    {
        match self {
            BorderStyle::Borderless => None,
            BorderStyle::Single => Some(BoxChars::single()),
            BorderStyle::Double => Some(BoxChars::double()),
            BorderStyle::Rounded => Some(BoxChars::rounded()),
            BorderStyle::Heavy => Some(BoxChars::heavy()),
            BorderStyle::Ascii => Some(BoxChars::ascii()),
        }
    }

    /// Whether this style draws a border.
    pub fn has_border(&self) -> (r: bool)
        ensures
            r == (*self != BorderStyle::Borderless),
    {
        !matches!(self, BorderStyle::Borderless)
    }
}

/// The box characters that a bordered style draws with.
pub open spec fn spec_box_chars(b: BorderStyle) -> BoxChars {
    match b {
        BorderStyle::Double => spec_double(),
        BorderStyle::Rounded => spec_rounded(),
        BorderStyle::Heavy => spec_heavy(),
        BorderStyle::Ascii => spec_ascii(),
        _ => spec_single(),
    }
}

impl Default for BorderStyle {
    fn default() -> (r: BorderStyle)
        ensures
            r == BorderStyle::Single,
    {
        BorderStyle::Single
    }
}

/// Horizontal alignment of a window title.
#[derive(Debug, Clone, Copy, PartialEq, Eq, Structural)]
pub enum TitleAlign {
    Left,
    Center,
    Right,
}

impl Default for TitleAlign {
    fn default() -> (r: TitleAlign)
        ensures
            r == TitleAlign::Center,
    {
        TitleAlign::Center
    }
}

/// Content width for a total width: two less when bordered (never below zero).
pub open spec fn content_w(width: int, border: BorderStyle) -> int {
    if border != BorderStyle::Borderless {
        if width >= 2 { width - 2 } else { 0 }
    } else {
        width
    }
}

/// A window on the display.
pub struct Window {
    pub id: String,
    pub x: usize,
    pub y: usize,
    /// Total width, border included.
    pub width: usize,
    /// Total height, border included.
    pub height: usize,
    pub border: BorderStyle,
    pub border_color: Color,
    pub title: Option<String>,
    pub title_align: TitleAlign,
    pub background: Color,
    pub visible: bool,
    pub z_index: i32,
    /// The inner area, without the border.
    pub content: Grid,
    pub dirty: bool,
    /// Shows a close button in the title bar.
    pub closable: bool,
    /// Can be resized with the bottom-right handle.
    pub resizable: bool,
    /// Can be dragged by its title bar.
    pub draggable: bool,
    pub min_width: usize,
    pub min_height: usize,
    /// Swaps the colours of whatever lies beneath instead of drawing itself.
    pub invert: bool,
}

/// Whether a content grid of the size that `width` x `height` with `border` asks for fits in memory.
pub open spec fn dims_ok(width: int, height: int, border: BorderStyle) -> bool {
    content_w(width, border) * content_w(height, border) <= usize::MAX
}

impl Window {
    /// The content grid has the size that the total size and border ask for.
    pub open spec fn wf(&self) -> bool {
        &&& self.content.wf()
        &&& self.content.cols == content_w(self.width as int, self.border)
        &&& self.content.rows == content_w(self.height as int, self.border)
    }

    pub open spec fn bordered(&self) -> bool {
        self.border != BorderStyle::Borderless
    }

    /// Chrome (border, close button, title, resize handle) is drawn only on
    /// bordered windows of at least 2 x 2.
    pub open spec fn has_chrome(&self) -> bool {
        self.bordered() && self.width >= 2 && self.height >= 2
    }

    pub open spec fn offset(&self) -> int {
        if self.bordered() { 1 } else { 0 }
    }

    pub open spec fn in_rect(&self, px: int, py: int) -> bool {
        self.x <= px < self.x + self.width && self.y <= py < self.y + self.height
    }

    /// Column where the title text starts relative to the window, before alignment.
    pub open spec fn title_start(&self) -> int {
        if self.closable { 4 } else { 2 }
    }

    /// Longest title shown without truncation.
    pub open spec fn title_max(&self) -> int {
        if self.width >= self.title_start() + 2 { self.width - self.title_start() - 2 } else { 0 }
    }

    /// The title as shown: cut to fit, with an ellipsis, when too long.
    pub open spec fn title_shown(&self) -> Seq<char> {
        let t = self.title->0@;
        let m = self.title_max();
        if t.len() > m {
            t.take(if m >= 1 { m - 1 } else { 0 }).push('…')
        } else {
            t
        }
    }

    /// Column of the first title character.
    pub open spec fn title_col(&self) -> int {
        let ts = self.title_start();
        let len = self.title_shown().len() as int;
        match self.title_align {
            TitleAlign::Left => self.x + ts,
            TitleAlign::Right => self.x + self.width - 2 - len,
            TitleAlign::Center => {
                let avail: int = if self.width >= ts { self.width - ts } else { 0 };
                let spare: int = if avail >= len + 2 { avail - (len + 2) } else { 0 };
                self.x + ts + spare / 2
            },
        }
    }

    pub open spec fn title_drawn(&self) -> bool {
        self.title is Some && self.title_col() > self.x
    }

    /// Border glyphs.
    pub open spec fn layer_border(&self, px: int, py: int, c: Cell) -> Cell {
        let g = box_glyph(spec_box_chars(self.border), self.x as int, self.y as int, self.width as int, self.height as int, px, py);
        if self.has_chrome() && g is Some {
            cell_after_set(c, g->0, self.border_color, self.background, no_attrs())
        } else {
            c
        }
    }

    /// The close button `[]` right of the top-left corner.
    pub open spec fn layer_close(&self, px: int, py: int, c: Cell) -> Cell {
        if self.has_chrome() && self.closable && self.width >= 4 && py == self.y && px == self.x + 1 {
            cell_after_set(c, '[', self.border_color, self.background, no_attrs())
        } else if self.has_chrome() && self.closable && self.width >= 4 && py == self.y && px == self.x + 2 {
            cell_after_set(c, ']', self.border_color, self.background, no_attrs())
        } else {
            c
        }
    }

    /// The title, bracketed, in bold bright white; clipped before the top-right corner.
    pub open spec fn layer_title(&self, px: int, py: int, c: Cell) -> Cell {
        let tx = self.title_col();
        let t = self.title_shown();
        if self.has_chrome() && self.title_drawn() && py == self.y && px < self.x + self.width - 1 {
            if px == tx - 1 {
                cell_after_set(c, '[', self.border_color, self.background, no_attrs())
            } else if tx <= px < tx + t.len() {
                cell_after_set(c, t[px - tx], Color::BrightWhite, self.background, Attrs { bold: true, ..no_attrs() })
            } else if px == tx + t.len() {
                cell_after_set(c, ']', self.border_color, self.background, no_attrs())
            } else {
                c
            }
        } else {
            c
        }
    }

    /// The resize handle at the bottom-right corner.
    pub open spec fn layer_handle(&self, px: int, py: int, c: Cell) -> Cell {
        if self.has_chrome() && self.resizable && px == self.x + self.width - 1 && py == self.y + self.height - 1 {
            cell_after_set(c, '◢', self.border_color, self.background, no_attrs())
        } else {
            c
        }
    }

    /// The content grid, drawn inside the border.
    pub open spec fn layer_content(&self, px: int, py: int, c: Cell) -> Cell {
        let cx = px - self.x - self.offset();
        let cy = py - self.y - self.offset();
        if self.content.in_bounds(cx, cy) {
            let s = self.content.at(cx, cy);
            cell_after_set(c, s.char, s.fg, s.bg, s.attrs)
        } else {
            c
        }
    }

    /// What drawing this window does to the cell `c` at `(px, py)` of a target grid.
    #[verifier::opaque]
    pub open spec fn paint(&self, px: int, py: int, c: Cell) -> Cell {
        if !self.visible {
            c
        } else if self.invert {
            if self.in_rect(px, py) {
                cell_after_set(c, c.char, c.bg, c.fg, c.attrs)
            } else {
                c
            }
        } else {
            self.layer_content(px, py, self.layer_handle(px, py, self.layer_title(px, py,
                self.layer_close(px, py, self.layer_border(px, py, c)))))
        }
    }

    fn content_size(width: usize, height: usize, border: BorderStyle) -> (r: (usize, usize))
        ensures
            r.0 == content_w(width as int, border),
            r.1 == content_w(height as int, border),
    {
        if border.has_border() {
            (width.saturating_sub(2), height.saturating_sub(2))
        } else {
            (width, height)
        }
    }

    /// A visible single-bordered window with default chrome and an empty title.
    pub fn new(id: &str, x: usize, y: usize, width: usize, height: usize) -> (r: Window)
        requires
            dims_ok(width as int, height as int, BorderStyle::Single),
        ensures
            r.wf(),
            r.id@ == id@,
            r.x == x && r.y == y && r.width == width && r.height == height,
            r.border == BorderStyle::Single,
            r.border_color == Color::White,
            r.title is None,
            r.title_align == TitleAlign::Center,
            r.background == Color::Black,
            r.visible && r.dirty && r.closable && r.resizable && r.draggable && !r.invert,
            r.z_index == 0,
            r.min_width == 10 && r.min_height == 5,
            r.content.all_blank(),
    {
        let border = BorderStyle::Single;
        let (cw, ch) = Window::content_size(width, height, border);
        Window {
            id: id.to_owned(),
            x,
            y,
            width,
            height,
            border,
            border_color: Color::White,
            title: None,
            title_align: TitleAlign::Center,
            background: Color::Black,
            visible: true,
            z_index: 0,
            content: Grid::new(cw, ch),
            dirty: true,
            closable: true,
            resizable: true,
            draggable: true,
            min_width: 10,
            min_height: 5,
            invert: false,
        }
    }

    pub fn inner_width(&self) -> (r: usize)
        ensures
            r == self.content.cols,
    {
        self.content.cols
    }

    pub fn inner_height(&self) -> (r: usize)
        ensures
            r == self.content.rows,
    {
        self.content.rows
    }

    /// Where the content starts relative to the window's corner.
    pub fn content_offset(&self) -> (r: (usize, usize))
        ensures
            r.0 == self.offset() && r.1 == self.offset(),
    {
        if self.border.has_border() {
            (1, 1)
        } else {
            (0, 0)
        }
    }

    /// Changes the border; a change of style resizes (and so clears) the content.
    pub fn set_border(&mut self, border: BorderStyle)
        requires
            old(self).wf(),
            dims_ok(old(self).width as int, old(self).height as int, border),
        ensures
            final(self).wf(),
            final(self).border == border,
            old(self).border == border ==> *final(self) == *old(self),
            old(self).border != border ==> final(self).content.all_blank() && final(self).dirty
                && *final(self) == (Window { border, content: final(self).content, dirty: true, ..*old(self) }),
    {
        if self.border != border {
            self.border = border;
            let (cw, ch) = Window::content_size(self.width, self.height, border);
            self.content.resize(cw, ch);
            self.dirty = true;
        }
    }

    pub fn set_title(&mut self, title: String)
        ensures
            *final(self) == (Window { title: Some(title), dirty: true, ..*old(self) }),
    {
        self.title = Some(title);
        self.dirty = true;
    }

    pub fn clear_title(&mut self)
        ensures
            *final(self) == (Window { title: None, dirty: true, ..*old(self) }),
    {
        self.title = None;
        self.dirty = true;
    }

    /// Fills the content with spaces, white on the window background.
    pub fn clear(&mut self)
        requires
            old(self).wf(),
        ensures
            final(self).wf(),
            final(self).dirty,
            *final(self) == (Window { content: final(self).content, dirty: true, ..*old(self) }),
            forall|px: int, py: int| final(self).content.in_bounds(px, py) ==> #[trigger] final(self).content.at(px, py)
                == (Cell { char: ' ', fg: Color::White, bg: old(self).background, attrs: no_attrs(), dirty: true }),
    {
        let bg = self.background;
        self.content.clear_with(' ', Color::White, bg);
        self.dirty = true;
    }

    /// Writes text into the content at `(x, y)`; the background defaults to the window's.
    pub fn print(&mut self, x: usize, y: usize, text: &str, fg: Color, bg: Option<Color>)
        requires
            old(self).wf(),
        ensures
            final(self).wf(),
            *final(self) == (Window { content: final(self).content, dirty: true, ..*old(self) }),
            forall|px: int, py: int| final(self).content.in_bounds(px, py) ==> #[trigger] final(self).content.at(px, py) == if py == y && x <= px < x + text@.len() {
                cell_after_set(old(self).content.at(px, py), text@[px - x], fg, if bg is Some { bg->0 } else { old(self).background }, no_attrs())
            } else {
                old(self).content.at(px, py)
            },
    {
        let b = match bg {
            Some(c) => c,
            None => self.background,
        };
        self.content.write_str(x, y, text, fg, b, Attrs::new());
        self.dirty = true;
    }

    /// Sets one content cell; the background defaults to the window's.
    pub fn set(&mut self, x: usize, y: usize, ch: char, fg: Color, bg: Option<Color>)
        requires
            old(self).wf(),
        ensures
            final(self).wf(),
            *final(self) == (Window { content: final(self).content, dirty: true, ..*old(self) }),
            forall|px: int, py: int| final(self).content.in_bounds(px, py) ==> #[trigger] final(self).content.at(px, py) == if px == x && py == y {
                cell_after_set(old(self).content.at(px, py), ch, fg, if bg is Some { bg->0 } else { old(self).background }, no_attrs())
            } else {
                old(self).content.at(px, py)
            },
    {
        let b = match bg {
            Some(c) => c,
            None => self.background,
        };
        self.content.set(x, y, ch, fg, b, Attrs::new());
        self.dirty = true;
    }

    /// Fills a rectangle of the content; the background defaults to the window's.
    pub fn fill(&mut self, x: usize, y: usize, w: usize, h: usize, ch: char, fg: Color, bg: Option<Color>)
        requires
            old(self).wf(),
        ensures
            final(self).wf(),
            *final(self) == (Window { content: final(self).content, dirty: true, ..*old(self) }),
            forall|px: int, py: int| final(self).content.in_bounds(px, py) ==> #[trigger] final(self).content.at(px, py) == if x <= px < x + w && y <= py < y + h {
                cell_after_set(old(self).content.at(px, py), ch, fg, if bg is Some { bg->0 } else { old(self).background }, no_attrs())
            } else {
                old(self).content.at(px, py)
            },
    {
        let b = match bg {
            Some(c) => c,
            None => self.background,
        };
        self.content.fill_rect(x, y, w, h, ch, fg, b);
        self.dirty = true;
    }

    pub fn move_to(&mut self, x: usize, y: usize)
        ensures
            *final(self) == (Window { x, y, dirty: true, ..*old(self) }),
    {
        self.x = x;
        self.y = y;
        self.dirty = true;
    }

    /// Changes the total size; the content is resized to match (and cleared).
    pub fn resize(&mut self, width: usize, height: usize)
        requires
            dims_ok(width as int, height as int, old(self).border),
        ensures
            final(self).wf(),
            final(self).content.all_blank(),
            *final(self) == (Window { width, height, content: final(self).content, dirty: true, ..*old(self) }),
    {
        self.width = width;
        self.height = height;
        let (cw, ch) = Window::content_size(width, height, self.border);
        self.content.resize(cw, ch);
        self.dirty = true;
    }

    /// The title text as shown (requires a title).
    fn shown_title(&self) -> (r: Vec<char>)
        requires
            self.title is Some,
        ensures
            r@ == self.title_shown(),
    {
        let t = match &self.title {
            Some(t) => chars_of(t.as_str()),
            None => Vec::new(),
        };
        let ts: usize = if self.closable { 4 } else { 2 };
        let m: usize = if self.width >= ts + 2 { self.width - ts - 2 } else { 0 };
        if t.len() > m {
            let k: usize = if m >= 1 { m - 1 } else { 0 };
            let mut v: Vec<char> = Vec::new();
            let mut i: usize = 0;
            while i < k
                invariant
                    k < t@.len(),
                    i <= k,
                    v@ == t@.take(i as int),
                decreases k - i,
            {
                v.push(t[i]);
                i += 1;
                assert(v@ =~= t@.take(i as int));
            }
            v.push('…');
            v
        } else {
            t
        }
    }

    fn draw_border(&self, target: &mut Grid)
        requires
            self.wf(),
            old(target).wf(),
        ensures
            final(target).wf(),
            final(target).cols == old(target).cols,
            final(target).rows == old(target).rows,
            forall|px: int, py: int| final(target).in_bounds(px, py) ==> #[trigger] final(target).at(px, py) == self.layer_border(px, py, old(target).at(px, py)),
    {
        if self.border.has_border() && self.width >= 2 && self.height >= 2 {
            let bc = self.border.chars().unwrap();
            target.draw_box(self.x, self.y, self.width, self.height, &bc, self.border_color, self.background);
        }
    }

    fn draw_close(&self, target: &mut Grid)
        requires
            self.wf(),
            old(target).wf(),
        ensures
            final(target).wf(),
            final(target).cols == old(target).cols,
            final(target).rows == old(target).rows,
            forall|px: int, py: int| final(target).in_bounds(px, py) ==> #[trigger] final(target).at(px, py) == self.layer_close(px, py, old(target).at(px, py)),
    {
        if self.border.has_border() && self.width >= 4 && self.height >= 2 && self.closable {
            target.put_wide(self.x as u128 + 1, self.y as u128, '[', self.border_color, self.background, Attrs::new());
            target.put_wide(self.x as u128 + 2, self.y as u128, ']', self.border_color, self.background, Attrs::new());
        }
    }

    /// Column of the first title character, when the title is drawn at all.
    fn title_column(&self, len: u128) -> (r: Option<u128>)
        requires
            self.title is Some,
            len == self.title_shown().len(),
        ensures
            r is Some <==> self.title_drawn(),
            r is Some ==> r->0 == self.title_col(),
    {
        let x = self.x as u128;
        let w = self.width as u128;
        let ts: u128 = if self.closable { 4 } else { 2 };
        let tx: u128 = match self.title_align {
            TitleAlign::Left => x + ts,
            TitleAlign::Right => if w > len + 2 { x + w - 2 - len } else { 0 },
            TitleAlign::Center => {
                let avail: u128 = if w >= ts { w - ts } else { 0 };
                let spare: u128 = if avail >= len + 2 { avail - (len + 2) } else { 0 };
                x + ts + spare / 2
            },
        };
        if tx > x {
            Some(tx)
        } else {
            None
        }
    }

    fn draw_title(&self, target: &mut Grid)
        requires
            self.wf(),
            old(target).wf(),
        ensures
            final(target).wf(),
            final(target).cols == old(target).cols,
            final(target).rows == old(target).rows,
            forall|px: int, py: int| final(target).in_bounds(px, py) ==> #[trigger] final(target).at(px, py) == self.layer_title(px, py, old(target).at(px, py)),
    {
        if !(self.border.has_border() && self.width >= 2 && self.height >= 2 && self.title.is_some()) {
            return;
        }
        let shown = self.shown_title();
        let len = shown.len() as u128;
        if let Some(tx) = self.title_column(len) {
            draw_bracketed(target, tx, self.y, &shown, self.border_color, self.background, self.x as u128 + self.width as u128 - 1);
        }
    }

    fn draw_handle(&self, target: &mut Grid)
        requires
            self.wf(),
            old(target).wf(),
        ensures
            final(target).wf(),
            final(target).cols == old(target).cols,
            final(target).rows == old(target).rows,
            forall|px: int, py: int| final(target).in_bounds(px, py) ==> #[trigger] final(target).at(px, py) == self.layer_handle(px, py, old(target).at(px, py)),
    {
        if self.border.has_border() && self.width >= 2 && self.height >= 2 && self.resizable {
            target.put_wide(self.x as u128 + self.width as u128 - 1, self.y as u128 + self.height as u128 - 1, '◢', self.border_color, self.background, Attrs::new());
        }
    }

    fn draw_content(&self, target: &mut Grid)
        requires
            self.wf(),
            old(target).wf(),
        ensures
            final(target).wf(),
            final(target).cols == old(target).cols,
            final(target).rows == old(target).rows,
            forall|px: int, py: int| final(target).in_bounds(px, py) ==> #[trigger] final(target).at(px, py) == self.layer_content(px, py, old(target).at(px, py)),
    {
        let o: usize = if self.border.has_border() { 1 } else { 0 };
        if (self.x as u128) + (o as u128) < target.cols as u128 && (self.y as u128) + (o as u128) < target.rows as u128 {
            target.overlay(&self.content, self.x + o, self.y + o);
        }
    }

    /// Draws the window onto `target`: border, close button, title and resize handle
    /// when bordered, then the content; an inverting window instead swaps the colours
    /// of the cells beneath it. Cells outside `target` are skipped.
    pub fn render_to(&self, target: &mut Grid)
        requires
            self.wf(),
            old(target).wf(),
        ensures
            final(target).wf(),
            final(target).cols == old(target).cols,
            final(target).rows == old(target).rows,
            forall|px: int, py: int| final(target).in_bounds(px, py) ==> #[trigger] final(target).at(px, py) == self.paint(px, py, old(target).at(px, py)),
    {
        reveal(Window::paint);
        if !self.visible {
            return;
        }
        if self.invert {
            target.invert_rect(self.x, self.y, self.width, self.height);
            return;
        }
        self.draw_border(target);
        self.draw_close(target);
        self.draw_title(target);
        self.draw_handle(target);
        self.draw_content(target);
    }

    pub open spec fn spec_hit_close(&self, x: int, y: int) -> bool {
        self.closable && self.visible && self.bordered() && y == self.y && (x == self.x + 1 || x == self.x + 2)
    }

    pub open spec fn spec_hit_title(&self, x: int, y: int) -> bool {
        self.draggable && self.visible && self.bordered() && y == self.y
        && x >= self.x + (if self.closable { 3int } else { 1int }) && x < self.x + self.width - 1
    }

    pub open spec fn spec_hit_handle(&self, x: int, y: int) -> bool {
        self.resizable && self.visible && self.bordered() && x == self.x + self.width - 1 && y == self.y + self.height - 1
    }

    pub open spec fn spec_contains(&self, x: int, y: int) -> bool {
        self.visible && self.in_rect(x, y)
    }

    /// Whether `(x, y)` is on the close button.
    pub fn hit_close_button(&self, x: usize, y: usize) -> (r: bool)
        ensures
            r == self.spec_hit_close(x as int, y as int),
    {
        if !self.closable || !self.visible || !self.border.has_border() {
            return false;
        }
        y == self.y && x > self.x && (x - self.x == 1 || x - self.x == 2)
    }

    /// Whether `(x, y)` is on the draggable part of the title bar (the close button excluded).
    pub fn hit_title_bar(&self, x: usize, y: usize) -> (r: bool)
        ensures
            r == self.spec_hit_title(x as int, y as int),
    {
        if !self.draggable || !self.visible || !self.border.has_border() {
            return false;
        }
        let start: usize = if self.closable { 3 } else { 1 };
        y == self.y && x >= self.x && x - self.x >= start && (x - self.x) as u128 + 1 < self.width as u128
    }

    /// Whether `(x, y)` is on the resize handle.
    pub fn hit_resize_handle(&self, x: usize, y: usize) -> (r: bool)
        ensures
            r == self.spec_hit_handle(x as int, y as int),
    {
        if !self.resizable || !self.visible || !self.border.has_border() {
            return false;
        }
        x as u128 + 1 == self.x as u128 + self.width as u128 && y as u128 + 1 == self.y as u128 + self.height as u128
    }

    /// Whether `(x, y)` lies in the visible window, border included.
    pub fn contains(&self, x: usize, y: usize) -> (r: bool)
        ensures
            r == self.spec_contains(x as int, y as int),
    {
        self.visible && x >= self.x && x - self.x < self.width && y >= self.y && y - self.y < self.height
    }

    pub fn show(&mut self)
        ensures
            *final(self) == (Window { visible: true, dirty: true, ..*old(self) }),
    {
        self.visible = true;
        self.dirty = true;
    }

    pub fn hide_window(&mut self)
        ensures
            *final(self) == (Window { visible: false, dirty: true, ..*old(self) }),
    {
        self.visible = false;
        self.dirty = true;
    }
}

/// Draws `[`, then `text` in bold bright white, then `]`, with the text starting at
/// column `tx`; columns at or past `limit` are left alone.
fn draw_bracketed(target: &mut Grid, tx: u128, y: usize, text: &Vec<char>, fg: Color, bg: Color, limit: u128)
    requires
        old(target).wf(),
        tx >= 1,
        tx + text@.len() < u128::MAX,
    ensures
        final(target).wf(),
        final(target).cols == old(target).cols,
        final(target).rows == old(target).rows,
        forall|px: int, py: int| final(target).in_bounds(px, py) ==> #[trigger] final(target).at(px, py) == if py == y && px < limit {
            if px == tx - 1 {
                cell_after_set(old(target).at(px, py), '[', fg, bg, no_attrs())
            } else if tx <= px < tx + text@.len() {
                cell_after_set(old(target).at(px, py), text@[px - tx], Color::BrightWhite, bg, Attrs { bold: true, ..no_attrs() })
            } else if px == tx + text@.len() {
                cell_after_set(old(target).at(px, py), ']', fg, bg, no_attrs())
            } else {
                old(target).at(px, py)
            }
        } else {
            old(target).at(px, py)
        },
{
    if tx - 1 < limit {
        target.put_wide(tx - 1, y as u128, '[', fg, bg, Attrs::new());
    }
    let k: usize = if limit <= tx { 0 } else if ((limit - tx) as u128) < text.len() as u128 { (limit - tx) as usize } else { text.len() };
    let mut shown: Vec<char> = Vec::new();
    let mut i: usize = 0;
    while i < k
        invariant
            k <= text@.len(),
            i <= k,
            shown@ == text@.take(i as int),
        decreases k - i,
    {
        shown.push(text[i]);
        i += 1;
        assert(shown@ =~= text@.take(i as int));
    }
    if tx < target.cols as u128 {
        target.write_chars(tx as usize, y, &shown, Color::BrightWhite, bg, Attrs::new().bold());
    }
    if tx + (text.len() as u128) < limit {
        target.put_wide(tx + text.len() as u128, y as u128, ']', fg, bg, Attrs::new());
    }
}

/// What the windows of `ws`, drawn in order, make of the cell `c` at `(px, py)`.
pub open spec fn composed(ws: Seq<Window>, px: int, py: int, c: Cell) -> Cell
    decreases ws.len(),
{
    if ws.len() == 0 {
        c
    } else {
        ws.last().paint(px, py, composed(ws.drop_last(), px, py, c))
    }
}

/// Position of the first window of `ws` with id `id`, if any.
pub open spec fn position_of(ws: Seq<Window>, id: Seq<char>) -> Option<int> {
    if exists|i: int| 0 <= i < ws.len() && (#[trigger] ws[i]).id@ == id {
        Some(choose|i: int| 0 <= i < ws.len() && (#[trigger] ws[i]).id@ == id)
    } else {
        None
    }
}

/// Where the stable re-sort by z-index puts a window of z-index `z` that stood at
/// position `i` of `others`: after every window of lower z-index, and after the
/// windows of equal z-index that stood before it.
pub open spec fn stable_slot(others: Seq<Window>, z: i32, i: int, j: int) -> bool {
    &&& 0 <= j <= others.len()
    &&& forall|k: int| 0 <= k < j ==> (#[trigger] others[k]).z_index < z || (others[k].z_index == z && k < i)
    &&& j < others.len() ==> (others[j].z_index > z || (others[j].z_index == z && j >= i))
}

/// The window manager: windows kept in ascending z-order, a background layer and
/// the composited display.
pub struct WindowManager {
    pub cols: usize,
    pub rows: usize,
    /// The windows from back to front.
    pub windows: Vec<Window>,
    /// Direct drawing goes here.
    pub background: Grid,
    /// Background and windows composited.
    pub display: Grid,
}

impl WindowManager {
    /// Window ids are unique and ascend by z-index (ties in insertion order),
    /// every window is well formed, and both layers have the display's size.
    pub open spec fn wf(&self) -> bool {
        &&& self.cols * self.rows <= usize::MAX
        &&& self.background.wf() && self.background.cols == self.cols && self.background.rows == self.rows
        &&& self.display.wf() && self.display.cols == self.cols && self.display.rows == self.rows
        &&& windows_wf(self.windows@)
    }

    pub open spec fn ids(&self) -> Seq<Seq<char>> {
        self.windows@.map_values(|w: Window| w.id@)
    }

    pub open spec fn index_of(&self, id: Seq<char>) -> Option<int> {
        position_of(self.windows@, id)
    }

    /// A display of `cols` x `rows` with no windows and blank layers.
    pub fn new(cols: usize, rows: usize) -> (r: WindowManager)
        requires
            cols * rows <= usize::MAX,
        ensures
            r.wf(),
            r.cols == cols && r.rows == rows,
            r.windows@.len() == 0,
            r.background.all_blank(),
            r.display.all_blank(),
    {
        WindowManager { cols, rows, windows: Vec::new(), background: Grid::new(cols, rows), display: Grid::new(cols, rows) }
    }

    /// Creates window `id` at `(x, y)` of size `width` x `height`, placed in the
    /// z-order after every window of z-index 0 or below; if `id` exists, moves it
    /// instead and resizes it only when the size changed (content kept otherwise).
    /// Returns the window's index in the z-order.
    pub fn create_window(&mut self, id: &str, x: usize, y: usize, width: usize, height: usize) -> (r: usize)
        requires
            old(self).wf(),
            width * height <= usize::MAX,
        ensures
            final(self).wf(),
            final(self).cols == old(self).cols && final(self).rows == old(self).rows,
            final(self).background == old(self).background && final(self).display == old(self).display,
            r < final(self).windows@.len(),
            final(self).windows@[r as int].id@ == id@,
            final(self).windows@[r as int].x == x && final(self).windows@[r as int].y == y,
            final(self).windows@[r as int].width == width && final(self).windows@[r as int].height == height,
            final(self).windows@[r as int].dirty,
            old(self).index_of(id@) is Some ==> ({
                let w = old(self).windows@[r as int];
                &&& r == old(self).index_of(id@)->0
                &&& w.width == width && w.height == height ==> final(self).windows@ == old(self).windows@.update(r as int, Window { x, y, dirty: true, ..w })
                &&& !(w.width == width && w.height == height) ==> final(self).windows@[r as int].content.all_blank()
                    && final(self).windows@ == old(self).windows@.update(r as int,
                        Window { x, y, width, height, dirty: true, content: final(self).windows@[r as int].content, ..w })
            }),
            old(self).index_of(id@) is None ==> ({
                let w = final(self).windows@[r as int];
                &&& final(self).windows@ == old(self).windows@.insert(r as int, w)
                &&& w.border == BorderStyle::Single && w.border_color == Color::White && w.title is None
                &&& w.title_align == TitleAlign::Center && w.background == Color::Black && w.z_index == 0
                &&& w.visible && w.closable && w.resizable && w.draggable && !w.invert
                &&& w.min_width == 10 && w.min_height == 5 && w.content.all_blank()
                &&& forall|k: int| 0 <= k < r ==> (#[trigger] old(self).windows@[k]).z_index <= 0
                &&& forall|k: int| r <= k < old(self).windows@.len() ==> (#[trigger] old(self).windows@[k]).z_index > 0
            }),
    {
        proof {
            lemma_dims_fit(width as int, height as int);
        }
        if let Some(i) = self.find(id) {
            let same = self.windows[i].width == width && self.windows[i].height == height;
            self.windows[i].x = x;
            self.windows[i].y = y;
            if !same {
                self.windows[i].resize(width, height);
            }
            self.windows[i].dirty = true;
            proof {
                lemma_update_wf(old(self).windows@, i as int, self.windows@[i as int]);
                assert(self.windows@ =~= old(self).windows@.update(i as int, self.windows@[i as int]));
            }
            i
        } else {
            let w = Window::new(id, x, y, width, height);
            let mut j: usize = 0;
            while j < self.windows.len() && self.windows[j].z_index <= 0
                invariant
                    self.windows@ == old(self).windows@,
                    j <= self.windows@.len(),
                    forall|k: int| 0 <= k < j ==> (#[trigger] self.windows@[k]).z_index <= 0,
                decreases self.windows@.len() - j,
            {
                j += 1;
            }
            proof {
                let ws = old(self).windows@;
                assert forall|k: int| j <= k < ws.len() implies (#[trigger] ws[k]).z_index > 0 by {
                    if k > j {
                        assert(ws[j as int].z_index <= ws[k].z_index);
                    }
                }
                assert(stable_slot(ws, 0, ws.len() as int, j as int));
                assert forall|k: int| 0 <= k < ws.len() implies (#[trigger] ws[k]).id@ != w.id@ by {}
                lemma_insert_wf(ws, w, ws.len() as int, j as int);
            }
            self.windows.insert(j, w);
            j
        }
    }

    /// Index of the window with id `id`.
    pub fn find(&self, id: &str) -> (r: Option<usize>)
        requires
            windows_wf(self.windows@),
        ensures
            r is Some <==> self.index_of(id@) is Some,
            r is Some ==> r->0 == self.index_of(id@)->0 && r->0 < self.windows@.len() && self.windows@[r->0 as int].id@ == id@,
    {
        let key = id.to_owned();
        let mut i: usize = 0;
        while i < self.windows.len()
            invariant
                i <= self.windows@.len(),
                windows_wf(self.windows@),
                key@ == id@,
                forall|k: int| 0 <= k < i ==> (#[trigger] self.windows@[k]).id@ != id@,
            decreases self.windows@.len() - i,
        {
            if self.windows[i].id == key {
                proof {
                    lemma_unique_position(self.windows@, i as int);
                }
                return Some(i);
            }
            i += 1;
        }
        None
    }

    /// The window with id `id`.
    pub fn get(&self, id: &str) -> (r: Option<&Window>)
        requires
            windows_wf(self.windows@),
        ensures
            r is Some <==> self.index_of(id@) is Some,
            r is Some ==> *r->0 == self.windows@[self.index_of(id@)->0],
    {
        match self.find(id) {
            Some(i) => Some(&self.windows[i]),
            None => None,
        }
    }

    /// The window with id `id`, to change in place.
    pub fn get_mut(&mut self, id: &str) -> (r: Option<&mut Window>)
        requires
            windows_wf(old(self).windows@),
        ensures
            r is Some <==> old(self).index_of(id@) is Some,
            r is None ==> *final(self) == *old(self),
            r is Some ==> *r->0 == old(self).windows@[old(self).index_of(id@)->0]
                && final(self).windows@ == old(self).windows@.update(old(self).index_of(id@)->0, *final(r->0))
                && final(self).cols == old(self).cols && final(self).rows == old(self).rows
                && final(self).background == old(self).background && final(self).display == old(self).display,
    {
        match self.find(id) {
            Some(i) => Some(&mut self.windows[i]),
            None => None,
        }
    }

    /// Removes the window with id `id`, if there is one.
    pub fn remove(&mut self, id: &str)
        requires
            old(self).wf(),
        ensures
            final(self).wf(),
            old(self).index_of(id@) is None ==> *final(self) == *old(self),
            old(self).index_of(id@) is Some ==> final(self).windows@ == old(self).windows@.remove(old(self).index_of(id@)->0),
            final(self).cols == old(self).cols && final(self).rows == old(self).rows,
            final(self).background == old(self).background && final(self).display == old(self).display,
    {
        if let Some(i) = self.find(id) {
            self.windows.remove(i);
            proof {
                lemma_remove_wf(old(self).windows@, i as int);
            }
        }
    }

    /// Removes every window.
    pub fn clear_all_windows(&mut self)
        requires
            old(self).wf(),
        ensures
            final(self).wf(),
            final(self).windows@.len() == 0,
            final(self).cols == old(self).cols && final(self).rows == old(self).rows,
            final(self).background == old(self).background && final(self).display == old(self).display,
    {
        self.windows.clear();
    }

    /// Moves the window at `i` to z-index `z` and to the place that a stable
    /// sort by z-index gives it.
    fn reposition(&mut self, i: usize, z: i32)
        requires
            old(self).wf(),
            i < old(self).windows@.len(),
        ensures
            final(self).wf(),
            final(self).cols == old(self).cols && final(self).rows == old(self).rows,
            final(self).background == old(self).background && final(self).display == old(self).display,
            exists|j: int| stable_slot(old(self).windows@.remove(i as int), z, i as int, j)
                && #[trigger] final(self).windows@ == old(self).windows@.remove(i as int).insert(j, Window { z_index: z, ..old(self).windows@[i as int] }),
    {
        let mut w = self.windows.remove(i);
        w.z_index = z;
        let ghost others = self.windows@;
        let mut j: usize = 0;
        while j < self.windows.len() && (self.windows[j].z_index < z || (self.windows[j].z_index == z && j < i))
            invariant
                self.windows@ == others,
                others == old(self).windows@.remove(i as int),
                j <= others.len(),
                forall|k: int| 0 <= k < j ==> (#[trigger] others[k]).z_index < z || (others[k].z_index == z && k < i),
            decreases others.len() - j,
        {
            j += 1;
        }
        assert(stable_slot(others, z, i as int, j as int));
        self.windows.insert(j, w);
        proof {
            lemma_remove_wf(old(self).windows@, i as int);
            lemma_insert_wf(others, w, i as int, j as int);
        }
    }

    /// Largest z-index of all windows (0 when there are none).
    fn max_z(&self) -> (r: i32)
        requires
            windows_wf(self.windows@),
        ensures
            self.windows@.len() == 0 ==> r == 0,
            self.windows@.len() > 0 ==> r == self.windows@.last().z_index,
            forall|k: int| 0 <= k < self.windows@.len() ==> (#[trigger] self.windows@[k]).z_index <= r || self.windows@.len() == 0,
    {
        let n = self.windows.len();
        if n == 0 {
            0
        } else {
            self.windows[n - 1].z_index
        }
    }

    /// Smallest z-index of all windows (0 when there are none).
    fn min_z(&self) -> (r: i32)
        requires
            windows_wf(self.windows@),
        ensures
            self.windows@.len() == 0 ==> r == 0,
            self.windows@.len() > 0 ==> r == self.windows@[0].z_index,
    {
        if self.windows.len() == 0 {
            0
        } else {
            self.windows[0].z_index
        }
    }

    /// Gives the window `id` a z-index one above the current maximum.
    pub fn bring_to_front(&mut self, id: &str)
        requires
            old(self).wf(),
        ensures
            final(self).wf(),
            final(self).cols == old(self).cols && final(self).rows == old(self).rows,
            final(self).background == old(self).background && final(self).display == old(self).display,
            old(self).index_of(id@) is None ==> *final(self) == *old(self),
            old(self).index_of(id@) is Some && old(self).windows@.last().z_index < i32::MAX ==> ({
                let i = old(self).index_of(id@)->0;
                final(self).windows@ == old(self).windows@.remove(i).push(
                    Window { z_index: (old(self).windows@.last().z_index + 1) as i32, ..old(self).windows@[i] })
            }),
    {
        let max = self.max_z();
        if let Some(i) = self.find(id) {
            let z = if max < i32::MAX { max + 1 } else { max };
            self.reposition(i, z);
            proof {
                if max < i32::MAX {
                    let others = old(self).windows@.remove(i as int);
                    let j = choose|j: int| stable_slot(others, z, i as int, j)
                        && #[trigger] self.windows@ == others.insert(j, Window { z_index: z, ..old(self).windows@[i as int] });
                    if j < others.len() {
                        assert(others[j] == old(self).windows@[if j < i { j } else { j + 1 }]);
                    }
                    assert(j == others.len());
                    assert(self.windows@ =~= others.push(Window { z_index: z, ..old(self).windows@[i as int] }));
                }
            }
        }
    }

    /// Gives the window `id` a z-index one below the current minimum.
    #[verifier::rlimit(40)]
    pub fn send_to_back(&mut self, id: &str)
        requires
            old(self).wf(),
        ensures
            final(self).wf(),
            final(self).cols == old(self).cols && final(self).rows == old(self).rows,
            final(self).background == old(self).background && final(self).display == old(self).display,
            old(self).index_of(id@) is None ==> *final(self) == *old(self),
            old(self).index_of(id@) is Some && old(self).windows@[0].z_index > i32::MIN ==> ({
                let i = old(self).index_of(id@)->0;
                final(self).windows@ == seq![Window { z_index: (old(self).windows@[0].z_index - 1) as i32, ..old(self).windows@[i] }]
                    + old(self).windows@.remove(i)
            }),
    {
        let min = self.min_z();
        if let Some(i) = self.find(id) {
            let z = if min > i32::MIN { min - 1 } else { min };
            self.reposition(i, z);
            proof {
                if min > i32::MIN {
                    let others = old(self).windows@.remove(i as int);
                    let j = choose|j: int| stable_slot(others, z, i as int, j)
                        && #[trigger] self.windows@ == others.insert(j, Window { z_index: z, ..old(self).windows@[i as int] });
                    lemma_front_slot(old(self).windows@, i as int, z, j);
                    assert(self.windows@ =~= seq![Window { z_index: z, ..old(self).windows@[i as int] }] + others);
                }
            }
        }
    }

    /// Sets the z-index of window `id` and moves it to its place in the z-order.
    pub fn set_z_index(&mut self, id: &str, z: i32)
        requires
            old(self).wf(),
        ensures
            final(self).wf(),
            final(self).cols == old(self).cols && final(self).rows == old(self).rows,
            final(self).background == old(self).background && final(self).display == old(self).display,
            old(self).index_of(id@) is None ==> *final(self) == *old(self),
            old(self).index_of(id@) is Some ==> ({
                let i = old(self).index_of(id@)->0;
                exists|j: int| stable_slot(old(self).windows@.remove(i), z, i, j)
                    && #[trigger] final(self).windows@ == old(self).windows@.remove(i).insert(j, Window { z_index: z, ..old(self).windows@[i] })
            }),
    {
        if let Some(i) = self.find(id) {
            self.reposition(i, z);
        }
    }

    /// Copies the background into the display, then draws every window in z-order.
    pub fn composite(&mut self)
        requires
            old(self).wf(),
        ensures
            final(self).wf(),
            final(self).cols == old(self).cols && final(self).rows == old(self).rows,
            final(self).windows == old(self).windows && final(self).background == old(self).background,
            forall|px: int, py: int| final(self).display.in_bounds(px, py) ==> #[trigger] final(self).display.at(px, py)
                == composed(final(self).windows@, px, py, copied_cell(final(self).background.at(px, py))),
    {
        self.display.copy_from(&self.background);
        let n = self.windows.len();
        let mut i: usize = 0;
        while i < n
            invariant
                self.wf(),
                self.cols == old(self).cols && self.rows == old(self).rows,
                self.windows == old(self).windows && self.background == old(self).background,
                n == self.windows@.len(),
                i <= n,
                forall|px: int, py: int| self.display.in_bounds(px, py) ==> #[trigger] self.display.at(px, py)
                    == composed(self.windows@.take(i as int), px, py, copied_cell(self.background.at(px, py))),
            decreases n - i,
        {
            self.windows[i].render_to(&mut self.display);
            proof {
                assert(self.windows@.take(i + 1).drop_last() =~= self.windows@.take(i as int));
            }
            i += 1;
        }
        assert(self.windows@.take(n as int) =~= self.windows@);
    }

    /// Whether any window is dirty.
    pub fn is_dirty(&self) -> (r: bool)
        ensures
            r == exists|k: int| 0 <= k < self.windows@.len() && (#[trigger] self.windows@[k]).dirty,
    {
        let mut i: usize = 0;
        while i < self.windows.len()
            invariant
                i <= self.windows@.len(),
                forall|k: int| 0 <= k < i ==> !(#[trigger] self.windows@[k]).dirty,
            decreases self.windows@.len() - i,
        {
            if self.windows[i].dirty {
                return true;
            }
            i += 1;
        }
        false
    }

    /// Marks every window clean.
    pub fn mark_all_clean(&mut self)
        requires
            old(self).wf(),
        ensures
            final(self).wf(),
            final(self).cols == old(self).cols && final(self).rows == old(self).rows,
            final(self).background == old(self).background && final(self).display == old(self).display,
            final(self).windows@.len() == old(self).windows@.len(),
            forall|k: int| 0 <= k < final(self).windows@.len() ==> #[trigger] final(self).windows@[k] == (Window { dirty: false, ..old(self).windows@[k] }),
    {
        let n = self.windows.len();
        let mut i: usize = 0;
        while i < n
            invariant
                self.cols == old(self).cols && self.rows == old(self).rows,
                self.background == old(self).background && self.display == old(self).display,
                n == self.windows@.len(),
                n == old(self).windows@.len(),
                i <= n,
                forall|k: int| 0 <= k < i ==> #[trigger] self.windows@[k] == (Window { dirty: false, ..old(self).windows@[k] }),
                forall|k: int| i <= k < n ==> #[trigger] self.windows@[k] == old(self).windows@[k],
            decreases n - i,
        {
            self.windows[i].dirty = false;
            i += 1;
        }
        proof {
            lemma_same_shape_wf(old(self).windows@, self.windows@);
        }
    }

    /// Resizes the display; both layers become blank.
    pub fn resize(&mut self, cols: usize, rows: usize)
        requires
            old(self).wf(),
            cols * rows <= usize::MAX,
        ensures
            final(self).wf(),
            final(self).cols == cols && final(self).rows == rows,
            final(self).windows == old(self).windows,
            final(self).background.all_blank() && final(self).display.all_blank(),
    {
        self.cols = cols;
        self.rows = rows;
        self.background.resize(cols, rows);
        self.display.resize(cols, rows);
    }

    /// Id of the frontmost window that contains `(x, y)`.
    pub fn window_at(&self, x: usize, y: usize) -> (r: Option<&str>)
        ensures
            r is Some <==> exists|k: int| 0 <= k < self.windows@.len() && (#[trigger] self.windows@[k]).spec_contains(x as int, y as int),
            r is Some ==> exists|k: int| 0 <= k < self.windows@.len() && r->0@ == self.windows@[k].id@
                && #[trigger] self.windows@[k].spec_contains(x as int, y as int)
                && forall|m: int| k < m < self.windows@.len() ==> !(#[trigger] self.windows@[m]).spec_contains(x as int, y as int),
    {
        let mut i: usize = self.windows.len();
        while i > 0
            invariant
                i <= self.windows@.len(),
                forall|m: int| i <= m < self.windows@.len() ==> !(#[trigger] self.windows@[m]).spec_contains(x as int, y as int),
            decreases i,
        {
            i -= 1;
            if self.windows[i].contains(x, y) {
                return Some(self.windows[i].id.as_str());
            }
        }
        None
    }

    /// Id of the frontmost window whose close button is at `(x, y)`.
    pub fn hit_close_button(&self, x: usize, y: usize) -> (r: Option<&str>)
        ensures
            r is Some <==> exists|k: int| 0 <= k < self.windows@.len() && (#[trigger] self.windows@[k]).spec_hit_close(x as int, y as int),
            r is Some ==> exists|k: int| 0 <= k < self.windows@.len() && r->0@ == self.windows@[k].id@
                && #[trigger] self.windows@[k].spec_hit_close(x as int, y as int)
                && forall|m: int| k < m < self.windows@.len() ==> !(#[trigger] self.windows@[m]).spec_hit_close(x as int, y as int),
    {
        let mut i: usize = self.windows.len();
        while i > 0
            invariant
                i <= self.windows@.len(),
                forall|m: int| i <= m < self.windows@.len() ==> !(#[trigger] self.windows@[m]).spec_hit_close(x as int, y as int),
            decreases i,
        {
            i -= 1;
            if self.windows[i].hit_close_button(x, y) {
                return Some(self.windows[i].id.as_str());
            }
        }
        None
    }

    /// Id of the frontmost window whose title bar is at `(x, y)`.
    pub fn hit_title_bar(&self, x: usize, y: usize) -> (r: Option<&str>)
        ensures
            r is Some <==> exists|k: int| 0 <= k < self.windows@.len() && (#[trigger] self.windows@[k]).spec_hit_title(x as int, y as int),
            r is Some ==> exists|k: int| 0 <= k < self.windows@.len() && r->0@ == self.windows@[k].id@
                && #[trigger] self.windows@[k].spec_hit_title(x as int, y as int)
                && forall|m: int| k < m < self.windows@.len() ==> !(#[trigger] self.windows@[m]).spec_hit_title(x as int, y as int),
    {
        let mut i: usize = self.windows.len();
        while i > 0
            invariant
                i <= self.windows@.len(),
                forall|m: int| i <= m < self.windows@.len() ==> !(#[trigger] self.windows@[m]).spec_hit_title(x as int, y as int),
            decreases i,
        {
            i -= 1;
            if self.windows[i].hit_title_bar(x, y) {
                return Some(self.windows[i].id.as_str());
            }
        }
        None
    }

    /// Id of the frontmost window whose resize handle is at `(x, y)`.
    pub fn hit_resize_handle(&self, x: usize, y: usize) -> (r: Option<&str>)
        ensures
            r is Some <==> exists|k: int| 0 <= k < self.windows@.len() && (#[trigger] self.windows@[k]).spec_hit_handle(x as int, y as int),
            r is Some ==> exists|k: int| 0 <= k < self.windows@.len() && r->0@ == self.windows@[k].id@
                && #[trigger] self.windows@[k].spec_hit_handle(x as int, y as int)
                && forall|m: int| k < m < self.windows@.len() ==> !(#[trigger] self.windows@[m]).spec_hit_handle(x as int, y as int),
    {
        let mut i: usize = self.windows.len();
        while i > 0
            invariant
                i <= self.windows@.len(),
                forall|m: int| i <= m < self.windows@.len() ==> !(#[trigger] self.windows@[m]).spec_hit_handle(x as int, y as int),
            decreases i,
        {
            i -= 1;
            if self.windows[i].hit_resize_handle(x, y) {
                return Some(self.windows[i].id.as_str());
            }
        }
        None
    }
}

/// Ids unique, z-indices ascending, every window well formed.
pub open spec fn windows_wf(ws: Seq<Window>) -> bool {
    &&& forall|a: int, b: int| 0 <= a < b < ws.len() ==> (#[trigger] ws[a]).id@ != (#[trigger] ws[b]).id@
    &&& forall|a: int, b: int| 0 <= a < b < ws.len() ==> (#[trigger] ws[a]).z_index <= (#[trigger] ws[b]).z_index
    &&& forall|a: int| 0 <= a < ws.len() ==> (#[trigger] ws[a]).wf()
}

pub proof fn lemma_unique_position(ws: Seq<Window>, i: int)
    requires
        windows_wf(ws),
        0 <= i < ws.len(),
    ensures
        position_of(ws, ws[i].id@) == Some(i),
{
    let id = ws[i].id@;
    assert(0 <= i < ws.len() && ws[i].id@ == id);
    let k = choose|k: int| 0 <= k < ws.len() && (#[trigger] ws[k]).id@ == id;
    if k != i {
        if k < i {
            assert(ws[k].id@ != ws[i].id@);
        } else {
            assert(ws[i].id@ != ws[k].id@);
        }
    }
}

proof fn lemma_front_slot(ws: Seq<Window>, i: int, z: i32, j: int)
    requires
        windows_wf(ws),
        0 <= i < ws.len(),
        z < ws[0].z_index,
        stable_slot(ws.remove(i), z, i, j),
    ensures
        j == 0,
{
    let others = ws.remove(i);
    if j > 0 {
        assert(others[0] == ws[if 0 < i { 0 } else { 1 }]);
        assert(others[0].z_index >= ws[0].z_index);
    }
}

pub proof fn lemma_dims_fit(width: int, height: int)
    requires
        0 <= width,
        0 <= height,
        width * height <= usize::MAX,
    ensures
        forall|b: BorderStyle| #[trigger] dims_ok(width, height, b),
{
    assert forall|b: BorderStyle| #[trigger] dims_ok(width, height, b) by {
        let cw = content_w(width, b);
        let ch = content_w(height, b);
        assert(cw * ch <= width * height) by (nonlinear_arith)
            requires
                0 <= cw <= width,
                0 <= ch <= height,
        ;
    }
}

pub proof fn lemma_update_wf(ws: Seq<Window>, i: int, w: Window)
    requires
        windows_wf(ws),
        0 <= i < ws.len(),
        w.wf(),
        w.id == ws[i].id,
        w.z_index == ws[i].z_index,
    ensures
        windows_wf(ws.update(i, w)),
{
    let r = ws.update(i, w);
    assert forall|a: int, b: int| 0 <= a < b < r.len() implies (#[trigger] r[a]).id@ != (#[trigger] r[b]).id@ && r[a].z_index <= r[b].z_index by {
        assert(ws[a].id@ != ws[b].id@);
    }
}

proof fn lemma_remove_wf(ws: Seq<Window>, i: int)
    requires
        windows_wf(ws),
        0 <= i < ws.len(),
    ensures
        windows_wf(ws.remove(i)),
{
    let r = ws.remove(i);
    assert forall|a: int, b: int| 0 <= a < b < r.len() implies (#[trigger] r[a]).id@ != (#[trigger] r[b]).id@ && r[a].z_index <= r[b].z_index by {
        let a2 = if a < i { a } else { a + 1 };
        let b2 = if b < i { b } else { b + 1 };
        assert(r[a] == ws[a2] && r[b] == ws[b2]);
    }
    assert forall|a: int| 0 <= a < r.len() implies (#[trigger] r[a]).wf() by {
        let a2 = if a < i { a } else { a + 1 };
        assert(r[a] == ws[a2]);
    }
}

proof fn lemma_insert_wf(others: Seq<Window>, w: Window, i: int, j: int)
    requires
        windows_wf(others),
        w.wf(),
        forall|k: int| 0 <= k < others.len() ==> (#[trigger] others[k]).id@ != w.id@,
        stable_slot(others, w.z_index, i, j),
    ensures
        windows_wf(others.insert(j, w)),
{
    let r = others.insert(j, w);
    assert forall|a: int, b: int| 0 <= a < b < r.len() implies (#[trigger] r[a]).id@ != (#[trigger] r[b]).id@ && r[a].z_index <= r[b].z_index by {
        if a < j && b < j {
            assert(r[a] == others[a] && r[b] == others[b]);
        } else if a < j && b == j {
            assert(r[a] == others[a]);
        } else if a < j {
            assert(r[a] == others[a] && r[b] == others[b - 1]);
        } else if a == j {
            assert(r[b] == others[b - 1]);
            if j < others.len() {
                assert(others[j].z_index <= others[b - 1].z_index || b - 1 == j);
            }
        } else {
            assert(r[a] == others[a - 1] && r[b] == others[b - 1]);
        }
    }
    assert forall|a: int| 0 <= a < r.len() implies (#[trigger] r[a]).wf() by {
        if a < j {
            assert(r[a] == others[a]);
        } else if a > j {
            assert(r[a] == others[a - 1]);
        }
    }
}

proof fn lemma_same_shape_wf(a: Seq<Window>, b: Seq<Window>)
    requires
        windows_wf(a),
        a.len() == b.len(),
        forall|k: int| 0 <= k < a.len() ==> (#[trigger] b[k]).id == a[k].id && b[k].z_index == a[k].z_index && b[k].wf() == a[k].wf(),
    ensures
        windows_wf(b),
{
    assert forall|x: int, y: int| 0 <= x < y < b.len() implies (#[trigger] b[x]).id@ != (#[trigger] b[y]).id@ && b[x].z_index <= b[y].z_index by {
        assert(a[x].id@ != a[y].id@);
    }
}

/// A bordered window of at least 2 x 2 always has a content grid exactly two
/// columns narrower and two rows shorter than itself.
pub proof fn lemma_bordered_content_size(w: &Window)
    requires
        w.wf(),
        w.bordered(),
        w.width >= 2,
        w.height >= 2,
    ensures
        w.content.cols + 2 == w.width,
        w.content.rows + 2 == w.height,
{
}

/// The z-order lists every window exactly once (ids are unique) and never
/// decreases in z-index from back to front.
pub proof fn lemma_z_order_sorted(wm: &WindowManager)
    requires
        wm.wf(),
    ensures
        forall|a: int, b: int| 0 <= a < b < wm.windows@.len() ==> (#[trigger] wm.windows@[a]).id@ != (#[trigger] wm.windows@[b]).id@,
        forall|a: int, b: int| 0 <= a <= b < wm.windows@.len() ==> (#[trigger] wm.windows@[a]).z_index <= (#[trigger] wm.windows@[b]).z_index,
{
}

/// A window covers a position when it is visible and the position lies in its rectangle.
pub open spec fn covers(w: Window, px: int, py: int) -> bool {
    w.visible && w.in_rect(px, py)
}

/// After compositing, a display cell that no window covers shows the background
/// cell.
pub proof fn lemma_composite_uncovered(ws: Seq<Window>, px: int, py: int, c: Cell)
    requires
        forall|k: int| 0 <= k < ws.len() ==> !covers(#[trigger] ws[k], px, py),
        forall|k: int| 0 <= k < ws.len() ==> (#[trigger] ws[k]).wf(),
    ensures
        composed(ws, px, py, c) == c,
    decreases ws.len(),
{
    if ws.len() > 0 {
        assert(!covers(ws[ws.len() - 1], px, py));
        assert(ws[ws.len() - 1].wf());
        lemma_paint_outside(ws[ws.len() - 1], px, py, composed(ws.drop_last(), px, py, c));
        lemma_composite_uncovered(ws.drop_last(), px, py, c);
    }
}

/// After compositing, a display cell whose topmost covering window is an ordinary
/// bordered (at least 2 x 2) or borderless window shows what that window draws
/// there, whatever lies beneath: content, border or chrome.
pub proof fn lemma_composite_topmost(ws: Seq<Window>, k: int, px: int, py: int, c1: Cell, c2: Cell)
    requires
        0 <= k < ws.len(),
        ws[k].wf(),
        covers(ws[k], px, py),
        !ws[k].invert,
        ws[k].bordered() ==> ws[k].width >= 2 && ws[k].height >= 2,
        forall|m: int| k < m < ws.len() ==> !covers(#[trigger] ws[m], px, py),
        forall|m: int| k < m < ws.len() ==> (#[trigger] ws[m]).wf(),
    ensures
        same_look(composed(ws, px, py, c1), composed(ws, px, py, c2)),
        same_look(composed(ws, px, py, c1), ws[k].paint(px, py, c1)),
    decreases ws.len(),
{
    if k == ws.len() - 1 {
        lemma_paint_covers(ws[k], px, py, composed(ws.drop_last(), px, py, c1), composed(ws.drop_last(), px, py, c2));
        lemma_paint_covers(ws[k], px, py, composed(ws.drop_last(), px, py, c1), c1);
    } else {
        let n = ws.len() - 1;
        assert(!covers(ws[n], px, py));
        assert(ws[n].wf());
        lemma_paint_outside(ws[n], px, py, composed(ws.drop_last(), px, py, c1));
        lemma_paint_outside(ws[n], px, py, composed(ws.drop_last(), px, py, c2));
        assert(ws.drop_last()[k] == ws[k]);
        assert forall|m: int| k < m < ws.drop_last().len() implies !covers(#[trigger] ws.drop_last()[m], px, py)
            && ws.drop_last()[m].wf() by {
            assert(ws.drop_last()[m] == ws[m]);
        }
        lemma_composite_topmost(ws.drop_last(), k, px, py, c1, c2);
    }
}

/// An inverting window on top swaps the foreground and background colours of what
/// was composited beneath it.
pub proof fn lemma_composite_invert_on_top(ws: Seq<Window>, px: int, py: int, c: Cell)
    requires
        ws.len() > 0,
        ws.last().invert,
        covers(ws.last(), px, py),
    ensures
        ({
            let below = composed(ws.drop_last(), px, py, c);
            same_look(composed(ws, px, py, c), Cell { fg: below.bg, bg: below.fg, ..below })
        }),
{
    reveal(Window::paint);
}

proof fn lemma_paint_outside(w: Window, px: int, py: int, c: Cell)
    requires
        w.wf(),
        !covers(w, px, py),
    ensures
        w.paint(px, py, c) == c,
{
    reveal(Window::paint);
    if w.visible && !w.invert {
        let o = w.offset();
        assert(!w.content.in_bounds(px - w.x - o, py - w.y - o));
    }
}

proof fn lemma_paint_covers(w: Window, px: int, py: int, c1: Cell, c2: Cell)
    requires
        w.wf(),
        covers(w, px, py),
        !w.invert,
        w.bordered() ==> w.width >= 2 && w.height >= 2,
    ensures
        same_look(w.paint(px, py, c1), w.paint(px, py, c2)),
{
    reveal(Window::paint);
    let o = w.offset();
    let cx = px - w.x - o;
    let cy = py - w.y - o;
    if w.content.in_bounds(cx, cy) {
    } else if w.bordered() {
        assert(px == w.x || px == w.x + w.width - 1 || py == w.y || py == w.y + w.height - 1);
    }
}

} // verus!
