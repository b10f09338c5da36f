//! The display buffer: a fixed-size grid of cells in row-major order.
//! Accesses outside the grid are silently ignored.
use vstd::prelude::*;
use crate::text::chars_of;
use crate::cell::{blank_cell, cell_after_set, fresh_cell, no_attrs, Attrs, Cell, Color};

verus! {

/// Box-drawing characters of one border style.
#[derive(Debug, Clone, Copy, PartialEq, Eq, Structural)]
pub struct BoxChars {
    pub tl: char,
    pub tr: char,
    pub bl: char,
    pub br: char,
    pub h: char,
    pub v: char,
    pub lt: char,
    pub rt: char,
    pub tt: char,
    pub bt: char,
    pub cross: char,
}

impl BoxChars {
    pub fn single() -> (r: BoxChars)
        ensures
            r == spec_single(),
    {
        BoxChars {
            tl: '┌', tr: '┐', bl: '└', br: '┘', h: '─', v: '│',
            lt: '├', rt: '┤', tt: '┬', bt: '┴', cross: '┼',
        }
    }

    pub fn double() -> (r: BoxChars)
        ensures
            r == spec_double(),
    {
        BoxChars {
            tl: '╔', tr: '╗', bl: '╚', br: '╝', h: '═', v: '║',
            lt: '╠', rt: '╣', tt: '╦', bt: '╩', cross: '╬',
        }
    }

    pub fn rounded() -> (r: BoxChars)
        ensures
            r == spec_rounded(),
    {
        BoxChars {
            tl: '╭', tr: '╮', bl: '╰', br: '╯', h: '─', v: '│',
            lt: '├', rt: '┤', tt: '┬', bt: '┴', cross: '┼',
        }
    }

    pub fn heavy() -> (r: BoxChars)
        ensures
            r == spec_heavy(),
    {
        BoxChars {
            tl: '┏', tr: '┓', bl: '┗', br: '┛', h: '━', v: '┃',
            lt: '┣', rt: '┫', tt: '┳', bt: '┻', cross: '╋',
        }
    }

    pub fn ascii() -> (r: BoxChars)
        ensures
            r == spec_ascii(),
    {
        BoxChars {
            tl: '+', tr: '+', bl: '+', br: '+', h: '-', v: '|',
            lt: '+', rt: '+', tt: '+', bt: '+', cross: '+',
        }
    }
}

pub open spec fn spec_single() -> BoxChars {
    BoxChars {
        tl: '┌', tr: '┐', bl: '└', br: '┘', h: '─', v: '│',
        lt: '├', rt: '┤', tt: '┬', bt: '┴', cross: '┼',
    }
}

pub open spec fn spec_double() -> BoxChars {
    BoxChars {
        tl: '╔', tr: '╗', bl: '╚', br: '╝', h: '═', v: '║',
        lt: '╠', rt: '╣', tt: '╦', bt: '╩', cross: '╬',
    }
}

pub open spec fn spec_rounded() -> BoxChars {
    BoxChars {
        tl: '╭', tr: '╮', bl: '╰', br: '╯', h: '─', v: '│',
        lt: '├', rt: '┤', tt: '┬', bt: '┴', cross: '┼',
    }
}

pub open spec fn spec_heavy() -> BoxChars {
    BoxChars {
        tl: '┏', tr: '┓', bl: '┗', br: '┛', h: '━', v: '┃',
        lt: '┣', rt: '┫', tt: '┳', bt: '┻', cross: '╋',
    }
}

pub open spec fn spec_ascii() -> BoxChars {
    BoxChars {
        tl: '+', tr: '+', bl: '+', br: '+', h: '-', v: '|',
        lt: '+', rt: '+', tt: '+', bt: '+', cross: '+',
    }
}

/// The glyph that a box at `(x, y)` of size `w` x `h` draws at `(px, py)`, if any.
pub open spec fn box_glyph(s: BoxChars, x: int, y: int, w: int, h: int, px: int, py: int) -> Option<char> {
    let r = x + w - 1;
    let b = y + h - 1;
    if px == x && py == y {
        Some(s.tl)
    } else if px == r && py == y {
        Some(s.tr)
    } else if px == x && py == b {
        Some(s.bl)
    } else if px == r && py == b {
        Some(s.br)
    } else if (py == y || py == b) && x < px < r {
        Some(s.h)
    } else if (px == x || px == r) && y < py < b {
        Some(s.v)
    } else {
        None
    }
}

/// A cell that shows what `src` shows, marked dirty.
pub open spec fn copied_cell(src: Cell) -> Cell {
    Cell { dirty: true, ..src }
}

/// A grid position described by the row-major scan as already visited.
pub open spec fn scanned(px: int, py: int, cx: int, cy: int) -> bool {
    py < cy || (py == cy && px < cx)
}

pub proof fn lemma_idx_bounds(cols: int, rows: int, x: int, y: int)
    requires
        0 <= x < cols,
        0 <= y < rows,
    ensures
        0 <= y * cols + x < cols * rows,
{
    assert(0 <= y * cols + x < cols * rows) by (nonlinear_arith)
        requires
            0 <= x < cols,
            0 <= y < rows,
    ;
}

pub proof fn lemma_idx_distinct(cols: int, x1: int, y1: int, x2: int, y2: int)
    requires
        0 <= x1 < cols,
        0 <= x2 < cols,
        0 <= y1,
        0 <= y2,
        x1 != x2 || y1 != y2,
    ensures
        y1 * cols + x1 != y2 * cols + x2,
{
    if y1 < y2 {
        assert(y1 * cols + x1 < y2 * cols + x2) by (nonlinear_arith)
            requires
                y1 < y2,
                0 <= x1 < cols,
                0 <= x2 < cols,
        ;
    } else if y2 < y1 {
        assert(y2 * cols + x2 < y1 * cols + x1) by (nonlinear_arith)
            requires
                y2 < y1,
                0 <= x1 < cols,
                0 <= x2 < cols,
        ;
    }
}

/// The display grid: `cols` x `rows` cells.
pub struct Grid {
    pub cols: usize,
    pub rows: usize,
    /// The cells, row by row.
    pub cells: Vec<Cell>,
}

impl View for Grid {
    type V = Seq<Cell>;

    open spec fn view(&self) -> Seq<Cell> {
        self.cells@
    }
}

impl Grid {
    /// The cell buffer holds exactly `cols * rows` cells.
    pub open spec fn wf(&self) -> bool {
        self@.len() == self.cols * self.rows
    }

    pub open spec fn in_bounds(&self, x: int, y: int) -> bool {
        0 <= x < self.cols && 0 <= y < self.rows
    }

    /// The cell at column `x`, row `y`.
    pub open spec fn at(&self, x: int, y: int) -> Cell {
        self@[y * self.cols + x]
    }

    /// A grid whose every cell is the default cell.
    pub open spec fn all_blank(&self) -> bool {
        forall|px: int, py: int| self.in_bounds(px, py) ==> #[trigger] self.at(px, py) == blank_cell()
    }

    /// No cell of the grid is dirty.
    pub open spec fn all_clean(&self) -> bool {
        forall|i: int| 0 <= i < self@.len() ==> !(#[trigger] self@[i]).dirty
    }

    /// Every cell, with its column and row, in row-major order.
    pub open spec fn entries(&self) -> Seq<(usize, usize, Cell)> {
        Seq::new(self@.len(), |i: int| ((i % (self.cols as int)) as usize, (i / (self.cols as int)) as usize, self@[i]))
    }

    /// The dirty cells, with their positions, in row-major order.
    pub open spec fn dirty_entries(&self) -> Seq<(usize, usize, Cell)> {
        self.entries().filter(|e: (usize, usize, Cell)| e.2.dirty)
    }

    proof fn lemma_at(&self, x: int, y: int)
        requires
            self.wf(),
            self.in_bounds(x, y),
        ensures
            0 <= y * self.cols + x < self@.len(),
    {
        lemma_idx_bounds(self.cols as int, self.rows as int, x, y);
    }

    fn blank_cells(n: usize) -> (r: Vec<Cell>)
        ensures
            r@.len() == n,
            forall|i: int| 0 <= i < n ==> #[trigger] r@[i] == blank_cell(),
    {
        let mut v: Vec<Cell> = Vec::new();
        let mut i: usize = 0;
        while i < n
            invariant
                i <= n,
                v@.len() == i,
                forall|j: int| 0 <= j < i ==> #[trigger] v@[j] == blank_cell(),
            decreases n - i,
        {
            v.push(Cell::default());
            i += 1;
        }
        v
    }

    /// A grid of default cells.
    pub fn new(cols: usize, rows: usize) -> (r: Grid)
        requires
            cols * rows <= usize::MAX,
        ensures
            r.wf(),
            r.cols == cols,
            r.rows == rows,
            r.all_blank(),
    {
        let cells = Grid::blank_cells(cols * rows);
        let r = Grid { cols, rows, cells };
        assert forall|px: int, py: int| r.in_bounds(px, py) implies #[trigger] r.at(px, py) == blank_cell() by {
            r.lemma_at(px, py);
        }
        r
    }

    fn index(&self, x: usize, y: usize) -> (r: Option<usize>)
        requires
            self.wf(),
        ensures
            r is Some <==> self.in_bounds(x as int, y as int),
            r is Some ==> r->0 == y * self.cols + x && r->0 < self@.len(),
    {
        let n = self.cells.len();
        if x < self.cols && y < self.rows {
            proof {
                self.lemma_at(x as int, y as int);
            }
            Some(y * self.cols + x)
        } else {
            None
        }
    }

    /// The cell at `(x, y)`, if inside the grid.
    pub fn get(&self, x: usize, y: usize) -> (r: Option<&Cell>)
        requires
            self.wf(),
        ensures
            r is Some <==> self.in_bounds(x as int, y as int),
            r is Some ==> *r->0 == self.at(x as int, y as int),
    {
        match self.index(x, y) {
            Some(i) => Some(&self.cells[i]),
            None => None,
        }
    }

    /// The cell at `(x, y)` to change in place, if inside the grid.
    pub fn get_mut(&mut self, x: usize, y: usize) -> (r: Option<&mut Cell>)
        requires
            old(self).wf(),
        ensures
            r is Some <==> old(self).in_bounds(x as int, y as int),
            r is None ==> *final(self) == *old(self),
            r is Some ==> *r->0 == old(self).at(x as int, y as int)
                && final(self).cols == old(self).cols && final(self).rows == old(self).rows
                && final(self)@ == old(self)@.update(y * old(self).cols + x, *final(r->0)),
    {
        match self.index(x, y) {
            Some(i) => Some(&mut self.cells[i]),
            None => None,
        }
    }

    /// Sets every property of the cell at `(x, y)`; nothing happens outside the grid.
    pub fn set(&mut self, x: usize, y: usize, char: char, fg: Color, bg: Color, attrs: Attrs)
        requires
            old(self).wf(),
        ensures
            final(self).wf(),
            final(self).cols == old(self).cols,
            final(self).rows == old(self).rows,
            forall|px: int, py: int| final(self).in_bounds(px, py) ==> #[trigger] final(self).at(px, py) == if px == x && py == y {
                cell_after_set(old(self).at(px, py), char, fg, bg, attrs)
            } else {
                old(self).at(px, py)
            },
    {
        if let Some(i) = self.index(x, y) {
            let mut c = self.cells[i];
            c.set(char, fg, bg, attrs);
            self.cells.set(i, c);
            proof {
                assert forall|px: int, py: int| #![auto] self.in_bounds(px, py) && !(px == x && py == y) implies self.at(px, py) == old(self).at(px, py) by {
                    lemma_idx_distinct(self.cols as int, px, py, x as int, y as int);
                    self.lemma_at(px, py);
                }
            }
        }
    }

    /// Sets the character of the cell at `(x, y)`; nothing happens outside the grid.
    pub fn set_char(&mut self, x: usize, y: usize, char: char)
        requires
            old(self).wf(),
        ensures
            final(self).wf(),
            final(self).cols == old(self).cols,
            final(self).rows == old(self).rows,
            forall|px: int, py: int| final(self).in_bounds(px, py) ==> #[trigger] final(self).at(px, py) == if px == x && py == y {
                let c = old(self).at(px, py);
                Cell { char, dirty: c.dirty || c.char != char, ..c }
            } else {
                old(self).at(px, py)
            },
    {
        if let Some(i) = self.index(x, y) {
            let mut c = self.cells[i];
            c.set_char(char);
            self.cells.set(i, c);
            proof {
                assert forall|px: int, py: int| #![auto] self.in_bounds(px, py) && !(px == x && py == y) implies self.at(px, py) == old(self).at(px, py) by {
                    lemma_idx_distinct(self.cols as int, px, py, x as int, y as int);
                    self.lemma_at(px, py);
                }
            }
        }
    }

    /// Resets every cell to the default cell.
    pub fn clear(&mut self)
        requires
            old(self).wf(),
        ensures
            final(self).wf(),
            final(self).cols == old(self).cols,
            final(self).rows == old(self).rows,
            final(self).all_blank(),
    {
        self.clear_with(' ', Color::White, Color::Black);
    }

    /// Fills every cell with `char` in the given colours, no attributes, dirty.
    pub fn clear_with(&mut self, char: char, fg: Color, bg: Color)
        requires
            old(self).wf(),
        ensures
            final(self).wf(),
            final(self).cols == old(self).cols,
            final(self).rows == old(self).rows,
            forall|px: int, py: int| final(self).in_bounds(px, py) ==> #[trigger] final(self).at(px, py) == fresh_cell(char, fg, bg, no_attrs()),
    {
        let n = self.cells.len();
        let mut i: usize = 0;
        while i < n
            invariant
                n == self@.len(),
                self.cols == old(self).cols,
                self.rows == old(self).rows,
                self.wf(),
                i <= n,
                forall|j: int| 0 <= j < i ==> #[trigger] self@[j] == fresh_cell(char, fg, bg, no_attrs()),
            decreases n - i,
        {
            self.cells.set(i, Cell::full(char, fg, bg, Attrs::new()));
            i += 1;
        }
        proof {
            assert forall|px: int, py: int| #![auto] self.in_bounds(px, py) implies self.at(px, py) == fresh_cell(char, fg, bg, no_attrs()) by {
                self.lemma_at(px, py);
            }
        }
    }

    /// Copies every cell of `other` (as dirty cells) when the sizes match; otherwise does nothing.
    pub fn copy_from(&mut self, other: &Grid)
        requires
            old(self).wf(),
            other.wf(),
        ensures
            final(self).wf(),
            final(self).cols == old(self).cols,
            final(self).rows == old(self).rows,
            old(self).cols == other.cols && old(self).rows == other.rows ==>
                forall|px: int, py: int| final(self).in_bounds(px, py) ==> #[trigger] final(self).at(px, py) == copied_cell(other.at(px, py)),
            !(old(self).cols == other.cols && old(self).rows == other.rows) ==> final(self)@ == old(self)@,
    {
        if self.cols == other.cols && self.rows == other.rows {
            let n = self.cells.len();
            let mut i: usize = 0;
            while i < n
                invariant
                    n == self@.len(),
                    n == other@.len(),
                    self.cols == old(self).cols,
                    self.rows == old(self).rows,
                    self.wf(),
                    i <= n,
                    forall|j: int| 0 <= j < i ==> #[trigger] self@[j] == copied_cell(other@[j]),
                decreases n - i,
            {
                let c = other.cells[i];
                self.cells.set(i, Cell { dirty: true, ..c });
                i += 1;
            }
            proof {
                assert forall|px: int, py: int| #![auto] self.in_bounds(px, py) implies self.at(px, py) == copied_cell(other.at(px, py)) by {
                    self.lemma_at(px, py);
                }
            }
        }
    }

    /// Writes `chars` rightwards from `(x, y)`, stopping at the right edge (no wrapping).
    pub fn write_chars(&mut self, x: usize, y: usize, chars: &Vec<char>, fg: Color, bg: Color, attrs: Attrs)
        requires
            old(self).wf(),
        ensures
            final(self).wf(),
            final(self).cols == old(self).cols,
            final(self).rows == old(self).rows,
            forall|px: int, py: int| final(self).in_bounds(px, py) ==> #[trigger] final(self).at(px, py) == if py == y && x <= px < x + chars@.len() {
                cell_after_set(old(self).at(px, py), chars@[px - x], fg, bg, attrs)
            } else {
                old(self).at(px, py)
            },
    {
        let n = chars.len();
        let mut i: usize = 0;
        while i < n && x < self.cols && i < self.cols - x
            invariant
                self.wf(),
                self.cols == old(self).cols,
                self.rows == old(self).rows,
                n == chars@.len(),
                i <= n,
                forall|qx: int, qy: int| self.in_bounds(qx, qy) ==> #[trigger] self.at(qx, qy) == if qy == y && x <= qx < x + i {
                    cell_after_set(old(self).at(qx, qy), chars@[qx - x], fg, bg, attrs)
                } else {
                    old(self).at(qx, qy)
                },
            decreases n - i,
        {
            self.set(x + i, y, chars[i], fg, bg, attrs);
            i += 1;
        }
    }

    /// Writes the characters of `s` rightwards from `(x, y)`, stopping at the right edge.
    pub fn write_str(&mut self, x: usize, y: usize, s: &str, fg: Color, bg: Color, attrs: Attrs)
        requires
            old(self).wf(),
        ensures
            final(self).wf(),
            final(self).cols == old(self).cols,
            final(self).rows == old(self).rows,
            forall|px: int, py: int| final(self).in_bounds(px, py) ==> #[trigger] final(self).at(px, py) == if py == y && x <= px < x + s@.len() {
                cell_after_set(old(self).at(px, py), s@[px - x], fg, bg, attrs)
            } else {
                old(self).at(px, py)
            },
    {
        let chars = chars_of(s);
        self.write_chars(x, y, &chars, fg, bg, attrs);
    }

    /// `set` at a position given in wide coordinates; positions outside the grid are ignored.
    pub fn put_wide(&mut self, x: u128, y: u128, char: char, fg: Color, bg: Color, attrs: Attrs)
        requires
            old(self).wf(),
        ensures
            final(self).wf(),
            final(self).cols == old(self).cols,
            final(self).rows == old(self).rows,
            forall|px: int, py: int| final(self).in_bounds(px, py) ==> #[trigger] final(self).at(px, py) == if px == x && py == y {
                cell_after_set(old(self).at(px, py), char, fg, bg, attrs)
            } else {
                old(self).at(px, py)
            },
    {
        if x < self.cols as u128 && y < self.rows as u128 {
            self.set(x as usize, y as usize, char, fg, bg, attrs);
        }
    }

    /// Draws every cell of `src` at offset `(dst_x, dst_y)`, with the dirty rule of `set`.
    pub fn overlay(&mut self, src: &Grid, dst_x: usize, dst_y: usize)
        requires
            old(self).wf(),
            src.wf(),
        ensures
            final(self).wf(),
            final(self).cols == old(self).cols,
            final(self).rows == old(self).rows,
            forall|px: int, py: int| final(self).in_bounds(px, py) ==> #[trigger] final(self).at(px, py) == if src.in_bounds(px - dst_x, py - dst_y) {
                let c = src.at(px - dst_x, py - dst_y);
                cell_after_set(old(self).at(px, py), c.char, c.fg, c.bg, c.attrs)
            } else {
                old(self).at(px, py)
            },
    {
        if dst_x >= self.cols || dst_y >= self.rows {
            return;
        }
        let w: usize = if src.cols < self.cols - dst_x { src.cols } else { self.cols - dst_x };
        let h: usize = if src.rows < self.rows - dst_y { src.rows } else { self.rows - dst_y };
        let mut cy: usize = 0;
        while cy < h
            invariant
                self.wf(),
                src.wf(),
                self.cols == old(self).cols,
                self.rows == old(self).rows,
                dst_x < self.cols,
                dst_y < self.rows,
                w as int == if src.cols < self.cols - dst_x { src.cols as int } else { self.cols - dst_x },
                h as int == if src.rows < self.rows - dst_y { src.rows as int } else { self.rows - dst_y },
                cy <= h,
                forall|qx: int, qy: int| self.in_bounds(qx, qy) ==> #[trigger] self.at(qx, qy) == if src.in_bounds(qx - dst_x, qy - dst_y) && qy - dst_y < cy {
                    let c = src.at(qx - dst_x, qy - dst_y);
                    cell_after_set(old(self).at(qx, qy), c.char, c.fg, c.bg, c.attrs)
                } else {
                    old(self).at(qx, qy)
                },
            decreases h - cy,
        {
            let mut cx: usize = 0;
            while cx < w
                invariant
                    self.wf(),
                    src.wf(),
                    self.cols == old(self).cols,
                    self.rows == old(self).rows,
                    dst_x < self.cols,
                    dst_y < self.rows,
                    w as int == if src.cols < self.cols - dst_x { src.cols as int } else { self.cols - dst_x },
                    h as int == if src.rows < self.rows - dst_y { src.rows as int } else { self.rows - dst_y },
                    cy < h,
                    cx <= w,
                    forall|qx: int, qy: int| self.in_bounds(qx, qy) ==> #[trigger] self.at(qx, qy) == if src.in_bounds(qx - dst_x, qy - dst_y)
                        && (qy - dst_y < cy || (qy - dst_y == cy && qx - dst_x < cx)) {
                        let c = src.at(qx - dst_x, qy - dst_y);
                        cell_after_set(old(self).at(qx, qy), c.char, c.fg, c.bg, c.attrs)
                    } else {
                        old(self).at(qx, qy)
                    },
                decreases w - cx,
            {
                let i = src.index(cx, cy);
                let c = src.cells[i.unwrap()];
                self.set(dst_x + cx, dst_y + cy, c.char, c.fg, c.bg, c.attrs);
                cx += 1;
            }
            cy += 1;
        }
    }

    /// Swaps foreground and background of every cell in the rectangle `[x, x+w) x [y, y+h)`.
    pub fn invert_rect(&mut self, x: usize, y: usize, w: usize, h: usize)
        requires
            old(self).wf(),
        ensures
            final(self).wf(),
            final(self).cols == old(self).cols,
            final(self).rows == old(self).rows,
            forall|px: int, py: int| final(self).in_bounds(px, py) ==> #[trigger] final(self).at(px, py) == if x <= px < x + w && y <= py < y + h {
                let c = old(self).at(px, py);
                cell_after_set(c, c.char, c.bg, c.fg, c.attrs)
            } else {
                old(self).at(px, py)
            },
    {
        let x_end: usize = if x < self.cols && w < self.cols - x { x + w } else { self.cols };
        let y_end: usize = if y < self.rows && h < self.rows - y { y + h } else { self.rows };
        let mut py: usize = y;
        while py < y_end
            invariant
                self.wf(),
                self.cols == old(self).cols,
                self.rows == old(self).rows,
                y <= py,
                x_end <= self.cols,
                y_end <= self.rows,
                x_end as int == if x < self.cols && x + w < self.cols { x + w } else { self.cols as int },
                y_end as int == if y < self.rows && y + h < self.rows { y + h } else { self.rows as int },
                py == y || py <= y_end,
                forall|qx: int, qy: int| self.in_bounds(qx, qy) ==> #[trigger] self.at(qx, qy) == if x <= qx < x_end && y <= qy < py {
                    let c = old(self).at(qx, qy);
                    cell_after_set(c, c.char, c.bg, c.fg, c.attrs)
                } else {
                    old(self).at(qx, qy)
                },
            decreases y_end - py,
        {
            let mut px: usize = x;
            while px < x_end
                invariant
                    self.wf(),
                    self.cols == old(self).cols,
                    self.rows == old(self).rows,
                    y <= py < y_end,
                    x <= px,
                    x_end <= self.cols,
                    y_end <= self.rows,
                    forall|qx: int, qy: int| self.in_bounds(qx, qy) ==> #[trigger] self.at(qx, qy) == if x <= qx < x_end && (y <= qy < py || (qy == py && qx < px)) {
                        let c = old(self).at(qx, qy);
                        cell_after_set(c, c.char, c.bg, c.fg, c.attrs)
                    } else {
                        old(self).at(qx, qy)
                    },
                decreases x_end - px,
            {
                let i = self.index(px, py);
                let c = self.cells[i.unwrap()];
                self.set(px, py, c.char, c.bg, c.fg, c.attrs);
                px += 1;
            }
            py += 1;
        }
    }

    /// Sets every cell in the rectangle `[x, x+w) x [y, y+h)` that lies in the grid.
    pub fn fill_rect(&mut self, x: usize, y: usize, w: usize, h: usize, char: char, fg: Color, bg: Color)
        requires
            old(self).wf(),
        ensures
            final(self).wf(),
            final(self).cols == old(self).cols,
            final(self).rows == old(self).rows,
            forall|px: int, py: int| final(self).in_bounds(px, py) ==> #[trigger] final(self).at(px, py) == if x <= px < x + w && y <= py < y + h {
                cell_after_set(old(self).at(px, py), char, fg, bg, no_attrs())
            } else {
                old(self).at(px, py)
            },
    {
        let x_end: usize = if x < self.cols && w < self.cols - x { x + w } else { self.cols };
        let y_end: usize = if y < self.rows && h < self.rows - y { y + h } else { self.rows };
        let ghost g0 = self@;
        let mut py: usize = y;
        while py < y_end
            invariant
                self.wf(),
                self.cols == old(self).cols,
                self.rows == old(self).rows,
                g0 == old(self)@,
                y <= py,
                x_end <= self.cols,
                y_end <= self.rows,
                x_end as int == if x < self.cols && x + w < self.cols { x + w } else { self.cols as int },
                y_end as int == if y < self.rows && y + h < self.rows { y + h } else { self.rows as int },
                py == y || py <= y_end,
                forall|qx: int, qy: int| self.in_bounds(qx, qy) ==> #[trigger] self.at(qx, qy) == if x <= qx < x_end && y <= qy < py {
                    cell_after_set(old(self).at(qx, qy), char, fg, bg, no_attrs())
                } else {
                    old(self).at(qx, qy)
                },
            decreases y_end - py,
        {
            let mut px: usize = x;
            while px < x_end
                invariant
                    self.wf(),
                    self.cols == old(self).cols,
                    self.rows == old(self).rows,
                    y <= py < y_end,
                    x <= px,
                    x_end <= self.cols,
                    y_end <= self.rows,
                    forall|qx: int, qy: int| self.in_bounds(qx, qy) ==> #[trigger] self.at(qx, qy) == if x <= qx < x_end && (y <= qy < py || (qy == py && qx < px)) {
                        cell_after_set(old(self).at(qx, qy), char, fg, bg, no_attrs())
                    } else {
                        old(self).at(qx, qy)
                    },
                decreases x_end - px,
            {
                self.set(px, py, char, fg, bg, Attrs::new());
                px += 1;
            }
            py += 1;
        }
    }

    /// Draws a box outline at `(x, y)` of size `w` x `h`; boxes smaller than 2 x 2 are not drawn.
    pub fn draw_box(&mut self, x: usize, y: usize, w: usize, h: usize, style: &BoxChars, fg: Color, bg: Color)
        requires
            old(self).wf(),
        ensures
            final(self).wf(),
            final(self).cols == old(self).cols,
            final(self).rows == old(self).rows,
            forall|px: int, py: int| final(self).in_bounds(px, py) ==> #[trigger] final(self).at(px, py) == if w >= 2 && h >= 2
                && box_glyph(*style, x as int, y as int, w as int, h as int, px, py) is Some {
                cell_after_set(old(self).at(px, py), box_glyph(*style, x as int, y as int, w as int, h as int, px, py)->0, fg, bg, no_attrs())
            } else {
                old(self).at(px, py)
            },
    {
        if w < 2 || h < 2 {
            return;
        }
        let x_end: usize = if x < self.cols && w < self.cols - x { x + w } else { self.cols };
        let y_end: usize = if y < self.rows && h < self.rows - y { y + h } else { self.rows };
        let mut py: usize = y;
        while py < y_end
            invariant
                self.wf(),
                self.cols == old(self).cols,
                self.rows == old(self).rows,
                w >= 2,
                h >= 2,
                y <= py,
                x_end <= self.cols,
                y_end <= self.rows,
                x_end as int == if x < self.cols && x + w < self.cols { x + w } else { self.cols as int },
                y_end as int == if y < self.rows && y + h < self.rows { y + h } else { self.rows as int },
                py == y || py <= y_end,
                forall|qx: int, qy: int| self.in_bounds(qx, qy) ==> #[trigger] self.at(qx, qy) == if qy < py
                    && box_glyph(*style, x as int, y as int, w as int, h as int, qx, qy) is Some {
                    cell_after_set(old(self).at(qx, qy), box_glyph(*style, x as int, y as int, w as int, h as int, qx, qy)->0, fg, bg, no_attrs())
                } else {
                    old(self).at(qx, qy)
                },
            decreases y_end - py,
        {
            let mut px: usize = x;
            while px < x_end
                invariant
                    self.wf(),
                    self.cols == old(self).cols,
                    self.rows == old(self).rows,
                    w >= 2,
                    h >= 2,
                    y <= py < y_end,
                    x <= px,
                    x_end <= self.cols,
                    y_end <= self.rows,
                    x_end as int == if x < self.cols && x + w < self.cols { x + w } else { self.cols as int },
                    y_end as int == if y < self.rows && y + h < self.rows { y + h } else { self.rows as int },
                    forall|qx: int, qy: int| self.in_bounds(qx, qy) ==> #[trigger] self.at(qx, qy) == if scanned(qx, qy, px as int, py as int)
                        && box_glyph(*style, x as int, y as int, w as int, h as int, qx, qy) is Some {
                        cell_after_set(old(self).at(qx, qy), box_glyph(*style, x as int, y as int, w as int, h as int, qx, qy)->0, fg, bg, no_attrs())
                    } else {
                        old(self).at(qx, qy)
                    },
                decreases x_end - px,
            {
                let right = px - x == w - 1;
                let bottom = py - y == h - 1;
                let left = px == x;
                let top = py == y;
                let glyph: Option<char> = if left && top {
                    Some(style.tl)
                } else if right && top {
                    Some(style.tr)
                } else if left && bottom {
                    Some(style.bl)
                } else if right && bottom {
                    Some(style.br)
                } else if top || bottom {
                    Some(style.h)
                } else if left || right {
                    Some(style.v)
                } else {
                    None
                };
                if let Some(g) = glyph {
                    self.set(px, py, g, fg, bg, Attrs::new());
                }
                px += 1;
            }
            py += 1;
        }
    }

    /// Draws `len` cells of `char` rightwards from `(x, y)`.
    pub fn hline(&mut self, x: usize, y: usize, len: usize, char: char, fg: Color, bg: Color)
        requires
            old(self).wf(),
        ensures
            final(self).wf(),
            final(self).cols == old(self).cols,
            final(self).rows == old(self).rows,
            forall|px: int, py: int| final(self).in_bounds(px, py) ==> #[trigger] final(self).at(px, py) == if x <= px < x + len && py == y {
                cell_after_set(old(self).at(px, py), char, fg, bg, no_attrs())
            } else {
                old(self).at(px, py)
            },
    {
        self.fill_rect(x, y, len, 1, char, fg, bg);
    }

    /// Draws `len` cells of `char` downwards from `(x, y)`.
    pub fn vline(&mut self, x: usize, y: usize, len: usize, char: char, fg: Color, bg: Color)
        requires
            old(self).wf(),
        ensures
            final(self).wf(),
            final(self).cols == old(self).cols,
            final(self).rows == old(self).rows,
            forall|px: int, py: int| final(self).in_bounds(px, py) ==> #[trigger] final(self).at(px, py) == if px == x && y <= py < y + len {
                cell_after_set(old(self).at(px, py), char, fg, bg, no_attrs())
            } else {
                old(self).at(px, py)
            },
    {
        self.fill_rect(x, y, 1, len, char, fg, bg);
    }

    fn set_all_dirty(&mut self, d: bool)
        requires
            old(self).wf(),
        ensures
            final(self).wf(),
            final(self).cols == old(self).cols,
            final(self).rows == old(self).rows,
            final(self)@.len() == old(self)@.len(),
            forall|i: int| 0 <= i < final(self)@.len() ==> #[trigger] final(self)@[i] == (Cell { dirty: d, ..old(self)@[i] }),
    {
        let n = self.cells.len();
        let mut i: usize = 0;
        while i < n
            invariant
                n == self@.len(),
                n == old(self)@.len(),
                self.cols == old(self).cols,
                self.rows == old(self).rows,
                self.wf(),
                i <= n,
                forall|j: int| 0 <= j < i ==> #[trigger] self@[j] == (Cell { dirty: d, ..old(self)@[j] }),
                forall|j: int| i <= j < n ==> #[trigger] self@[j] == old(self)@[j],
            decreases n - i,
        {
            let c = self.cells[i];
            self.cells.set(i, Cell { dirty: d, ..c });
            i += 1;
        }
    }

    /// Marks every cell dirty.
    pub fn mark_all_dirty(&mut self)
        requires
            old(self).wf(),
        ensures
            final(self).wf(),
            final(self).cols == old(self).cols,
            final(self).rows == old(self).rows,
            final(self)@.len() == old(self)@.len(),
            forall|i: int| 0 <= i < final(self)@.len() ==> #[trigger] final(self)@[i] == (Cell { dirty: true, ..old(self)@[i] }),
    {
        self.set_all_dirty(true);
    }

    /// Marks every cell clean.
    pub fn mark_all_clean(&mut self)
        requires
            old(self).wf(),
        ensures
            final(self).wf(),
            final(self).cols == old(self).cols,
            final(self).rows == old(self).rows,
            final(self)@.len() == old(self)@.len(),
            forall|i: int| 0 <= i < final(self)@.len() ==> #[trigger] final(self)@[i] == (Cell { dirty: false, ..old(self)@[i] }),
            final(self).all_clean(),
    {
        self.set_all_dirty(false);
    }

    /// Whether any cell is dirty.
    pub fn is_dirty(&self) -> (r: bool)
        ensures
            r == !self.all_clean(),
    {
        let mut i: usize = 0;
        while i < self.cells.len()
            invariant
                i <= self@.len(),
                forall|j: int| 0 <= j < i ==> !(#[trigger] self@[j]).dirty,
            decreases self@.len() - i,
        {
            if self.cells[i].dirty {
                return true;
            }
            i += 1;
        }
        false
    }

    /// Every cell with its column and row, in row-major order.
    pub fn iter(&self) -> (r: Vec<(usize, usize, Cell)>)
        requires
            self.wf(),
        ensures
            r@ == self.entries(),
    {
        let mut v: Vec<(usize, usize, Cell)> = Vec::new();
        let n = self.cells.len();
        let mut i: usize = 0;
        while i < n
            invariant
                n == self@.len(),
                self.wf(),
                i <= n,
                v@ =~= self.entries().take(i as int),
            decreases n - i,
        {
            proof {
                assert(self.cols > 0) by {
                    if self.cols == 0 {
                        assert(self.cols * self.rows == 0) by (nonlinear_arith)
                            requires
                                self.cols == 0,
                        ;
                    }
                }
            }
            v.push((i % self.cols, i / self.cols, self.cells[i]));
            i += 1;
            assert(v@ =~= self.entries().take(i as int));
        }
        assert(self.entries().take(n as int) =~= self.entries());
        v
    }

    /// The dirty cells with their columns and rows, in row-major order.
    pub fn iter_dirty(&self) -> (r: Vec<(usize, usize, Cell)>)
        requires
            self.wf(),
        ensures
            r@ == self.dirty_entries(),
            forall|k: int| 0 <= k < r@.len() ==> (#[trigger] r@[k]).0 < self.cols && r@[k].1 < self.rows,
    {
        let mut v: Vec<(usize, usize, Cell)> = Vec::new();
        let n = self.cells.len();
        let mut i: usize = 0;
        let ghost pred = |e: (usize, usize, Cell)| e.2.dirty;
        while i < n
            invariant
                n == self@.len(),
                self.wf(),
                i <= n,
                pred == (|e: (usize, usize, Cell)| e.2.dirty),
                v@ == self.entries().take(i as int).filter(pred),
                forall|k: int| 0 <= k < v@.len() ==> (#[trigger] v@[k]).0 < self.cols && v@[k].1 < self.rows,
            decreases n - i,
        {
            proof {
                assert(self.cols > 0) by {
                    if self.cols == 0 {
                        assert(self.cols * self.rows == 0) by (nonlinear_arith)
                            requires
                                self.cols == 0,
                        ;
                    }
                }
                reveal(Seq::filter);
                assert(self.entries().take(i + 1).drop_last() =~= self.entries().take(i as int));
            }
            if self.cells[i].dirty {
                proof {
                    assert((i as int) / (self.cols as int) < self.rows) by (nonlinear_arith)
                        requires
                            0 <= i < self.cols * self.rows,
                            self.cols > 0,
                    ;
                }
                v.push((i % self.cols, i / self.cols, self.cells[i]));
            }
            i += 1;
        }
        assert(self.entries().take(n as int) =~= self.entries());
        v
    }

    /// Changes the size; every cell becomes the default cell.
    pub fn resize(&mut self, cols: usize, rows: usize)
        requires
            cols * rows <= usize::MAX,
        ensures
            final(self).wf(),
            final(self).cols == cols,
            final(self).rows == rows,
            final(self).all_blank(),
    {
        *self = Grid::new(cols, rows);
    }

    /// Copies the `w` x `h` region of `src` at `(src_x, src_y)` to `(dst_x, dst_y)`,
    /// where both positions lie inside their grids; copied cells become dirty.
    pub fn blit(&mut self, src: &Grid, src_x: usize, src_y: usize, dst_x: usize, dst_y: usize, w: usize, h: usize)
        requires
            old(self).wf(),
            src.wf(),
        ensures
            final(self).wf(),
            final(self).cols == old(self).cols,
            final(self).rows == old(self).rows,
            forall|px: int, py: int| final(self).in_bounds(px, py) ==> #[trigger] final(self).at(px, py) == if dst_x <= px < dst_x + w && dst_y <= py < dst_y + h
                && src.in_bounds(src_x + px - dst_x, src_y + py - dst_y) {
                copied_cell(src.at(src_x + px - dst_x, src_y + py - dst_y))
            } else {
                old(self).at(px, py)
            },
    {
        let x_end: usize = if dst_x < self.cols && w < self.cols - dst_x { dst_x + w } else { self.cols };
        let y_end: usize = if dst_y < self.rows && h < self.rows - dst_y { dst_y + h } else { self.rows };
        let mut py: usize = dst_y;
        while py < y_end
            invariant
                self.wf(),
                src.wf(),
                self.cols == old(self).cols,
                self.rows == old(self).rows,
                dst_y <= py,
                x_end <= self.cols,
                y_end <= self.rows,
                x_end as int == if dst_x < self.cols && dst_x + w < self.cols { dst_x + w } else { self.cols as int },
                y_end as int == if dst_y < self.rows && dst_y + h < self.rows { dst_y + h } else { self.rows as int },
                py == dst_y || py <= y_end,
                forall|qx: int, qy: int| self.in_bounds(qx, qy) ==> #[trigger] self.at(qx, qy) == if dst_x <= qx < x_end && dst_y <= qy < py
                    && src.in_bounds(src_x + qx - dst_x, src_y + qy - dst_y) {
                    copied_cell(src.at(src_x + qx - dst_x, src_y + qy - dst_y))
                } else {
                    old(self).at(qx, qy)
                },
            decreases y_end - py,
        {
            let mut px: usize = dst_x;
            while px < x_end
                invariant
                    self.wf(),
                    src.wf(),
                    self.cols == old(self).cols,
                    self.rows == old(self).rows,
                    dst_y <= py < y_end,
                    dst_x <= px,
                    x_end <= self.cols,
                    y_end <= self.rows,
                    forall|qx: int, qy: int| self.in_bounds(qx, qy) ==> #[trigger] self.at(qx, qy) == if dst_x <= qx < x_end && (dst_y <= qy < py || (qy == py && qx < px))
                        && src.in_bounds(src_x + qx - dst_x, src_y + qy - dst_y) {
                        copied_cell(src.at(src_x + qx - dst_x, src_y + qy - dst_y))
                    } else {
                        old(self).at(qx, qy)
                    },
                decreases x_end - px,
            {
                let sx_ok = src_x < src.cols && px - dst_x < src.cols - src_x;
                let sy_ok = src_y < src.rows && py - dst_y < src.rows - src_y;
                if sx_ok && sy_ok {
                    let sx = src_x + (px - dst_x);
                    let sy = src_y + (py - dst_y);
                    if let Some(i) = src.index(sx, sy) {
                        let c = src.cells[i];
                        self.put_copy(px, py, c);
                    }
                }
                px += 1;
            }
            py += 1;
        }
    }

    fn put_copy(&mut self, x: usize, y: usize, c: Cell)
        requires
            old(self).wf(),
            old(self).in_bounds(x as int, y as int),
        ensures
            final(self).wf(),
            final(self).cols == old(self).cols,
            final(self).rows == old(self).rows,
            forall|px: int, py: int| final(self).in_bounds(px, py) ==> #[trigger] final(self).at(px, py) == if px == x && py == y {
                copied_cell(c)
            } else {
                old(self).at(px, py)
            },
    {
        let n = self.cells.len();
        proof {
            self.lemma_at(x as int, y as int);
        }
        let i = y * self.cols + x;
        self.cells.set(i, Cell { dirty: true, ..c });
        proof {
            assert forall|px: int, py: int| #![auto] self.in_bounds(px, py) && !(px == x && py == y) implies self.at(px, py) == old(self).at(px, py) by {
                lemma_idx_distinct(self.cols as int, px, py, x as int, y as int);
                self.lemma_at(px, py);
            }
        }
    }
}

} // verus!
