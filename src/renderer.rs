//! The ANSI renderer: turns a grid into an ANSI byte stream (full or dirty cells
//! only), remembering the terminal's cursor and graphic state to emit as few
//! bytes as it can.
use vstd::prelude::*;
use crate::cell::{no_attrs, Attrs, Cell, Color};
use crate::grid::Grid;
use crate::text::{dec_digits, lower_of, push_dec, push_lit, str_eq, string_of, to_lower};

verus! {

/// Mouse tracking mode of the client terminal.
#[derive(Debug, Clone, Copy, PartialEq, Eq, Structural)]
pub enum MouseMode {
    /// No tracking.
    Off,
    /// Press and release.
    Normal,
    /// Press, release and drag.
    Button,
    /// All motion.
    Any,
    /// Extended SGR reports with button tracking.
    Sgr,
}

/// The mouse mode a lower-case name selects; unknown names select `Sgr`.
pub open spec fn mouse_mode_of(t: Seq<char>) -> MouseMode {
    if t == "normal"@ {
        MouseMode::Normal
    } else if t == "button"@ {
        MouseMode::Button
    } else if t == "any"@ {
        MouseMode::Any
    } else if t == "sgr"@ {
        MouseMode::Sgr
    } else if t == "none"@ || t == "off"@ {
        MouseMode::Off
    } else {
        MouseMode::Sgr
    }
}

impl MouseMode {
    /// The mode named by `s`, compared without regard to case.
    pub fn from_str(s: &str) -> (r: MouseMode)
        ensures
            r == mouse_mode_of(lower_of(s@)),
    {
        let l = to_lower(s);
        MouseMode::from_lowercase(l.as_str())
    }

    /// The mode named by the lower-case name `t`.
    pub fn from_lowercase(t: &str) -> (r: MouseMode)
        ensures
            r == mouse_mode_of(t@),
    {
        if str_eq(t, "normal") {
            MouseMode::Normal
        } else if str_eq(t, "button") {
            MouseMode::Button
        } else if str_eq(t, "any") {
            MouseMode::Any
        } else if str_eq(t, "sgr") {
            MouseMode::Sgr
        } else if str_eq(t, "none") || str_eq(t, "off") {
            MouseMode::Off
        } else {
            MouseMode::Sgr
        }
    }
}

/// The renderer for IBM-PC compatible ANSI terminals (16 colours).
pub struct AnsiIbmRenderer {
    pub cols: usize,
    pub rows: usize,
    /// Where the terminal's cursor is believed to be.
    pub cursor_x: usize,
    pub cursor_y: usize,
    /// The terminal's current colours; `None` after an SGR reset, when they must be sent again.
    pub current_fg: Option<Color>,
    pub current_bg: Option<Color>,
    pub current_attrs: Attrs,
}

/// Whether going from attributes `cur` to `a` switches one off, which needs a full reset.
pub open spec fn needs_reset(cur: Attrs, a: Attrs) -> bool {
    (cur.bold && !a.bold) || (cur.dim && !a.dim) || (cur.italic && !a.italic)
    || (cur.underline && !a.underline) || (cur.blink && !a.blink) || (cur.reverse && !a.reverse)
}

/// SGR codes of the attributes of `a` not already on in `cur`.
#[verifier::opaque]
pub open spec fn on_codes(cur: Attrs, a: Attrs) -> Seq<u8> {
    (if a.bold && !cur.bold { seq![1u8] } else { Seq::empty() })
    + (if a.dim && !cur.dim { seq![2u8] } else { Seq::empty() })
    + (if a.italic && !cur.italic { seq![3u8] } else { Seq::empty() })
    + (if a.underline && !cur.underline { seq![4u8] } else { Seq::empty() })
    + (if a.blink && !cur.blink { seq![5u8] } else { Seq::empty() })
    + (if a.reverse && !cur.reverse { seq![7u8] } else { Seq::empty() })
}

/// Codes joined by `;`.
pub open spec fn join_codes(cs: Seq<u8>) -> Seq<char>
    decreases cs.len(),
{
    if cs.len() == 0 {
        Seq::empty()
    } else if cs.len() == 1 {
        dec_digits(cs[0] as nat)
    } else {
        join_codes(cs.drop_last()).push(';') + dec_digits(cs.last() as nat)
    }
}

/// A character safe to send: control characters become a space.
pub open spec fn sanitized(c: char) -> char {
    if (c as u32) < 0x20 || c == '\x7f' { ' ' } else { c }
}

/// The minimal SGR codes that take the terminal from the state of `r` to `(fg, bg, a)`.
pub open spec fn sgr_codes(r: AnsiIbmRenderer, fg: Color, bg: Color, a: Attrs) -> Seq<u8> {
    let reset = needs_reset(r.current_attrs, a);
    let cf = if reset { None } else { r.current_fg };
    let cb = if reset { None } else { r.current_bg };
    let ca = if reset { no_attrs() } else { r.current_attrs };
    (if reset { seq![0u8] } else { Seq::empty() })
    + on_codes(ca, a)
    + (if cf != Some(fg) { seq![fg.spec_fg_code()] } else { Seq::empty() })
    + (if cb != Some(bg) { seq![bg.spec_bg_code()] } else { Seq::empty() })
}

/// The SGR sequence for those codes; nothing when none are needed.
pub open spec fn sgr_text(r: AnsiIbmRenderer, fg: Color, bg: Color, a: Attrs) -> Seq<char> {
    let cs = sgr_codes(r, fg, bg, a);
    if cs.len() == 0 { Seq::empty() } else { "\x1b["@ + join_codes(cs) + "m"@ }
}

pub open spec fn after_sgr(r: AnsiIbmRenderer, fg: Color, bg: Color, a: Attrs) -> AnsiIbmRenderer {
    AnsiIbmRenderer { current_fg: Some(fg), current_bg: Some(bg), current_attrs: a, ..r }
}

/// What rendering one cell emits: its SGR change, then its (sanitized) character.
pub open spec fn cell_text(r: AnsiIbmRenderer, c: Cell) -> Seq<char> {
    sgr_text(r, c.fg, c.bg, c.attrs).push(sanitized(c.char))
}

pub open spec fn after_cell(r: AnsiIbmRenderer, c: Cell) -> AnsiIbmRenderer {
    after_sgr(r, c.fg, c.bg, c.attrs)
}

/// The cursor-positioning sequence for 0-based `(x, y)`.
pub open spec fn move_text(x: nat, y: nat) -> Seq<char> {
    "\x1b["@ + dec_digits(y + 1) + seq![';'] + dec_digits(x + 1) + seq!['H']
}

pub open spec fn after_move(r: AnsiIbmRenderer, x: usize, y: usize) -> AnsiIbmRenderer {
    AnsiIbmRenderer { cursor_x: x, cursor_y: y, ..r }
}

/// The renderer with its remembered state reset (cursor home, white on black, no attributes).
pub open spec fn reset_state(r: AnsiIbmRenderer) -> AnsiIbmRenderer {
    AnsiIbmRenderer { cursor_x: 0, cursor_y: 0, current_fg: Some(Color::White), current_bg: Some(Color::Black), current_attrs: no_attrs(), ..r }
}

/// Output and state after rendering the first `n` cells of row `y` of `g`.
pub open spec fn row_out(r: AnsiIbmRenderer, g: Grid, y: int, n: int) -> (Seq<char>, AnsiIbmRenderer)
    decreases n,
{
    if n <= 0 {
        (Seq::empty(), r)
    } else {
        let (o, r1) = row_out(r, g, y, n - 1);
        let c = g.at(n - 1, y);
        (o + cell_text(r1, c), after_cell(r1, c))
    }
}

/// Output and state after rendering the first `n` rows of `g`, `w` cells each,
/// every row starting with a cursor move to its first column.
pub open spec fn rows_out(r: AnsiIbmRenderer, g: Grid, w: int, n: int) -> (Seq<char>, AnsiIbmRenderer)
    decreases n,
{
    if n <= 0 {
        (Seq::empty(), r)
    } else {
        let (o, r1) = rows_out(r, g, w, n - 1);
        let r2 = after_move(r1, 0, (n - 1) as usize);
        let (o3, r3) = row_out(r2, g, n - 1, w);
        (o + move_text(0, (n - 1) as nat) + o3, r3)
    }
}

/// Output and state after rendering the listed cells in order, moving the cursor
/// only where a cell does not directly follow the previous one on its row.
pub open spec fn dirty_out(r: AnsiIbmRenderer, es: Seq<(usize, usize, Cell)>) -> (Seq<char>, AnsiIbmRenderer)
    decreases es.len(),
{
    if es.len() == 0 {
        (Seq::empty(), r)
    } else {
        let (o, r1) = dirty_out(r, es.drop_last());
        let e = es.last();
        let follows = es.len() >= 2 && e.1 == es[es.len() - 2].1 && e.0 == es[es.len() - 2].0 + 1;
        let om = if follows { Seq::empty() } else { move_text(e.0 as nat, e.1 as nat) };
        let r2 = if follows { r1 } else { after_move(r1, e.0, e.1) };
        (o + om + cell_text(r2, e.2), after_cell(r2, e.2))
    }
}

pub open spec fn min_nat(a: int, b: int) -> int {
    if a < b { a } else { b }
}

/// A full render of `g`: cursor home, attributes reset, then every row.
pub open spec fn full_render(r: AnsiIbmRenderer, g: Grid) -> (Seq<char>, AnsiIbmRenderer) {
    let (o, r1) = rows_out(reset_state(r), g, min_nat(g.cols as int, r.cols as int), min_nat(g.rows as int, r.rows as int));
    ("\x1b[H\x1b[0m"@ + o, r1)
}

/// A dirty render of `g`: a full render when more than half the cells are dirty,
/// otherwise just the dirty cells in row-major order.
pub open spec fn dirty_render(r: AnsiIbmRenderer, g: Grid) -> (Seq<char>, AnsiIbmRenderer) {
    if g.dirty_entries().len() > (g.cols * g.rows) / 2 {
        full_render(r, g)
    } else {
        dirty_out(r, g.dirty_entries())
    }
}

pub open spec fn disable_mouse_text() -> Seq<char> {
    "\x1b[?1000l\x1b[?1002l\x1b[?1003l\x1b[?1006l"@
}

pub open spec fn enable_mouse_text(mode: MouseMode) -> Seq<char> {
    match mode {
        MouseMode::Off => disable_mouse_text(),
        MouseMode::Normal => "\x1b[?1000h"@,
        MouseMode::Button => "\x1b[?1002h"@,
        MouseMode::Any => "\x1b[?1003h"@,
        MouseMode::Sgr => "\x1b[?1006h"@ + "\x1b[?1002h"@,
    }
}

impl AnsiIbmRenderer {
    pub fn new(cols: usize, rows: usize) -> (r: AnsiIbmRenderer)
        ensures
            r == reset_state(r),
            r.cols == cols && r.rows == rows,
    {
        AnsiIbmRenderer {
            cols,
            rows,
            cursor_x: 0,
            cursor_y: 0,
            current_fg: Some(Color::White),
            current_bg: Some(Color::Black),
            current_attrs: Attrs::new(),
        }
    }

    /// An 80 x 24 renderer.
    pub fn standard() -> (r: AnsiIbmRenderer)
        ensures
            r == reset_state(r),
            r.cols == 80 && r.rows == 24,
    {
        AnsiIbmRenderer::new(80, 24)
    }

    /// Forgets the terminal state: cursor home, white on black, no attributes.
    pub fn reset(&mut self)
        ensures
            *final(self) == reset_state(*old(self)),
    {
        self.cursor_x = 0;
        self.cursor_y = 0;
        self.current_fg = Some(Color::White);
        self.current_bg = Some(Color::Black);
        self.current_attrs = Attrs::new();
    }

    fn move_cursor(&mut self, out: &mut Vec<char>, x: usize, y: usize)
        requires
            x < usize::MAX,
            y < usize::MAX,
        ensures
            final(out)@ == old(out)@ + move_text(x as nat, y as nat),
            *final(self) == after_move(*old(self), x, y),
    {
        self.cursor_x = x;
        self.cursor_y = y;
        push_lit(out, "\x1b[");
        push_dec(out, y + 1);
        out.push(';');
        push_dec(out, x + 1);
        out.push('H');
    }

    fn codes_for(&self, fg: Color, bg: Color, attrs: Attrs) -> (r: Vec<u8>)
        ensures
            r@ == sgr_codes(*self, fg, bg, attrs),
    {
        let mut codes: Vec<u8> = Vec::new();
        let cur = self.current_attrs;
        let needs = needs_reset_exec(cur, attrs);
        let (cf, cb, ca) = if needs {
            codes.push(0);
            (None, None, Attrs::new())
        } else {
            (self.current_fg, self.current_bg, cur)
        };
        let ghost c0 = codes@;
        let mut on = on_codes_exec(ca, attrs);
        codes.append(&mut on);
        assert(codes@ =~= c0 + on_codes(ca, attrs));
        let ghost c1 = codes@;
        if cf != Some(fg) {
            codes.push(fg.fg_code());
        }
        if cb != Some(bg) {
            codes.push(bg.bg_code());
        }
        assert(codes@ =~= sgr_codes(*self, fg, bg, attrs));
        codes
    }

    fn sgr(&mut self, out: &mut Vec<char>, fg: Color, bg: Color, attrs: Attrs)
        ensures
            final(out)@ == old(out)@ + sgr_text(*old(self), fg, bg, attrs),
            *final(self) == after_sgr(*old(self), fg, bg, attrs),
    {
        let codes = self.codes_for(fg, bg, attrs);
        self.current_fg = Some(fg);
        self.current_bg = Some(bg);
        self.current_attrs = attrs;
        if codes.len() > 0 {
            push_lit(out, "\x1b[");
            emit_codes(out, &codes);
            push_lit(out, "m");
        }
    }

    fn render_cell(&mut self, out: &mut Vec<char>, cell: &Cell)
        ensures
            final(out)@ == old(out)@ + cell_text(*old(self), *cell),
            *final(self) == after_cell(*old(self), *cell),
    {
        self.sgr(out, cell.fg, cell.bg, cell.attrs);
        let ch = cell.char;
        if ch < ' ' || ch == '\x7f' {
            out.push(' ');
        } else {
            out.push(ch);
        }
    }

    pub fn name(&self) -> &'static str {
        "ansi-ibm"
    }

    pub fn dimensions(&self) -> (r: (usize, usize))
        ensures
            r == (self.cols, self.rows),
    {
        (self.cols, self.rows)
    }

    /// Hides the cursor, clears the screen, homes the cursor and resets attributes.
    pub fn init(&mut self) -> (r: String)
        ensures
            r@ == "\x1b[?25l\x1b[2J\x1b[H\x1b[0m"@,
            *final(self) == reset_state(*old(self)),
    {
        self.reset();
        let mut out: Vec<char> = Vec::new();
        push_lit(&mut out, "\x1b[?25l\x1b[2J\x1b[H\x1b[0m");
        string_of(out)
    }

    /// Disables mouse reporting, resets attributes, shows the cursor, clears and homes.
    pub fn shutdown(&self) -> (r: String)
        ensures
            r@ == disable_mouse_text() + "\x1b[0m\x1b[?25h\x1b[2J\x1b[H"@,
    {
        let mut out: Vec<char> = Vec::new();
        push_lit(&mut out, "\x1b[?1000l\x1b[?1002l\x1b[?1003l\x1b[?1006l");
        push_lit(&mut out, "\x1b[0m\x1b[?25h\x1b[2J\x1b[H");
        string_of(out)
    }

    /// Clears the screen and homes the cursor.
    pub fn clear(&self) -> (r: String)
        ensures
            r@ == "\x1b[2J\x1b[H"@,
    {
        let mut out: Vec<char> = Vec::new();
        push_lit(&mut out, "\x1b[2J\x1b[H");
        string_of(out)
    }

    fn render_full_chars(&mut self, grid: &Grid) -> (r: Vec<char>)
        requires
            grid.wf(),
        ensures
            (r@, *final(self)) == full_render(*old(self), *grid),
    {
        self.reset();
        let ghost r0 = *self;
        let mut out: Vec<char> = Vec::new();
        push_lit(&mut out, "\x1b[H\x1b[0m");
        let ghost head = out@;
        let lw: usize = if grid.cols < self.cols { grid.cols } else { self.cols };
        let lh: usize = if grid.rows < self.rows { grid.rows } else { self.rows };
        let mut y: usize = 0;
        while y < lh
            invariant
                grid.wf(),
                lw <= grid.cols,
                lh <= grid.rows,
                y <= lh,
                r0 == reset_state(*old(self)),
                lw == min_nat(grid.cols as int, old(self).cols as int),
                lh == min_nat(grid.rows as int, old(self).rows as int),
                head == "\x1b[H\x1b[0m"@,
                out@ == head + rows_out(r0, *grid, lw as int, y as int).0,
                *self == rows_out(r0, *grid, lw as int, y as int).1,
            decreases lh - y,
        {
            let ghost before = out@;
            let ghost r1 = *self;
            self.move_cursor(&mut out, 0, y);
            let ghost mid = out@;
            let ghost r2 = *self;
            let mut x: usize = 0;
            while x < lw
                invariant
                    grid.wf(),
                    lw <= grid.cols,
                    y < lh,
                    lh <= grid.rows,
                    x <= lw,
                    out@ == mid + row_out(r2, *grid, y as int, x as int).0,
                    *self == row_out(r2, *grid, y as int, x as int).1,
                decreases lw - x,
            {
                let c = grid.get(x, y).unwrap();
                self.render_cell(&mut out, c);
                x += 1;
            }
            assert(out@ =~= before + move_text(0, y as nat) + row_out(r2, *grid, y as int, lw as int).0);
            y += 1;
        }
        out
    }

    /// Renders every cell (within both the grid and the renderer's size), row by row,
    /// without clearing the screen first.
    pub fn render_full(&mut self, grid: &Grid) -> (r: String)
        requires
            grid.wf(),
        ensures
            (r@, *final(self)) == full_render(*old(self), *grid),
    {
        let out = self.render_full_chars(grid);
        string_of(out)
    }

    /// Renders only the dirty cells, or everything when more than half are dirty.
    pub fn render_dirty(&mut self, grid: &Grid) -> (r: String)
        requires
            grid.wf(),
        ensures
            (r@, *final(self)) == dirty_render(*old(self), *grid),
    {
        let dirty = grid.iter_dirty();
        let n = grid.cells.len();
        let total = grid.cols * grid.rows;
        if dirty.len() > total / 2 {
            return self.render_full(grid);
        }
        let mut out: Vec<char> = Vec::new();
        let mut i: usize = 0;
        while i < dirty.len()
            invariant
                i <= dirty@.len(),
                dirty@ == grid.dirty_entries(),
                grid.wf(),
                forall|k: int| 0 <= k < dirty@.len() ==> (#[trigger] dirty@[k]).0 < grid.cols && dirty@[k].1 < grid.rows,
                (out@, *self) == dirty_out(*old(self), dirty@.take(i as int)),
            decreases dirty@.len() - i,
        {
            let (x, y, cell) = dirty[i];
            proof {
                let es = dirty@.take(i + 1);
                assert(es.drop_last() =~= dirty@.take(i as int));
                assert(es.last() == dirty@[i as int]);
                if i >= 1 {
                    assert(es[es.len() - 2] == dirty@[i - 1]);
                }
            }
            let follows = i > 0 && y == dirty[i - 1].1 && dirty[i - 1].0 < usize::MAX && x == dirty[i - 1].0 + 1;
            if !follows {
                self.move_cursor(&mut out, x, y);
            }
            self.render_cell(&mut out, &cell);
            i += 1;
        }
        assert(dirty@.take(dirty@.len() as int) =~= dirty@);
        string_of(out)
    }

    /// A full render when `force_full`, otherwise a dirty render.
    pub fn render(&mut self, grid: &Grid, force_full: bool) -> (r: String)
        requires
            grid.wf(),
        ensures
            force_full ==> (r@, *final(self)) == full_render(*old(self), *grid),
            !force_full ==> (r@, *final(self)) == dirty_render(*old(self), *grid),
    {
        if force_full {
            self.render_full(grid)
        } else {
            self.render_dirty(grid)
        }
    }

    /// The sequence that switches on mouse reporting in `mode`.
    pub fn enable_mouse(&self, mode: MouseMode) -> (r: String)
        ensures
            r@ == enable_mouse_text(mode),
    {
        let mut out: Vec<char> = Vec::new();
        match mode {
            MouseMode::Off => push_lit(&mut out, "\x1b[?1000l\x1b[?1002l\x1b[?1003l\x1b[?1006l"),
            MouseMode::Normal => push_lit(&mut out, "\x1b[?1000h"),
            MouseMode::Button => push_lit(&mut out, "\x1b[?1002h"),
            MouseMode::Any => push_lit(&mut out, "\x1b[?1003h"),
            MouseMode::Sgr => {
                push_lit(&mut out, "\x1b[?1006h");
                push_lit(&mut out, "\x1b[?1002h");
            },
        }
        string_of(out)
    }

    /// The sequence that switches off every mouse reporting mode.
    pub fn disable_mouse(&self) -> (r: String)
        ensures
            r@ == disable_mouse_text(),
    {
        let mut out: Vec<char> = Vec::new();
        push_lit(&mut out, "\x1b[?1000l\x1b[?1002l\x1b[?1003l\x1b[?1006l");
        string_of(out)
    }
}

fn on_codes_exec(cur: Attrs, a: Attrs) -> (r: Vec<u8>)
    ensures
        r@ == on_codes(cur, a),
{
    let mut codes: Vec<u8> = Vec::new();
    if a.bold && !cur.bold {
        codes.push(1);
    }
    if a.dim && !cur.dim {
        codes.push(2);
    }
    if a.italic && !cur.italic {
        codes.push(3);
    }
    if a.underline && !cur.underline {
        codes.push(4);
    }
    if a.blink && !cur.blink {
        codes.push(5);
    }
    if a.reverse && !cur.reverse {
        codes.push(7);
    }
    reveal(on_codes);
    assert(codes@ =~= on_codes(cur, a));
    codes
}

fn needs_reset_exec(cur: Attrs, a: Attrs) -> (r: bool)
    ensures
        r == needs_reset(cur, a),
{
    (cur.bold && !a.bold) || (cur.dim && !a.dim) || (cur.italic && !a.italic)
    || (cur.underline && !a.underline) || (cur.blink && !a.blink) || (cur.reverse && !a.reverse)
}

fn emit_codes(out: &mut Vec<char>, codes: &Vec<u8>)
    ensures
        final(out)@ == old(out)@ + join_codes(codes@),
{
    let mut i: usize = 0;
    while i < codes.len()
        invariant
            i <= codes@.len(),
            out@ == old(out)@ + join_codes(codes@.take(i as int)),
        decreases codes@.len() - i,
    {
        if i > 0 {
            out.push(';');
        }
        push_dec(out, codes[i] as usize);
        proof {
            let t = codes@.take(i + 1);
            assert(t.drop_last() =~= codes@.take(i as int));
            if i == 0 {
                assert(codes@.take(0) =~= Seq::<u8>::empty());
                assert(join_codes(t) == dec_digits(codes@[0] as nat));
            }
        }
        i += 1;
    }
    assert(codes@.take(codes@.len() as int) =~= codes@);
}

/// Right after a full render, with every cell clean, a dirty render emits nothing
/// and leaves the renderer as it was.
pub proof fn lemma_dirty_render_of_clean_grid(r: AnsiIbmRenderer, g: Grid)
    requires
        g.wf(),
        g.all_clean(),
    ensures
        dirty_render(r, g) == (Seq::<char>::empty(), r),
        dirty_render(full_render(r, g).1, g) == (Seq::<char>::empty(), full_render(r, g).1),
{
    lemma_no_dirty_entries(g);
}

proof fn lemma_no_dirty_entries(g: Grid)
    requires
        g.all_clean(),
    ensures
        g.dirty_entries().len() == 0,
{
    lemma_filter_none(g.entries(), |e: (usize, usize, Cell)| e.2.dirty);
}

proof fn lemma_filter_none(s: Seq<(usize, usize, Cell)>, pred: spec_fn((usize, usize, Cell)) -> bool)
    requires
        forall|i: int| 0 <= i < s.len() ==> !pred(#[trigger] s[i]),
    ensures
        s.filter(pred).len() == 0,
    decreases s.len(),
{
    reveal(Seq::filter);
    if s.len() > 0 {
        assert(!pred(s[s.len() - 1]));
        lemma_filter_none(s.drop_last(), pred);
    }
}

/// The set of operations a display back end offers.
pub trait Renderer {
    fn name(&self) -> &'static str;

    fn dimensions(&self) -> (usize, usize);

    fn init(&mut self) -> String;

    fn shutdown(&self) -> String;

    fn clear(&self) -> String;

    fn render_full(&mut self, grid: &Grid) -> String
        requires
            grid.wf(),
    ;

    fn render_dirty(&mut self, grid: &Grid) -> String
        requires
            grid.wf(),
    ;

    fn render(&mut self, grid: &Grid, force_full: bool) -> String
        requires
            grid.wf(),
    ;

    fn enable_mouse(&self, mode: MouseMode) -> String;

    fn disable_mouse(&self) -> String;
}

impl Renderer for AnsiIbmRenderer {
    fn name(&self) -> &'static str {
        AnsiIbmRenderer::name(self)
    }

    fn dimensions(&self) -> (usize, usize) {
        AnsiIbmRenderer::dimensions(self)
    }

    fn init(&mut self) -> String {
        AnsiIbmRenderer::init(self)
    }

    fn shutdown(&self) -> String {
        AnsiIbmRenderer::shutdown(self)
    }

    fn clear(&self) -> String {
        AnsiIbmRenderer::clear(self)
    }

    fn render_full(&mut self, grid: &Grid) -> String {
        AnsiIbmRenderer::render_full(self, grid)
    }

    fn render_dirty(&mut self, grid: &Grid) -> String {
        AnsiIbmRenderer::render_dirty(self, grid)
    }

    fn render(&mut self, grid: &Grid, force_full: bool) -> String {
        AnsiIbmRenderer::render(self, grid, force_full)
    }

    fn enable_mouse(&self, mode: MouseMode) -> String {
        AnsiIbmRenderer::enable_mouse(self, mode)
    }

    fn disable_mouse(&self) -> String {
        AnsiIbmRenderer::disable_mouse(self)
    }
}

} // verus!
