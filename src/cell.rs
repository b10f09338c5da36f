//! The fundamental display unit: one character position with colours,
//! attributes and a dirty flag.
use vstd::prelude::*;

verus! {

/// The sixteen colours of the standard ANSI palette.
#[derive(Debug, Clone, Copy, PartialEq, Eq, Structural)]
pub enum Color {
    Black,
    Red,
    Green,
    Yellow,
    Blue,
    Magenta,
    Cyan,
    White,
    BrightBlack,
    BrightRed,
    BrightGreen,
    BrightYellow,
    BrightBlue,
    BrightMagenta,
    BrightCyan,
    BrightWhite,
}

impl Color {
    /// Palette index of the colour, 0 to 15.
    pub open spec fn spec_index(self) -> u8 {
        match self {
            Color::Black => 0,
            Color::Red => 1,
            Color::Green => 2,
            Color::Yellow => 3,
            Color::Blue => 4,
            Color::Magenta => 5,
            Color::Cyan => 6,
            Color::White => 7,
            Color::BrightBlack => 8,
            Color::BrightRed => 9,
            Color::BrightGreen => 10,
            Color::BrightYellow => 11,
            Color::BrightBlue => 12,
            Color::BrightMagenta => 13,
            Color::BrightCyan => 14,
            Color::BrightWhite => 15,
        }
    }

    /// The colour with palette index `v`; any index above 15 gives `White`.
    pub open spec fn spec_from_index(v: u8) -> Color {
        if v == 0 {
            Color::Black
        } else if v == 1 {
            Color::Red
        } else if v == 2 {
            Color::Green
        } else if v == 3 {
            Color::Yellow
        } else if v == 4 {
            Color::Blue
        } else if v == 5 {
            Color::Magenta
        } else if v == 6 {
            Color::Cyan
        } else if v == 8 {
            Color::BrightBlack
        } else if v == 9 {
            Color::BrightRed
        } else if v == 10 {
            Color::BrightGreen
        } else if v == 11 {
            Color::BrightYellow
        } else if v == 12 {
            Color::BrightBlue
        } else if v == 13 {
            Color::BrightMagenta
        } else if v == 14 {
            Color::BrightCyan
        } else if v == 15 {
            Color::BrightWhite
        } else {
            Color::White
        }
    }

    /// SGR foreground code: 30-37 for the normal colours, 90-97 for the bright ones.
    pub open spec fn spec_fg_code(self) -> u8 {
        let v = self.spec_index();
        if v < 8 {
            (30 + v) as u8
        } else {
            (90 + (v - 8)) as u8
        }
    }

    /// SGR background code: 40-47 for the normal colours, 100-107 for the bright ones.
    pub open spec fn spec_bg_code(self) -> u8 {
        let v = self.spec_index();
        if v < 8 {
            (40 + v) as u8
        } else {
            (100 + (v - 8)) as u8
        }
    }

    pub fn index(&self) -> (r: u8)
        ensures
            r == self.spec_index(),
            r < 16,
    {
        match self {
            Color::Black => 0,
            Color::Red => 1,
            Color::Green => 2,
            Color::Yellow => 3,
            Color::Blue => 4,
            Color::Magenta => 5,
            Color::Cyan => 6,
            Color::White => 7,
            Color::BrightBlack => 8,
            Color::BrightRed => 9,
            Color::BrightGreen => 10,
            Color::BrightYellow => 11,
            Color::BrightBlue => 12,
            Color::BrightMagenta => 13,
            Color::BrightCyan => 14,
            Color::BrightWhite => 15,
        }
    }

    pub fn from_index(v: u8) -> (r: Color)
        ensures
            r == Color::spec_from_index(v),
    {
        match v {
            0 => Color::Black,
            1 => Color::Red,
            2 => Color::Green,
            3 => Color::Yellow,
            4 => Color::Blue,
            5 => Color::Magenta,
            6 => Color::Cyan,
            8 => Color::BrightBlack,
            9 => Color::BrightRed,
            10 => Color::BrightGreen,
            11 => Color::BrightYellow,
            12 => Color::BrightBlue,
            13 => Color::BrightMagenta,
            14 => Color::BrightCyan,
            15 => Color::BrightWhite,
            _ => Color::White,
        }
    }

    /// ANSI SGR code for this colour as foreground.
    pub fn fg_code(&self) -> (r: u8)
        ensures
            r == self.spec_fg_code(),
    {
        let v = self.index();
        if v < 8 {
            30 + v
        } else {
            90 + (v - 8)
        }
    }

    /// ANSI SGR code for this colour as background.
    pub fn bg_code(&self) -> (r: u8)
        ensures
            r == self.spec_bg_code(),
    {
        let v = self.index();
        if v < 8 {
            40 + v
        } else {
            100 + (v - 8)
        }
    }
}

impl Default for Color {
    fn default() -> (r: Color)
        ensures
            r == Color::White,
    {
        Color::White
    }
}

impl From<u8> for Color {
    fn from(v: u8) -> Color {
        Color::from_index(v)
    }
}

impl vstd::std_specs::convert::FromSpecImpl<u8> for Color {
    open spec fn obeys_from_spec() -> bool {
        true
    }

    open spec fn from_spec(v: u8) -> Color {
        Color::spec_from_index(v)
    }
}

/// Display attributes of a cell.
#[derive(Debug, Clone, Copy, PartialEq, Eq, Structural)]
pub struct Attrs {
    pub bold: bool,
    pub dim: bool,
    pub italic: bool,
    pub underline: bool,
    pub blink: bool,
    pub reverse: bool,
}

/// The attribute set with nothing set.
pub open spec fn no_attrs() -> Attrs {
    Attrs { bold: false, dim: false, italic: false, underline: false, blink: false, reverse: false }
}

/// SGR codes that switch on the attributes of `a`, in the order 1, 2, 3, 4, 5, 7.
pub open spec fn attr_codes(a: Attrs) -> Seq<u8> {
    (if a.bold { seq![1u8] } else { Seq::empty() })
    + (if a.dim { seq![2u8] } else { Seq::empty() })
    + (if a.italic { seq![3u8] } else { Seq::empty() })
    + (if a.underline { seq![4u8] } else { Seq::empty() })
    + (if a.blink { seq![5u8] } else { Seq::empty() })
    + (if a.reverse { seq![7u8] } else { Seq::empty() })
}

impl Default for Attrs {
    fn default() -> (r: Attrs)
        ensures
            r == no_attrs(),
    {
        Attrs { bold: false, dim: false, italic: false, underline: false, blink: false, reverse: false }
    }
}

impl Attrs {
    pub fn new() -> (r: Attrs)
        ensures
            r == no_attrs(),
    {
        Attrs { bold: false, dim: false, italic: false, underline: false, blink: false, reverse: false }
    }

    pub fn bold(self) -> (r: Attrs)
        ensures
            r == (Attrs { bold: true, ..self }),
    {
        let mut a = self;
        a.bold = true;
        a
    }

    pub fn blink(self) -> (r: Attrs)
        ensures
            r == (Attrs { blink: true, ..self }),
    {
        let mut a = self;
        a.blink = true;
        a
    }

    pub fn reverse(self) -> (r: Attrs)
        ensures
            r == (Attrs { reverse: true, ..self }),
    {
        let mut a = self;
        a.reverse = true;
        a
    }

    /// Whether any attribute is set.
    pub fn any(&self) -> (r: bool)
        ensures
            r == (*self != no_attrs()),
    {
        self.bold || self.dim || self.italic || self.underline || self.blink || self.reverse
    }

    /// SGR codes that switch on these attributes.
    pub fn sgr_codes(&self) -> (r: Vec<u8>)
        ensures
            r@ == attr_codes(*self),
    {
        let mut codes: Vec<u8> = Vec::new();
        if self.bold {
            codes.push(1);
        }
        if self.dim {
            codes.push(2);
        }
        if self.italic {
            codes.push(3);
        }
        if self.underline {
            codes.push(4);
        }
        if self.blink {
            codes.push(5);
        }
        if self.reverse {
            codes.push(7);
        }
        assert(codes@ =~= attr_codes(*self));
        codes
    }
}

/// One character position of a display.
#[derive(Debug, Clone, Copy, PartialEq, Eq, Structural)]
pub struct Cell {
    /// The character shown (one codepoint).
    pub char: char,
    pub fg: Color,
    pub bg: Color,
    pub attrs: Attrs,
    /// Whether the cell needs redrawing.
    pub dirty: bool,
}

/// A freshly made cell: dirty, so that a new surface is drawn once.
pub open spec fn fresh_cell(c: char, fg: Color, bg: Color, attrs: Attrs) -> Cell {
    Cell { char: c, fg, bg, attrs, dirty: true }
}

/// The default cell: a space, white on black, no attributes, dirty.
pub open spec fn blank_cell() -> Cell {
    fresh_cell(' ', Color::White, Color::Black, no_attrs())
}

/// Whether two cells show the same thing (the dirty flag aside).
pub open spec fn same_look(a: Cell, b: Cell) -> bool {
    a.char == b.char && a.fg == b.fg && a.bg == b.bg && a.attrs == b.attrs
}

impl Default for Cell {
    fn default() -> (r: Cell)
        ensures
            r == blank_cell(),
    {
        Cell { char: ' ', fg: Color::White, bg: Color::Black, attrs: Attrs::new(), dirty: true }
    }
}

impl Cell {
    /// A default cell showing `char`.
    pub fn new(char: char) -> (r: Cell)
        ensures
            r == fresh_cell(char, Color::White, Color::Black, no_attrs()),
    {
        Cell { char, fg: Color::White, bg: Color::Black, attrs: Attrs::new(), dirty: true }
    }

    pub fn with_colors(char: char, fg: Color, bg: Color) -> (r: Cell)
        ensures
            r == fresh_cell(char, fg, bg, no_attrs()),
    {
        Cell { char, fg, bg, attrs: Attrs::new(), dirty: true }
    }

    pub fn full(char: char, fg: Color, bg: Color, attrs: Attrs) -> (r: Cell)
        ensures
            r == fresh_cell(char, fg, bg, attrs),
    {
        Cell { char, fg, bg, attrs, dirty: true }
    }

    /// Sets the character; the cell becomes dirty only if the character changed.
    pub fn set_char(&mut self, char: char)
        ensures
            *final(self) == (Cell { char, dirty: old(self).dirty || old(self).char != char, ..*old(self) }),
    {
        if self.char != char {
            self.char = char;
            self.dirty = true;
        }
    }

    /// Sets the foreground; the cell becomes dirty only if it changed.
    pub fn set_fg(&mut self, fg: Color)
        ensures
            *final(self) == (Cell { fg, dirty: old(self).dirty || old(self).fg != fg, ..*old(self) }),
    {
        if self.fg != fg {
            self.fg = fg;
            self.dirty = true;
        }
    }

    /// Sets the background; the cell becomes dirty only if it changed.
    pub fn set_bg(&mut self, bg: Color)
        ensures
            *final(self) == (Cell { bg, dirty: old(self).dirty || old(self).bg != bg, ..*old(self) }),
    {
        if self.bg != bg {
            self.bg = bg;
            self.dirty = true;
        }
    }

    /// Sets every visible property; the cell becomes dirty only if one changed.
    pub fn set(&mut self, char: char, fg: Color, bg: Color, attrs: Attrs)
        ensures
            *final(self) == cell_after_set(*old(self), char, fg, bg, attrs),
    {
        if self.char != char || self.fg != fg || self.bg != bg || self.attrs != attrs {
            self.char = char;
            self.fg = fg;
            self.bg = bg;
            self.attrs = attrs;
            self.dirty = true;
        }
    }

    /// Resets the cell to look like the default cell; it becomes dirty only if that changed it.
    pub fn clear(&mut self)
        ensures
            *final(self) == cell_after_set(*old(self), ' ', Color::White, Color::Black, no_attrs()),
    {
        self.set(' ', Color::White, Color::Black, Attrs::new());
    }
}

/// The cell `c` after `set(ch, fg, bg, attrs)`: dirty iff it was dirty or a value changed.
pub open spec fn cell_after_set(c: Cell, ch: char, fg: Color, bg: Color, attrs: Attrs) -> Cell {
    let n = Cell { char: ch, fg, bg, attrs, dirty: c.dirty };
    Cell { dirty: c.dirty || !same_look(c, n), ..n }
}

/// The cell after `set_char` with each character of `cs` in turn.
pub open spec fn after_set_chars(c: Cell, cs: Seq<char>) -> Cell
    decreases cs.len(),
{
    if cs.len() == 0 {
        c
    } else {
        let p = after_set_chars(c, cs.drop_last());
        Cell { char: cs.last(), dirty: p.dirty || p.char != cs.last(), ..p }
    }
}

/// The character a cell holds after the first `i` writes of `cs`.
pub open spec fn char_before(c: Cell, cs: Seq<char>, i: int) -> char {
    if i == 0 { c.char } else { cs[i - 1] }
}

/// Over any sequence of `set_char` calls on a clean cell, the cell ends dirty
/// exactly when some call wrote a character different from the one it held.
pub proof fn lemma_set_chars_dirty(c: Cell, cs: Seq<char>)
    requires
        !c.dirty,
    ensures
        after_set_chars(c, cs).dirty <==> exists|i: int| 0 <= i < cs.len() && #[trigger] cs[i] != char_before(c, cs, i),
        after_set_chars(c, cs).char == (if cs.len() == 0 { c.char } else { cs.last() }),
    decreases cs.len(),
{
    if cs.len() > 0 {
        let q = cs.drop_last();
        lemma_set_chars_dirty(c, q);
        let n = cs.len() - 1;
        if after_set_chars(c, q).dirty {
            let i = choose|i: int| 0 <= i < q.len() && #[trigger] q[i] != char_before(c, q, i);
            assert(cs[i] == q[i]);
            if i > 0 {
                assert(cs[i - 1] == q[i - 1]);
            }
            assert(cs[i] != char_before(c, cs, i));
        }
        if exists|i: int| 0 <= i < cs.len() && #[trigger] cs[i] != char_before(c, cs, i) {
            let i = choose|i: int| 0 <= i < cs.len() && #[trigger] cs[i] != char_before(c, cs, i);
            if i < n {
                assert(q[i] == cs[i]);
                if i > 0 {
                    assert(q[i - 1] == cs[i - 1]);
                }
                assert(q[i] != char_before(c, q, i));
            } else {
                if n > 0 {
                    assert(q.last() == cs[n - 1]);
                }
            }
        }
    }
}

} // verus!
