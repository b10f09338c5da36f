//! The embedded ANSI terminal emulator: a four-state parser (normal text,
//! escape, CSI, OSC) driving a screen with cursor, colours, scrolling, a
//! bounded scrollback and a queue of replies for the remote host.
use vstd::prelude::*;
use crate::cell::{no_attrs, fresh_cell, Attrs, Cell, Color};
use crate::input::{first_semi, parse_num};
use crate::text::{dec_digits, lower_of, push_dec, str_eq, to_lower};

verus! {

/// Most scrollback rows kept.
pub const MAX_SCROLLBACK: usize = 1000;

/// State of the escape-sequence parser.
#[derive(Debug, Clone, Copy, PartialEq, Eq, Structural)]
pub enum ParserState {
    Normal,
    Escape,
    Csi,
    Osc,
}

/// Terminal flavour; `Raw` shows printable bytes and handles only CR and LF.
#[derive(Debug, Clone, Copy, PartialEq, Eq, Structural)]
pub enum TerminalType {
    Ansi,
    Vt100,
    Xterm,
    Raw,
}

/// The terminal type a lower-case name selects; unknown names select `Ansi`.
pub open spec fn terminal_type_of(t: Seq<char>) -> TerminalType {
    if t == "vt100"@ {
        TerminalType::Vt100
    } else if t == "xterm"@ {
        TerminalType::Xterm
    } else if t == "raw"@ {
        TerminalType::Raw
    } else {
        TerminalType::Ansi
    }
}

impl TerminalType {
    /// The type named by `s`, compared without regard to case.
    pub fn from_str(s: &str) -> (r: TerminalType)
        ensures
            r == terminal_type_of(lower_of(s@)),
    {
        let l = to_lower(s);
        TerminalType::from_lowercase(l.as_str())
    }

    /// The type named by the lower-case name `t`.
    pub fn from_lowercase(t: &str) -> (r: TerminalType)
        ensures
            r == terminal_type_of(t@),
    {
        if str_eq(t, "vt100") {
            TerminalType::Vt100
        } else if str_eq(t, "xterm") {
            TerminalType::Xterm
        } else if str_eq(t, "raw") {
            TerminalType::Raw
        } else {
            TerminalType::Ansi
        }
    }
}

/// The state of a terminal as a mathematical value.
pub struct TermView {
    pub screen: Seq<Seq<Cell>>,
    pub width: usize,
    pub height: usize,
    pub cx: usize,
    pub cy: usize,
    pub fg: Color,
    pub bg: Color,
    pub attrs: Attrs,
    pub saved: Option<(usize, usize)>,
    pub scrollback: Seq<Seq<Cell>>,
    pub state: ParserState,
    pub esc: Seq<u8>,
    pub responses: Seq<Seq<u8>>,
    pub kind: TerminalType,
}

/// A blank row of `w` cells in the given colours.
pub open spec fn blank_row(w: usize, fg: Color, bg: Color) -> Seq<Cell> {
    Seq::new(w as nat, |i: int| fresh_cell(' ', fg, bg, no_attrs()))
}

pub open spec fn view_wf(v: TermView) -> bool {
    &&& v.screen.len() == v.height
    &&& forall|y: int| 0 <= y < v.height ==> (#[trigger] v.screen[y]).len() == v.width
    &&& v.cx <= v.width
    &&& v.cy < v.height || (v.height == 0 && v.cy == 0)
    &&& v.scrollback.len() <= MAX_SCROLLBACK
}

/// Scrolls up one row: the top row goes to the scrollback (oldest dropped past
/// its bound), a blank row in the current colours enters at the bottom.
#[verifier::opaque]
pub open spec fn scroll_up_v(v: TermView) -> TermView {
    if v.screen.len() == 0 {
        v
    } else {
        let sb = v.scrollback.push(v.screen[0]);
        TermView {
            screen: v.screen.drop_first().push(blank_row(v.width, v.fg, v.bg)),
            scrollback: if sb.len() > MAX_SCROLLBACK { sb.drop_first() } else { sb },
            ..v
        }
    }
}

/// Scrolls down one row: the bottom row is lost, a blank row enters at the top.
#[verifier::opaque]
pub open spec fn scroll_down_v(v: TermView) -> TermView {
    if v.screen.len() == 0 {
        v
    } else {
        TermView { screen: seq![blank_row(v.width, v.fg, v.bg)] + v.screen.drop_last(), ..v }
    }
}

/// Moves down a row, scrolling up at the bottom.
#[verifier::opaque]
pub open spec fn newline_v(v: TermView) -> TermView {
    if v.cy + 1 < v.height {
        TermView { cy: (v.cy + 1) as usize, ..v }
    } else {
        scroll_up_v(v)
    }
}

/// Writes `ch` at the cursor and advances; at the right edge it first wraps to the next line.
#[verifier::opaque]
pub open spec fn put_char_v(v: TermView, ch: char) -> TermView {
    let v1 = if v.cx >= v.width { newline_v(TermView { cx: 0, ..v }) } else { v };
    if v1.cy < v1.height && v1.cx < v1.width {
        TermView {
            screen: v1.screen.update(v1.cy as int, v1.screen[v1.cy as int].update(v1.cx as int, fresh_cell(ch, v1.fg, v1.bg, v1.attrs))),
            cx: (v1.cx + 1) as usize,
            ..v1
        }
    } else {
        v1
    }
}

/// Blanks (in the current colours) every cell whose row-major position `y * width + x`
/// lies in `[lo, hi)`.
#[verifier::opaque]
pub open spec fn erase_v(v: TermView, lo: int, hi: int) -> TermView {
    TermView {
        screen: Seq::new(v.screen.len(), |y: int| Seq::new(v.screen[y].len(), |x: int|
            if lo <= y * v.width + x < hi { fresh_cell(' ', v.fg, v.bg, no_attrs()) } else { v.screen[y][x] })),
        ..v
    }
}

/// The last column the cursor can stand on (0 on an empty row).
pub open spec fn last_col(v: TermView) -> int {
    if v.width >= 1 { v.width - 1 } else { 0 }
}

pub open spec fn last_row(v: TermView) -> int {
    if v.height >= 1 { v.height - 1 } else { 0 }
}

pub open spec fn min_int(a: int, b: int) -> int {
    if a < b { a } else { b }
}

/// The numeric parameters of a CSI sequence: `;`-separated decimals, unreadable ones 0.
pub open spec fn csi_params(s: Seq<u8>) -> Seq<usize>
    decreases s.len(),
{
    let f = |t: Seq<u8>| match parse_num(t, usize::MAX as nat) {
        Some(n) => n as usize,
        None => 0usize,
    };
    match first_semi(s, 0) {
        None => seq![f(s)],
        Some(i) => if 0 <= i < s.len() { seq![f(s.subrange(0, i))] + csi_params(s.subrange(i + 1, s.len() as int)) } else { seq![f(s)] },
    }
}

/// The count parameter of a cursor movement: the first parameter, at least 1.
pub open spec fn count_of(p: Seq<usize>) -> int {
    if p.len() > 0 && p[0] >= 1 { p[0] as int } else { 1 }
}

/// The colours and attributes after one plain SGR code `n` (not part of an extended colour).
pub open spec fn sgr_pen(fg: Color, bg: Color, a: Attrs, n: usize) -> (Color, Color, Attrs) {
    if n == 0 {
        (Color::White, Color::Black, no_attrs())
    } else if n == 1 {
        (fg, bg, Attrs { bold: true, ..a })
    } else if n == 2 {
        (fg, bg, Attrs { dim: true, ..a })
    } else if n == 3 {
        (fg, bg, Attrs { italic: true, ..a })
    } else if n == 4 {
        (fg, bg, Attrs { underline: true, ..a })
    } else if n == 5 || n == 6 {
        (fg, bg, Attrs { blink: true, ..a })
    } else if n == 7 {
        (fg, bg, Attrs { reverse: true, ..a })
    } else if n == 21 {
        (fg, bg, Attrs { bold: false, ..a })
    } else if n == 22 {
        (fg, bg, Attrs { bold: false, dim: false, ..a })
    } else if n == 23 {
        (fg, bg, Attrs { italic: false, ..a })
    } else if n == 24 {
        (fg, bg, Attrs { underline: false, ..a })
    } else if n == 25 {
        (fg, bg, Attrs { blink: false, ..a })
    } else if n == 27 {
        (fg, bg, Attrs { reverse: false, ..a })
    } else if 30 <= n <= 37 {
        (Color::spec_from_index((n - 30) as u8), bg, a)
    } else if n == 39 {
        (Color::White, bg, a)
    } else if 40 <= n <= 47 {
        (fg, Color::spec_from_index((n - 40) as u8), a)
    } else if n == 49 {
        (fg, Color::Black, a)
    } else if 90 <= n <= 97 {
        (Color::spec_from_index((n - 82) as u8), bg, a)
    } else if 100 <= n <= 107 {
        (fg, Color::spec_from_index((n - 92) as u8), a)
    } else {
        (fg, bg, a)
    }
}

/// The effect of one plain SGR code `n`.
pub open spec fn sgr_one(v: TermView, n: usize) -> TermView {
    let t = sgr_pen(v.fg, v.bg, v.attrs, n);
    TermView { fg: t.0, bg: t.1, attrs: t.2, ..v }
}

/// Applies SGR parameters from index `i` on.
#[verifier::opaque]
pub open spec fn sgr_v(v: TermView, p: Seq<usize>, i: int) -> TermView
    decreases p.len() - i,
{
    if i < 0 || i >= p.len() {
        v
    } else {
        let n = p[i];
        if (n == 38 || n == 48) && i + 2 < p.len() && p[i + 1] == 5 {
            let c = Color::spec_from_index((p[i + 2] % 256) as u8);
            sgr_v(if n == 38 { TermView { fg: c, ..v } } else { TermView { bg: c, ..v } }, p, i + 3)
        } else {
            sgr_v(sgr_one(v, n), p, i + 1)
        }
    }
}

/// Scrolls `n` times with `f`.
pub open spec fn scroll_n_v(v: TermView, n: nat, up: bool) -> TermView
    decreases n,
{
    if n == 0 {
        v
    } else {
        let v1 = scroll_n_v(v, (n - 1) as nat, up);
        if up { scroll_up_v(v1) } else { scroll_down_v(v1) }
    }
}

/// The cursor position report `ESC [ row ; col R` (1-based).
pub open spec fn position_report(v: TermView) -> Seq<u8> {
    seq![0x1bu8, 91u8] + ascii_bytes(dec_digits((v.cy + 1) as nat)) + seq![59u8] + ascii_bytes(dec_digits((v.cx + 1) as nat)) + seq![82u8]
}

pub open spec fn ascii_bytes(s: Seq<char>) -> Seq<u8> {
    s.map_values(|c: char| c as u8)
}

/// The effect of the CSI sequence with final byte `f` and parameters `p`, case by case.
#[verifier::opaque]
pub open spec fn csi_all_v(v: TermView, f: u8, p: Seq<usize>) -> TermView {
    let n = count_of(p);
    let first: int = if p.len() > 0 { p[0] as int } else { 0 };
    let w = v.width as int;
    let cx = v.cx as int;
    let cy = v.cy as int;
    if is_cursor_final(f) {
        let t = cursor_target(v, f, p);
        TermView { cx: t.0, cy: t.1, ..v }
    } else if f == 74 {
        if first == 0 {
            erase_v(v, cy * w + cx, v.height * w)
        } else if first == 1 {
            erase_v(v, 0, if w >= 1 { cy * w + min_int(cx, w - 1) + 1 } else { 0 })
        } else if first == 2 || first == 3 {
            erase_v(v, 0, v.height * w)
        } else {
            v
        }
    } else if f == 75 {
        if first == 0 {
            erase_v(v, cy * w + cx, cy * w + w)
        } else if first == 1 {
            erase_v(v, cy * w, if w >= 1 { cy * w + min_int(cx, w - 1) + 1 } else { 0 })
        } else if first == 2 {
            erase_v(v, cy * w, cy * w + w)
        } else {
            v
        }
    } else if f == 83 {
        scroll_n_v(v, n as nat, true)
    } else if f == 84 {
        scroll_n_v(v, n as nat, false)
    } else if f == 109 {
        sgr_v(v, p, 0)
    } else if f == 115 {
        TermView { saved: Some((v.cx, v.cy)), ..v }
    } else if f == 117 {
        restore_v(v)
    } else if f == 110 && first == 6 {
        TermView { responses: v.responses.push(position_report(v)), ..v }
    } else {
        v
    }
}

/// Where a cursor movement `CSI p f` puts the cursor, as `(x, y)`.
pub open spec fn cursor_target(v: TermView, f: u8, p: Seq<usize>) -> (usize, usize) {
    let n = count_of(p);
    let cx = v.cx as int;
    let cy = v.cy as int;
    if f == 65 {
        (v.cx, (if cy >= n { cy - n } else { 0 }) as usize)
    } else if f == 66 {
        (v.cx, min_int(cy + n, last_row(v)) as usize)
    } else if f == 67 {
        (min_int(cx + n, last_col(v)) as usize, v.cy)
    } else if f == 68 {
        ((if cx >= n { cx - n } else { 0 }) as usize, v.cy)
    } else if f == 69 {
        (0, min_int(cy + n, last_row(v)) as usize)
    } else if f == 70 {
        (0, (if cy >= n { cy - n } else { 0 }) as usize)
    } else if f == 71 {
        (min_int(n - 1, last_col(v)) as usize, v.cy)
    } else {
        let col: int = if p.len() > 1 && p[1] >= 1 { p[1] as int } else { 1 };
        (min_int(col - 1, last_col(v)) as usize, min_int(n - 1, last_row(v)) as usize)
    }
}

/// Whether `f` is the final byte of a cursor movement.
pub open spec fn is_cursor_final(f: u8) -> bool {
    f == 65 || f == 66 || f == 67 || f == 68 || f == 69 || f == 70 || f == 71 || f == 72 || f == 102
}

/// Executes the CSI sequence with final byte `f` and parameters `p`.
pub open spec fn csi_v(v: TermView, f: u8, p: Seq<usize>) -> TermView {
    csi_all_v(v, f, p)
}

/// Restores the saved cursor position (clamped to the screen), if one was saved.
#[verifier::opaque]
pub open spec fn restore_v(v: TermView) -> TermView {
    match v.saved {
        Some((x, y)) => TermView {
            cx: (if x <= v.width { x as int } else { v.width as int }) as usize,
            cy: min_int(y as int, last_row(v)) as usize,
            ..v
        },
        None => v,
    }
}

/// Full reset: cursor home, default colours and attributes, saved cursor dropped, screen blanked.
#[verifier::opaque]
pub open spec fn reset_v(v: TermView) -> TermView {
    let v1 = TermView { cx: 0, cy: 0, fg: Color::White, bg: Color::Black, attrs: no_attrs(), saved: None, ..v };
    erase_v(v1, 0, v1.height * v1.width)
}

/// The cursor column after the control byte `b` (backspace, tab, carriage return; others leave it).
pub open spec fn control_cx(cx: usize, w: usize, b: u8) -> usize {
    if b == 0x08 {
        (if cx > 0 { cx - 1 } else { 0 }) as usize
    } else if b == 0x09 {
        let t = (cx / 8 + 1) * 8;
        (if t >= w { if w >= 1 { w - 1 } else { 0 } } else { t }) as usize
    } else if b == 0x0d {
        0
    } else {
        cx
    }
}

/// A byte in the normal state: controls, printables, or the start of an escape.
#[verifier::opaque]
pub open spec fn normal_byte_v(v: TermView, b: u8) -> TermView {
    if b == 0x1b {
        TermView { state: ParserState::Escape, esc: Seq::empty(), ..v }
    } else if b == 0x0a {
        newline_v(v)
    } else if (0x20 <= b <= 0x7e) || b >= 0x80 {
        put_char_v(v, b as char)
    } else {
        TermView { cx: control_cx(v.cx, v.width, b), ..v }
    }
}

/// The single-character escape `ESC b` (other than `[` and `]`), with the parser back to normal.
#[verifier::opaque]
pub open spec fn escape_action_v(n: TermView, b: u8) -> TermView {
    if b == 55 {
        TermView { saved: Some((n.cx, n.cy)), ..n }
    } else if b == 56 {
        restore_v(n)
    } else if b == 68 {
        newline_v(n)
    } else if b == 69 {
        newline_v(TermView { cx: 0, ..n })
    } else if b == 77 {
        TermView { cy: (if n.cy > 0 { n.cy - 1 } else { 0 }) as usize, ..n }
    } else if b == 99 {
        reset_v(n)
    } else {
        n
    }
}

/// The byte after `ESC`.
pub open spec fn escape_byte_v(v: TermView, b: u8) -> TermView {
    if b == 91 {
        TermView { state: ParserState::Csi, esc: Seq::empty(), ..v }
    } else if b == 93 {
        TermView { state: ParserState::Osc, esc: Seq::empty(), ..v }
    } else {
        escape_action_v(TermView { state: ParserState::Normal, ..v }, b)
    }
}

/// One byte through the parser.
pub open spec fn byte_v(v: TermView, b: u8) -> TermView {
    match v.state {
        ParserState::Normal => normal_byte_v(v, b),
        ParserState::Escape => escape_byte_v(v, b),
        ParserState::Csi => if 0x40 <= b <= 0x7e {
            csi_v(TermView { state: ParserState::Normal, ..v }, b, csi_params(v.esc))
        } else {
            TermView { esc: v.esc.push(b), ..v }
        },
        ParserState::Osc => if b == 0x07 || b == 0x1b {
            TermView { state: ParserState::Normal, ..v }
        } else {
            TermView { esc: v.esc.push(b), ..v }
        },
    }
}

/// One byte in raw mode: printable ASCII shown, LF and CR obeyed, the rest ignored.
#[verifier::opaque]
pub open spec fn raw_byte_v(v: TermView, b: u8) -> TermView {
    if 32 <= b < 127 {
        put_char_v(v, b as char)
    } else if b == 10 {
        newline_v(v)
    } else if b == 13 {
        TermView { cx: 0, ..v }
    } else {
        v
    }
}

/// Row `y` of the screen resized to `w` columns (and however many rows).
pub open spec fn resized_row(v: TermView, y: int, w: usize) -> Seq<Cell> {
    Seq::new(w as nat, |x: int| if y < v.height && x < v.width { v.screen[y][x] } else { fresh_cell(' ', Color::White, Color::Black, no_attrs()) })
}

/// The terminal resized to `w` x `h`.
#[verifier::opaque]
pub open spec fn resized_v(v: TermView, w: usize, h: usize) -> TermView {
    TermView {
        screen: Seq::new(h as nat, |y: int| resized_row(v, y, w)),
        width: w,
        height: h,
        cx: min_int(v.cx as int, if w >= 1 { w - 1 } else { 0 }) as usize,
        cy: min_int(v.cy as int, if h >= 1 { h - 1 } else { 0 }) as usize,
        ..v
    }
}

/// The terminal after the bytes `bs`.
pub open spec fn bytes_v(v: TermView, bs: Seq<u8>) -> TermView
    decreases bs.len(),
{
    if bs.len() == 0 {
        v
    } else {
        let v1 = bytes_v(v, bs.drop_last());
        if v.kind == TerminalType::Raw { raw_byte_v(v1, bs.last()) } else { byte_v(v1, bs.last()) }
    }
}


/// An embedded terminal emulator.
pub struct Terminal {
    /// The id of the window that shows it.
    pub id: String,
    /// `height` rows of `width` cells.
    pub screen: Vec<Vec<Cell>>,
    pub width: usize,
    pub height: usize,
    pub cursor_x: usize,
    pub cursor_y: usize,
    pub fg: Color,
    pub bg: Color,
    pub attrs: Attrs,
    /// Saved by `ESC 7` / `CSI s`.
    pub saved_cursor: Option<(usize, usize)>,
    /// Rows scrolled off the top, oldest first.
    pub scrollback: Vec<Vec<Cell>>,
    pub max_scrollback: usize,
    /// Whether the screen changed since it was last shown.
    pub dirty: bool,
    pub parser_state: ParserState,
    /// Parameter bytes of the sequence being read.
    pub esc_buffer: Vec<u8>,
    pub terminal_type: TerminalType,
    /// Replies for the remote host, oldest first.
    pub response_queue: Vec<Vec<u8>>,
}

impl View for Terminal {
    type V = TermView;

    open spec fn view(&self) -> TermView {
        TermView {
            screen: self.screen@.map_values(|r: Vec<Cell>| r@),
            width: self.width,
            height: self.height,
            cx: self.cursor_x,
            cy: self.cursor_y,
            fg: self.fg,
            bg: self.bg,
            attrs: self.attrs,
            saved: self.saved_cursor,
            scrollback: self.scrollback@.map_values(|r: Vec<Cell>| r@),
            state: self.parser_state,
            esc: self.esc_buffer@,
            responses: self.response_queue@.map_values(|r: Vec<u8>| r@),
            kind: self.terminal_type,
        }
    }
}

fn blank_row_exec(w: usize, fg: Color, bg: Color) -> (r: Vec<Cell>)
    ensures
        r@ == blank_row(w, fg, bg),
{
    let mut v: Vec<Cell> = Vec::new();
    let mut i: usize = 0;
    while i < w
        invariant
            i <= w,
            v@ =~= blank_row(i, fg, bg),
        decreases w - i,
    {
        v.push(Cell::full(' ', fg, bg, Attrs::new()));
        i += 1;
        assert(v@ =~= blank_row(i, fg, bg));
    }
    v
}

fn sgr_pen_exec(fg: Color, bg: Color, a: Attrs, v: usize) -> (r: (Color, Color, Attrs))
    ensures
        r == sgr_pen(fg, bg, a, v),
{
    if v == 0 {
        (Color::White, Color::Black, Attrs::new())
    } else if v == 1 {
        (fg, bg, Attrs { bold: true, ..a })
    } else if v == 2 {
        (fg, bg, Attrs { dim: true, ..a })
    } else if v == 3 {
        (fg, bg, Attrs { italic: true, ..a })
    } else if v == 4 {
        (fg, bg, Attrs { underline: true, ..a })
    } else if v == 5 || v == 6 {
        (fg, bg, Attrs { blink: true, ..a })
    } else if v == 7 {
        (fg, bg, Attrs { reverse: true, ..a })
    } else if v == 21 {
        (fg, bg, Attrs { bold: false, ..a })
    } else if v == 22 {
        (fg, bg, Attrs { bold: false, dim: false, ..a })
    } else if v == 23 {
        (fg, bg, Attrs { italic: false, ..a })
    } else if v == 24 {
        (fg, bg, Attrs { underline: false, ..a })
    } else if v == 25 {
        (fg, bg, Attrs { blink: false, ..a })
    } else if v == 27 {
        (fg, bg, Attrs { reverse: false, ..a })
    } else if v >= 30 && v <= 37 {
        (Color::from_index((v - 30) as u8), bg, a)
    } else if v == 39 {
        (Color::White, bg, a)
    } else if v >= 40 && v <= 47 {
        (fg, Color::from_index((v - 40) as u8), a)
    } else if v == 49 {
        (fg, Color::Black, a)
    } else if v >= 90 && v <= 97 {
        (Color::from_index((v - 82) as u8), bg, a)
    } else if v >= 100 && v <= 107 {
        (fg, Color::from_index((v - 92) as u8), a)
    } else {
        (fg, bg, a)
    }
}

fn cursor_target_exec(cx: usize, cy: usize, w: usize, h: usize, f: u8, p: &Vec<usize>) -> (r: (usize, usize))
    requires
        p@.len() > 0,
        cx <= w,
        cy < h || (h == 0 && cy == 0),
    ensures
        forall|v: TermView| v.cx == cx && v.cy == cy && v.width == w && v.height == h ==> r == #[trigger] cursor_target(v, f, p@),
        r.0 <= w,
        r.1 < h || (h == 0 && r.1 == 0),
{
    let n: usize = if p[0] >= 1 { p[0] } else { 1 };
    let lr: usize = if h >= 1 { h - 1 } else { 0 };
    let lc: usize = if w >= 1 { w - 1 } else { 0 };
    if f == 65 {
        (cx, if cy >= n { cy - n } else { 0 })
    } else if f == 66 {
        (cx, if n >= lr - cy { lr } else { cy + n })
    } else if f == 67 {
        (if cx >= lc || n >= lc - cx { lc } else { cx + n }, cy)
    } else if f == 68 {
        (if cx >= n { cx - n } else { 0 }, cy)
    } else if f == 69 {
        (0, if n >= lr - cy { lr } else { cy + n })
    } else if f == 70 {
        (0, if cy >= n { cy - n } else { 0 })
    } else if f == 71 {
        (if n - 1 < lc { n - 1 } else { lc }, cy)
    } else {
        let col: usize = if p.len() > 1 && p[1] >= 1 { p[1] } else { 1 };
        (if col - 1 < lc { col - 1 } else { lc }, if n - 1 < lr { n - 1 } else { lr })
    }
}

fn control_cx_exec(cx: usize, w: usize, b: u8) -> (r: usize)
    requires
        cx <= w,
    ensures
        r == control_cx(cx, w, b),
        r <= w,
{
    if b == 0x08 {
        if cx > 0 { cx - 1 } else { 0 }
    } else if b == 0x09 {
        let t: u128 = ((cx as u128) / 8 + 1) * 8;
        if t >= w as u128 {
            if w >= 1 { w - 1 } else { 0 }
        } else {
            t as usize
        }
    } else if b == 0x0d {
        0
    } else {
        cx
    }
}

/// Appends the decimal digits of `n` as ASCII bytes.
fn push_dec_bytes(out: &mut Vec<u8>, n: u128)
    ensures
        final(out)@ == old(out)@ + ascii_bytes(dec_digits(n as nat)),
    decreases n,
{
    if n < 10 {
        out.push((n as u8) + 48);
        assert(ascii_bytes(dec_digits(n as nat)) =~= seq![((n as u8) + 48) as u8]);
    } else {
        push_dec_bytes(out, n / 10);
        out.push(((n % 10) as u8) + 48);
        assert(ascii_bytes(dec_digits(n as nat)) =~= ascii_bytes(dec_digits((n / 10) as nat)).push((((n % 10) as u8) + 48) as u8));
    }
}

/// `parse_num(b[lo..hi], usize::MAX)`, with 0 for an unreadable field.
fn parse_param(b: &Vec<u8>, lo: usize, hi: usize) -> (r: usize)
    requires
        lo <= hi <= b@.len(),
    ensures
        r == match parse_num(b@.subrange(lo as int, hi as int), usize::MAX as nat) {
            Some(n) => n as usize,
            None => 0usize,
        },
{
    let ghost s = b@.subrange(lo as int, hi as int);
    if lo == hi {
        return 0;
    }
    let mut v: usize = 0;
    let mut big = false;
    let mut k: usize = lo;
    while k < hi
        invariant
            lo <= k <= hi <= b@.len(),
            s == b@.subrange(lo as int, hi as int),
            crate::input::all_digits(s.take(k - lo)),
            big <==> crate::input::digits_value(s.take(k - lo)) > usize::MAX,
            !big ==> v == crate::input::digits_value(s.take(k - lo)),
        decreases hi - k,
    {
        let c = b[k];
        if c < 48 || c > 57 {
            proof {
                assert(!crate::input::is_digit(s[k - lo]));
            }
            return 0;
        }
        proof {
            let t = s.take(k - lo + 1);
            assert(t.drop_last() =~= s.take(k - lo));
            assert(t.last() == c);
        }
        if !big {
            match v.checked_mul(10) {
                Some(m) => match m.checked_add((c - 48) as usize) {
                    Some(nv) => {
                        v = nv;
                    },
                    None => {
                        big = true;
                    },
                },
                None => {
                    big = true;
                },
            }
        }
        k += 1;
    }
    assert(s.take(hi - lo) =~= s);
    if big {
        0
    } else {
        v
    }
}

/// The CSI parameters held in `b`.
fn parse_params(b: &Vec<u8>) -> (r: Vec<usize>)
    ensures
        r@ == csi_params(b@),
        r@.len() > 0,
{
    let n = b.len();
    let mut out: Vec<usize> = Vec::new();
    let mut start: usize = 0;
    assert(b@.subrange(0, n as int) =~= b@);
    loop
        invariant
            start <= n,
            n == b@.len(),
            out@ + csi_params(b@.subrange(start as int, n as int)) == csi_params(b@),
        decreases n - start,
    {
        let ghost rest = b@.subrange(start as int, n as int);
        match crate::input::find_semi(b, start, start, n) {
            None => {
                let f = parse_param(b, start, n);
                out.push(f);
                assert(csi_params(rest) == seq![f]);
                assert(out@ =~= csi_params(b@));
                return out;
            },
            Some(j) => {
                let f = parse_param(b, start, j);
                proof {
                    assert(rest.subrange(0, j - start) =~= b@.subrange(start as int, j as int));
                    assert(rest.subrange(j - start + 1, rest.len() as int) =~= b@.subrange(j + 1, n as int));
                    assert(csi_params(rest) == seq![f] + csi_params(b@.subrange(j + 1, n as int)));
                }
                let ghost before = out@;
                out.push(f);
                assert(before + csi_params(rest) =~= out@ + csi_params(b@.subrange(j + 1, n as int)));
                start = j + 1;
            },
        }
    }
}

impl Terminal {
    /// The screen has `height` rows of `width` cells, the cursor is on the screen
    /// (or just past the last column), and the scrollback keeps its bound.
    pub open spec fn wf(&self) -> bool {
        &&& view_wf(self@)
        &&& self.max_scrollback == MAX_SCROLLBACK
        &&& self.width * self.height <= usize::MAX
    }

    /// A blank terminal of `width` x `height`, white on black.
    pub fn new(id: String, width: usize, height: usize, terminal_type: TerminalType) -> (r: Terminal)
        requires
            width * height <= usize::MAX,
        ensures
            r.wf(),
            r.id == id,
            r@.width == width && r@.height == height,
            r@.screen == Seq::new(height as nat, |y: int| blank_row(width, Color::White, Color::Black)),
            r@.cx == 0 && r@.cy == 0,
            r@.fg == Color::White && r@.bg == Color::Black && r@.attrs == no_attrs(),
            r@.saved is None,
            r@.scrollback.len() == 0,
            r@.state == ParserState::Normal,
            r@.responses.len() == 0,
            r@.kind == terminal_type,
            r.dirty,
    {
        let mut screen: Vec<Vec<Cell>> = Vec::new();
        let mut y: usize = 0;
        while y < height
            invariant
                y <= height,
                screen@.map_values(|r: Vec<Cell>| r@) =~= Seq::new(y as nat, |k: int| blank_row(width, Color::White, Color::Black)),
            decreases height - y,
        {
            let row = blank_row_exec(width, Color::White, Color::Black);
            let ghost prev = screen@;
            screen.push(row);
            assert(screen@.map_values(|r: Vec<Cell>| r@) =~= prev.map_values(|r: Vec<Cell>| r@).push(row@));
            y += 1;
            assert(screen@.map_values(|r: Vec<Cell>| r@) =~= Seq::new(y as nat, |k: int| blank_row(width, Color::White, Color::Black)));
        }
        let t = Terminal {
            id,
            screen,
            width,
            height,
            cursor_x: 0,
            cursor_y: 0,
            fg: Color::White,
            bg: Color::Black,
            attrs: Attrs::new(),
            saved_cursor: None,
            scrollback: Vec::new(),
            max_scrollback: MAX_SCROLLBACK,
            dirty: true,
            parser_state: ParserState::Normal,
            esc_buffer: Vec::new(),
            terminal_type,
            response_queue: Vec::new(),
        };
        assert(t@.scrollback =~= Seq::<Seq<Cell>>::empty());
        assert(t@.responses =~= Seq::<Seq<u8>>::empty());
        t
    }

    fn scroll_up(&mut self)
        requires
            old(self).wf(),
        ensures
            final(self).wf(),
            final(self)@ == scroll_up_v(old(self)@),
            final(self).id == old(self).id && final(self).dirty == old(self).dirty,
    {
        reveal(scroll_up_v);
        if self.screen.len() > 0 {
            let top = self.screen.remove(0);
            self.scrollback.push(top);
            if self.scrollback.len() > self.max_scrollback {
                self.scrollback.remove(0);
            }
            let blank = blank_row_exec(self.width, self.fg, self.bg);
            self.screen.push(blank);
            proof {
                let o = old(self)@;
                let sb = o.scrollback.push(o.screen[0]);
                assert(self@.screen =~= o.screen.drop_first().push(blank_row(o.width, o.fg, o.bg)));
                if sb.len() > MAX_SCROLLBACK {
                    assert(self@.scrollback =~= sb.drop_first());
                } else {
                    assert(self@.scrollback =~= sb);
                }
            }
        }
    }

    fn scroll_down(&mut self)
        requires
            old(self).wf(),
        ensures
            final(self).wf(),
            final(self)@ == scroll_down_v(old(self)@),
            final(self).id == old(self).id && final(self).dirty == old(self).dirty,
    {
        reveal(scroll_down_v);
        if self.screen.len() > 0 {
            self.screen.pop();
            let blank = blank_row_exec(self.width, self.fg, self.bg);
            self.screen.insert(0, blank);
            proof {
                let o = old(self)@;
                assert(self@.screen =~= seq![blank_row(o.width, o.fg, o.bg)] + o.screen.drop_last());
                assert(self@ =~= scroll_down_v(o));
            }
        }
    }

    fn newline(&mut self)
        requires
            old(self).wf(),
        ensures
            final(self).wf(),
            final(self)@ == newline_v(old(self)@),
            final(self).id == old(self).id && final(self).dirty == old(self).dirty,
    {
        reveal(newline_v);
        if self.height > 0 && self.cursor_y < self.height - 1 {
            self.cursor_y += 1;
        } else {
            self.scroll_up();
        }
    }

    fn put_char(&mut self, ch: char)
        requires
            old(self).wf(),
        ensures
            final(self).wf(),
            final(self)@ == put_char_v(old(self)@, ch),
            final(self).id == old(self).id && final(self).dirty == old(self).dirty,
    {
        reveal(put_char_v);
        if self.cursor_x >= self.width {
            self.cursor_x = 0;
            self.newline();
        }
        if self.cursor_y < self.height && self.cursor_x < self.width {
            let ghost v1 = self@;
            let c = Cell::full(ch, self.fg, self.bg, self.attrs);
            let x = self.cursor_x;
            let y = self.cursor_y;
            self.screen[y].set(x, c);
            self.cursor_x += 1;
            proof {
                assert(self@.screen =~= v1.screen.update(y as int, v1.screen[y as int].update(x as int, c)));
                assert forall|k: int| 0 <= k < self.height implies (#[trigger] self@.screen[k]).len() == self.width by {
                    if k != y {
                        assert(self@.screen[k] == v1.screen[k]);
                    }
                }
            }
        }
    }

    /// Blanks the cells whose row-major position lies in `[lo, hi)`.
    fn erase(&mut self, lo: usize, hi: usize)
        requires
            old(self).wf(),
        ensures
            final(self).wf(),
            final(self)@ == erase_v(old(self)@, lo as int, hi as int),
            final(self).id == old(self).id && final(self).dirty == old(self).dirty,
    {
        reveal(erase_v);
        let h = self.height;
        let w = self.width;
        let blank = Cell::full(' ', self.fg, self.bg, Attrs::new());
        let ghost o = old(self)@;
        let mut y: usize = 0;
        while y < h
            invariant
                self.wf(),
                h == self.height && w == self.width,
                o == old(self)@,
                self.id == old(self).id && self.dirty == old(self).dirty,
                self@ == (TermView { screen: self@.screen, ..o }),
                y <= h,
                blank == fresh_cell(' ', o.fg, o.bg, no_attrs()),
                forall|yy: int, xx: int| 0 <= yy < h && 0 <= xx < w ==> #[trigger] self@.screen[yy][xx] ==
                    if yy < y && lo <= yy * w + xx < hi { blank } else { o.screen[yy][xx] },
            decreases h - y,
        {
            let mut x: usize = 0;
            while x < w
                invariant
                    self.wf(),
                    h == self.height && w == self.width,
                    o == old(self)@,
                    self.id == old(self).id && self.dirty == old(self).dirty,
                    self@ == (TermView { screen: self@.screen, ..o }),
                    y < h,
                    x <= w,
                    blank == fresh_cell(' ', o.fg, o.bg, no_attrs()),
                    forall|yy: int, xx: int| 0 <= yy < h && 0 <= xx < w ==> #[trigger] self@.screen[yy][xx] ==
                        if (yy < y || (yy == y && xx < x)) && lo <= yy * w + xx < hi { blank } else { o.screen[yy][xx] },
                decreases w - x,
            {
                proof {
                    crate::grid::lemma_idx_bounds(w as int, h as int, x as int, y as int);
                }
                let p = y * w + x;
                if lo <= p && p < hi {
                    let ghost before = self@;
                    assert(self@.screen[y as int].len() == w);
                    assert(self.screen@[y as int]@.len() == w);
                    self.screen[y].set(x, blank);
                    proof {
                        assert(self@.screen =~= before.screen.update(y as int, before.screen[y as int].update(x as int, blank)));
                        assert forall|k: int| 0 <= k < self.height implies (#[trigger] self@.screen[k]).len() == self.width by {
                            if k != y {
                                assert(self@.screen[k] == before.screen[k]);
                            }
                        }
                    }
                }
                x += 1;
            }
            y += 1;
        }
        proof {
            let e = erase_v(o, lo as int, hi as int);
            assert forall|yy: int| 0 <= yy < h implies #[trigger] self@.screen[yy] =~= e.screen[yy] by {}
            assert(self@.screen =~= e.screen);
        }
    }

    fn restore_cursor(&mut self)
        requires
            old(self).wf(),
        ensures
            final(self).wf(),
            final(self)@ == restore_v(old(self)@),
            final(self).id == old(self).id && final(self).dirty == old(self).dirty,
    {
        reveal(restore_v);
        if let Some((x, y)) = self.saved_cursor {
            self.cursor_x = if x <= self.width { x } else { self.width };
            let lr = if self.height >= 1 { self.height - 1 } else { 0 };
            self.cursor_y = if y < lr { y } else { lr };
        }
    }

    fn reset(&mut self)
        requires
            old(self).wf(),
        ensures
            final(self).wf(),
            final(self)@ == reset_v(old(self)@),
            final(self).id == old(self).id && final(self).dirty == old(self).dirty,
    {
        reveal(reset_v);
        self.cursor_x = 0;
        self.cursor_y = 0;
        self.fg = Color::White;
        self.bg = Color::Black;
        self.attrs = Attrs::new();
        self.saved_cursor = None;
        let n = self.width * self.height;
        assert(n == self.height * self.width) by (nonlinear_arith)
            requires
                n == self.width * self.height,
        ;
        self.erase(0, n);
    }
    fn process_sgr(&mut self, p: &Vec<usize>)
        requires
            old(self).wf(),
        ensures
            final(self).wf(),
            final(self)@ == sgr_v(old(self)@, p@, 0),
            final(self).id == old(self).id && final(self).dirty == old(self).dirty,
    {
        let n = p.len();
        let mut i: usize = 0;
        reveal(sgr_v);
        while i < n
            invariant
                self.wf(),
                n == p@.len(),
                self.id == old(self).id && self.dirty == old(self).dirty,
                sgr_v(old(self)@, p@, 0) == sgr_v(self@, p@, i as int),
            decreases n - i,
        {
            reveal(sgr_v);
            let v = p[i];
            if (v == 38 || v == 48) && n - i > 2 && p[i + 1] == 5 {
                let c = Color::from_index((p[i + 2] % 256) as u8);
                if v == 38 {
                    self.fg = c;
                } else {
                    self.bg = c;
                }
                i += 3;
            } else {
                self.apply_sgr_code(v);
                i += 1;
            }
        }
    }

    fn apply_sgr_code(&mut self, v: usize)
        requires
            old(self).wf(),
        ensures
            final(self).wf(),
            final(self)@ == sgr_one(old(self)@, v),
            final(self).id == old(self).id && final(self).dirty == old(self).dirty,
    {
        let (fg, bg, a) = sgr_pen_exec(self.fg, self.bg, self.attrs, v);
        self.fg = fg;
        self.bg = bg;
        self.attrs = a;
    }

    fn scroll_times(&mut self, n: usize, up: bool)
        requires
            old(self).wf(),
        ensures
            final(self).wf(),
            final(self)@ == scroll_n_v(old(self)@, n as nat, up),
            final(self).id == old(self).id && final(self).dirty == old(self).dirty,
    {
        let mut i: usize = 0;
        while i < n
            invariant
                self.wf(),
                i <= n,
                self.id == old(self).id && self.dirty == old(self).dirty,
                self@ == scroll_n_v(old(self)@, i as nat, up),
            decreases n - i,
        {
            if up {
                self.scroll_up();
            } else {
                self.scroll_down();
            }
            i += 1;
        }
    }

    fn position_report_bytes(&self) -> (r: Vec<u8>)
        requires
            self.wf(),
        ensures
            r@ == position_report(self@),
    {
        let mut out: Vec<u8> = Vec::new();
        out.push(0x1b);
        out.push(91);
        push_dec_bytes(&mut out, self.cursor_y as u128 + 1);
        out.push(59);
        push_dec_bytes(&mut out, self.cursor_x as u128 + 1);
        out.push(82);
        assert(out@ =~= position_report(self@));
        out
    }

    fn cursor_csi(&mut self, f: u8, p: &Vec<usize>)
        requires
            old(self).wf(),
            p@.len() > 0,
            is_cursor_final(f),
        ensures
            final(self).wf(),
            final(self)@ == csi_v(old(self)@, f, p@),
            final(self).id == old(self).id && final(self).dirty == old(self).dirty,
    {
        reveal(csi_all_v);
        let (x, y) = cursor_target_exec(self.cursor_x, self.cursor_y, self.width, self.height, f, p);
        proof {
            assert((x, y) == cursor_target(self@, f, p@));
        }
        self.cursor_x = x;
        self.cursor_y = y;
    }

    fn erase_csi(&mut self, f: u8, p: &Vec<usize>)
        requires
            old(self).wf(),
            p@.len() > 0,
            f == 74 || f == 75,
        ensures
            final(self).wf(),
            final(self)@ == csi_v(old(self)@, f, p@),
            final(self).id == old(self).id && final(self).dirty == old(self).dirty,
    {
        reveal(csi_all_v);
        let w = self.width;
        let h = self.height;
        let cx = self.cursor_x;
        let cy = self.cursor_y;
        proof {
            let hh: int = if h > 0 { h as int } else { 1 };
            assert(cy * w + w <= hh * w) by (nonlinear_arith)
                requires
                    cy < hh,
                    0 <= w,
            ;
            assert(hh * w <= usize::MAX) by (nonlinear_arith)
                requires
                    h > 0 ==> hh == h,
                    h == 0 ==> hh == 1,
                    w * h <= usize::MAX,
                    0 <= w <= usize::MAX,
            ;
            assert(w * h == h * w) by (nonlinear_arith);
        }
        let row = cy * w;
        let all = w * h;
        let first = p[0];
        let left_end: usize = if w >= 1 { row + (if cx < w - 1 { cx } else { w - 1 }) + 1 } else { 0 };
        if f == 74 {
            if first == 0 {
                self.erase(row + cx, all);
            } else if first == 1 {
                self.erase(0, left_end);
            } else if first == 2 || first == 3 {
                self.erase(0, all);
            }
        } else {
            if first == 0 {
                self.erase(row + cx, row + w);
            } else if first == 1 {
                self.erase(row, left_end);
            } else if first == 2 {
                self.erase(row, row + w);
            }
        }
    }

    fn other_csi(&mut self, f: u8, p: &Vec<usize>)
        requires
            old(self).wf(),
            p@.len() > 0,
            !is_cursor_final(f),
            f != 74 && f != 75,
        ensures
            final(self).wf(),
            final(self)@ == csi_v(old(self)@, f, p@),
            final(self).id == old(self).id && final(self).dirty == old(self).dirty,
    {
        reveal(csi_all_v);
        let n: usize = if p[0] >= 1 { p[0] } else { 1 };
        if f == 83 {
            self.scroll_times(n, true);
        } else if f == 84 {
            self.scroll_times(n, false);
        } else if f == 109 {
            self.process_sgr(p);
        } else if f == 115 {
            self.saved_cursor = Some((self.cursor_x, self.cursor_y));
        } else if f == 117 {
            self.restore_cursor();
        } else if f == 110 && p[0] == 6 {
            let r = self.position_report_bytes();
            let ghost before = self@.responses;
            self.response_queue.push(r);
            assert(self@.responses =~= before.push(r@));
        }
    }

    fn execute_csi(&mut self, f: u8)
        requires
            old(self).wf(),
        ensures
            final(self).wf(),
            final(self)@ == csi_v(old(self)@, f, csi_params(old(self)@.esc)),
            final(self).id == old(self).id && final(self).dirty == old(self).dirty,
    {
        let p = parse_params(&self.esc_buffer);
        if f == 65 || f == 66 || f == 67 || f == 68 || f == 69 || f == 70 || f == 71 || f == 72 || f == 102 {
            self.cursor_csi(f, &p);
        } else if f == 74 || f == 75 {
            self.erase_csi(f, &p);
        } else {
            self.other_csi(f, &p);
        }
    }

    fn escape_action(&mut self, b: u8)
        requires
            old(self).wf(),
        ensures
            final(self).wf(),
            final(self)@ == escape_action_v(old(self)@, b),
            final(self).id == old(self).id && final(self).dirty == old(self).dirty,
    {
        reveal(escape_action_v);
        if b == 55 {
            self.saved_cursor = Some((self.cursor_x, self.cursor_y));
        } else if b == 56 {
            self.restore_cursor();
        } else if b == 68 {
            self.newline();
        } else if b == 69 {
            self.cursor_x = 0;
            self.newline();
        } else if b == 77 {
            if self.cursor_y > 0 {
                self.cursor_y -= 1;
            }
        } else if b == 99 {
            self.reset();
        }
    }

    fn escape_byte(&mut self, b: u8)
        requires
            old(self).wf(),
        ensures
            final(self).wf(),
            final(self)@ == escape_byte_v(old(self)@, b),
            final(self).id == old(self).id && final(self).dirty == old(self).dirty,
    {
        if b == 91 {
            self.parser_state = ParserState::Csi;
            self.esc_buffer = Vec::new();
        } else if b == 93 {
            self.parser_state = ParserState::Osc;
            self.esc_buffer = Vec::new();
        } else {
            self.parser_state = ParserState::Normal;
            self.escape_action(b);
        }
    }

    fn normal_byte(&mut self, b: u8)
        requires
            old(self).wf(),
        ensures
            final(self).wf(),
            final(self)@ == normal_byte_v(old(self)@, b),
            final(self).id == old(self).id && final(self).dirty == old(self).dirty,
    {
        reveal(normal_byte_v);
        if b == 0x1b {
            self.parser_state = ParserState::Escape;
            self.esc_buffer = Vec::new();
        } else if b == 0x0a {
            self.newline();
        } else if (b >= 0x20 && b <= 0x7e) || b >= 0x80 {
            self.put_char(b as char);
        } else {
            self.cursor_x = control_cx_exec(self.cursor_x, self.width, b);
        }
    }

    fn process_byte(&mut self, b: u8)
        requires
            old(self).wf(),
        ensures
            final(self).wf(),
            final(self)@ == byte_v(old(self)@, b),
            final(self).id == old(self).id && final(self).dirty == old(self).dirty,
    {
        match self.parser_state {
            ParserState::Normal => {
                self.normal_byte(b);
            },
            ParserState::Escape => {
                self.escape_byte(b);
            },
            ParserState::Csi => {
                if b >= 0x40 && b <= 0x7e {
                    self.parser_state = ParserState::Normal;
                    self.execute_csi(b);
                } else {
                    self.esc_buffer.push(b);
                }
            },
            ParserState::Osc => {
                if b == 0x07 || b == 0x1b {
                    self.parser_state = ParserState::Normal;
                } else {
                    self.esc_buffer.push(b);
                }
            },
        }
    }

    fn raw_byte(&mut self, b: u8)
        requires
            old(self).wf(),
        ensures
            final(self).wf(),
            final(self)@ == raw_byte_v(old(self)@, b),
            final(self).id == old(self).id && final(self).dirty == old(self).dirty,
    {
        reveal(raw_byte_v);
        if b >= 32 && b < 127 {
            self.put_char(b as char);
        } else if b == 10 {
            self.newline();
        } else if b == 13 {
            self.cursor_x = 0;
        }
    }

    /// Feeds bytes received from the remote host through the emulator; the
    /// terminal is then marked dirty.
    pub fn process_data(&mut self, data: &[u8])
        requires
            old(self).wf(),
        ensures
            final(self).wf(),
            final(self)@ == bytes_v(old(self)@, data@),
            final(self).id == old(self).id,
            final(self).dirty,
    {
        let n = data.len();
        let raw = self.terminal_type == TerminalType::Raw;
        let mut i: usize = 0;
        assert(data@.take(0) =~= Seq::<u8>::empty());
        while i < n
            invariant
                self.wf(),
                n == data@.len(),
                i <= n,
                self.id == old(self).id,
                raw == (old(self)@.kind == TerminalType::Raw),
                self@ == bytes_v(old(self)@, data@.take(i as int)),
            decreases n - i,
        {
            proof {
                assert(data@.take(i + 1).drop_last() =~= data@.take(i as int));
            }
            if raw {
                self.raw_byte(data[i]);
            } else {
                self.process_byte(data[i]);
            }
            i += 1;
        }
        assert(data@.take(n as int) =~= data@);
        self.dirty = true;
    }

    /// Changes the size, keeping the overlapping part of the screen; new cells are
    /// blank, and the cursor is clamped to the new size.
    #[verifier::rlimit(60)]
    pub fn resize(&mut self, new_width: usize, new_height: usize)
        requires
            old(self).wf(),
            new_width * new_height <= usize::MAX,
        ensures
            final(self).wf(),
            final(self)@ == resized_v(old(self)@, new_width, new_height),
            final(self).id == old(self).id,
            final(self).dirty,
    {
        reveal(resized_v);
        let screen = self.resized_screen(new_width, new_height);
        self.screen = screen;
        self.width = new_width;
        self.height = new_height;
        let lc = if new_width >= 1 { new_width - 1 } else { 0 };
        let lr = if new_height >= 1 { new_height - 1 } else { 0 };
        if self.cursor_x > lc {
            self.cursor_x = lc;
        }
        if self.cursor_y > lr {
            self.cursor_y = lr;
        }
        self.dirty = true;
        proof {
            assert(self@.screen =~= resized_v(old(self)@, new_width, new_height).screen);
        }
    }

    fn resized_screen(&self, new_width: usize, new_height: usize) -> (r: Vec<Vec<Cell>>)
        requires
            self.wf(),
        ensures
            r@.len() == new_height,
            forall|k: int| 0 <= k < new_height ==> (#[trigger] r@[k])@ == resized_row(self@, k, new_width),
    {
        let mut screen: Vec<Vec<Cell>> = Vec::new();
        let mut y: usize = 0;
        while y < new_height
            invariant
                self.wf(),
                                y <= new_height,
                screen@.len() == y,
                forall|k: int| 0 <= k < y ==> (#[trigger] screen@[k])@ == resized_row(self@, k, new_width),
            decreases new_height - y,
        {
            let mut row: Vec<Cell> = Vec::new();
            let mut x: usize = 0;
            while x < new_width
                invariant
                    self.wf(),
                                        y < new_height,
                    x <= new_width,
                    row@ =~= resized_row(self@, y as int, new_width).take(x as int),
                decreases new_width - x,
            {
                if y < self.height && x < self.width {
                    assert(self@.screen[y as int].len() == self.width);
                    row.push(self.screen[y][x]);
                } else {
                    row.push(Cell::full(' ', Color::White, Color::Black, Attrs::new()));
                }
                x += 1;
                assert(row@ =~= resized_row(self@, y as int, new_width).take(x as int));
            }
            assert(row@ =~= resized_row(self@, y as int, new_width));
            screen.push(row);
            y += 1;
        }
        screen
    }

    /// The screen rows.
    pub fn get_screen(&self) -> (r: &Vec<Vec<Cell>>)
        ensures
            r@.map_values(|row: Vec<Cell>| row@) == self@.screen,
    {
        &self.screen
    }

    /// Takes every queued reply for the remote host, oldest first, leaving the queue empty.
    pub fn take_responses(&mut self) -> (r: Vec<Vec<u8>>)
        ensures
            r@.map_values(|v: Vec<u8>| v@) == old(self)@.responses,
            final(self)@ == (TermView { responses: Seq::empty(), ..old(self)@ }),
            final(self).id == old(self).id && final(self).dirty == old(self).dirty,
            old(self).wf() ==> final(self).wf(),
    {
        let mut r: Vec<Vec<u8>> = Vec::new();
        std::mem::swap(&mut r, &mut self.response_queue);
        assert(self@.responses =~= Seq::<Seq<u8>>::empty());
        r
    }

}

} // verus!
