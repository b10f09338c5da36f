//! The terminal input parser: a byte-buffered state machine that turns the
//! client's byte stream into characters, keys and mouse reports.
use vstd::prelude::*;
use vstd::utf8::{decode_utf8, valid_utf8};

verus! {

/// A parsed input event.
#[derive(Debug, Clone, Copy, PartialEq, Eq, Structural)]
pub enum InputEvent {
    Char { char: char },
    Key { key: Key },
    Mouse { x: u16, y: u16, button: MouseButton, event: MouseEvent, modifiers: Modifiers },
}

/// Special keys.
#[derive(Debug, Clone, Copy, PartialEq, Eq, Structural)]
pub enum Key {
    Up,
    Down,
    Left,
    Right,
    Home,
    End,
    PageUp,
    PageDown,
    Insert,
    Delete,
    Escape,
    Enter,
    Tab,
    Backspace,
    F1,
    F2,
    F3,
    F4,
    F5,
    F6,
    F7,
    F8,
    F9,
    F10,
    F11,
    F12,
}

/// Mouse buttons; `NoButton` for motion without a button.
#[derive(Debug, Clone, Copy, PartialEq, Eq, Structural)]
pub enum MouseButton {
    Left,
    Middle,
    Right,
    WheelUp,
    WheelDown,
    NoButton,
}

/// Kinds of mouse report.
#[derive(Debug, Clone, Copy, PartialEq, Eq, Structural)]
pub enum MouseEvent {
    Press,
    Release,
    Drag,
    Move,
}

/// Modifier keys held during a mouse report.
#[derive(Debug, Clone, Copy, PartialEq, Eq, Structural)]
pub struct Modifiers {
    pub shift: bool,
    pub ctrl: bool,
    pub alt: bool,
}

impl Default for Modifiers {
    fn default() -> (r: Modifiers)
        ensures
            r == (Modifiers { shift: false, ctrl: false, alt: false }),
    {
        Modifiers { shift: false, ctrl: false, alt: false }
    }
}

/// Outcome of one parsing step at the front of the buffer.
#[derive(Debug, Clone, Copy, PartialEq, Eq, Structural)]
pub enum ParseStep {
    /// An event, and how many bytes it took.
    Event(InputEvent, usize),
    /// Bytes that form no event, to be dropped.
    Skip(usize),
    /// The bytes so far may begin an event: wait for more.
    Incomplete,
}

pub open spec fn is_csi_final(c: u8) -> bool {
    (65 <= c <= 90) || (97 <= c <= 122) || c == 126
}

pub open spec fn is_digit(c: u8) -> bool {
    48 <= c <= 57
}

/// First index at or after `i` holding a CSI final byte (a letter or `~`).
pub open spec fn first_csi_final(s: Seq<u8>, i: int) -> Option<int>
    decreases s.len() - i,
{
    if i < 0 || i >= s.len() {
        None
    } else if is_csi_final(s[i]) {
        Some(i)
    } else {
        first_csi_final(s, i + 1)
    }
}

/// First index at or after `i` holding `M` or `m`.
pub open spec fn first_mouse_end(s: Seq<u8>, i: int) -> Option<int>
    decreases s.len() - i,
{
    if i < 0 || i >= s.len() {
        None
    } else if s[i] == 77 || s[i] == 109 {
        Some(i)
    } else {
        first_mouse_end(s, i + 1)
    }
}

/// First index at or after `i` holding `;`.
pub open spec fn first_semi(s: Seq<u8>, i: int) -> Option<int>
    decreases s.len() - i,
{
    if i < 0 || i >= s.len() {
        None
    } else if s[i] == 59 {
        Some(i)
    } else {
        first_semi(s, i + 1)
    }
}

/// Value of a string of decimal digits.
pub open spec fn digits_value(s: Seq<u8>) -> nat
    decreases s.len(),
{
    if s.len() == 0 {
        0
    } else {
        digits_value(s.drop_last()) * 10 + (s.last() - 48) as nat
    }
}

pub open spec fn all_digits(s: Seq<u8>) -> bool {
    forall|i: int| 0 <= i < s.len() ==> is_digit(#[trigger] s[i])
}

/// A non-empty string of digits whose value is at most `max`, read as a number.
pub open spec fn parse_num(s: Seq<u8>, max: nat) -> Option<nat> {
    if s.len() > 0 && all_digits(s) && digits_value(s) <= max {
        Some(digits_value(s))
    } else {
        None
    }
}

/// Index of the first byte at or after `i` that is not a digit (the length if none).
pub open spec fn first_non_digit(s: Seq<u8>, i: int) -> int
    decreases s.len() - i,
{
    if i < 0 || i >= s.len() {
        s.len() as int
    } else if !is_digit(s[i]) {
        i
    } else {
        first_non_digit(s, i + 1)
    }
}

/// The longest prefix of digits.
pub open spec fn lead_digits(s: Seq<u8>) -> Seq<u8> {
    s.take(first_non_digit(s, 0))
}

pub open spec fn key_event(k: Key) -> InputEvent {
    InputEvent::Key { key: k }
}

/// The key a CSI sequence with parameters `p` and final byte `f` stands for.
pub open spec fn csi_key(p: Seq<u8>, f: u8) -> Option<Key> {
    if f == 65 {
        Some(Key::Up)
    } else if f == 66 {
        Some(Key::Down)
    } else if f == 67 {
        Some(Key::Right)
    } else if f == 68 {
        Some(Key::Left)
    } else if f == 72 {
        Some(Key::Home)
    } else if f == 70 {
        Some(Key::End)
    } else if f == 126 {
        tilde_key(digits_value(lead_digits(p)))
    } else {
        None
    }
}

/// The key of `CSI n ~`.
pub open spec fn tilde_key(n: nat) -> Option<Key> {
    if n == 1 {
        Some(Key::Home)
    } else if n == 2 {
        Some(Key::Insert)
    } else if n == 3 {
        Some(Key::Delete)
    } else if n == 4 {
        Some(Key::End)
    } else if n == 5 {
        Some(Key::PageUp)
    } else if n == 6 {
        Some(Key::PageDown)
    } else if n == 15 {
        Some(Key::F5)
    } else if n == 17 {
        Some(Key::F6)
    } else if n == 18 {
        Some(Key::F7)
    } else if n == 19 {
        Some(Key::F8)
    } else if n == 20 {
        Some(Key::F9)
    } else if n == 21 {
        Some(Key::F10)
    } else if n == 23 {
        Some(Key::F11)
    } else if n == 24 {
        Some(Key::F12)
    } else {
        None
    }
}

/// The key of `ESC O c`.
pub open spec fn ss3_key(c: u8) -> Option<Key> {
    if c == 80 {
        Some(Key::F1)
    } else if c == 81 {
        Some(Key::F2)
    } else if c == 82 {
        Some(Key::F3)
    } else if c == 83 {
        Some(Key::F4)
    } else if c == 65 {
        Some(Key::Up)
    } else if c == 66 {
        Some(Key::Down)
    } else if c == 67 {
        Some(Key::Right)
    } else if c == 68 {
        Some(Key::Left)
    } else if c == 72 {
        Some(Key::Home)
    } else if c == 70 {
        Some(Key::End)
    } else {
        None
    }
}

/// Button and event of an X10 button byte.
pub open spec fn x10_button(cb: u8) -> (MouseButton, MouseEvent) {
    let b: u8 = if cb >= 32 { (cb - 32) as u8 } else { 0 };
    let bits = b & 3;
    let motion = (b & 0x20) != 0;
    let plain = if bits == 0 {
        MouseButton::Left
    } else if bits == 1 {
        MouseButton::Middle
    } else if bits == 2 {
        MouseButton::Right
    } else {
        MouseButton::NoButton
    };
    let button = if (b & 0x40) != 0 && bits == 0 {
        MouseButton::WheelUp
    } else if (b & 0x40) != 0 && bits == 1 {
        MouseButton::WheelDown
    } else {
        plain
    };
    let event = if bits == 3 {
        MouseEvent::Release
    } else if motion {
        MouseEvent::Drag
    } else {
        MouseEvent::Press
    };
    (button, event)
}

pub open spec fn x10_mods(cb: u8) -> Modifiers {
    let b: u8 = if cb >= 32 { (cb - 32) as u8 } else { 0 };
    Modifiers { shift: (b & 4) != 0, alt: (b & 8) != 0, ctrl: (b & 16) != 0 }
}

/// Button and event of an SGR button number (press form).
pub open spec fn sgr_button(pb: u8) -> (MouseButton, MouseEvent) {
    let bits = pb & 3;
    let motion = (pb & 0x20) != 0;
    let button = if (pb & 0x40) != 0 {
        if bits == 0 {
            MouseButton::WheelUp
        } else if bits == 1 {
            MouseButton::WheelDown
        } else {
            MouseButton::NoButton
        }
    } else if bits == 0 {
        MouseButton::Left
    } else if bits == 1 {
        MouseButton::Middle
    } else if bits == 2 {
        MouseButton::Right
    } else {
        MouseButton::NoButton
    };
    let event = if motion && button != MouseButton::NoButton {
        MouseEvent::Drag
    } else if motion {
        MouseEvent::Move
    } else {
        MouseEvent::Press
    };
    (button, event)
}

pub open spec fn sgr_mods(pb: u8) -> Modifiers {
    Modifiers { shift: (pb & 4) != 0, alt: (pb & 8) != 0, ctrl: (pb & 16) != 0 }
}

/// A coordinate field of an SGR report: 1-based decimal made 0-based; 1 when unreadable.
pub open spec fn sgr_coord(f: Seq<u8>) -> u16 {
    let v: nat = match parse_num(f, 65535) {
        Some(v) => v,
        None => 1,
    };
    if v >= 1 { (v - 1) as u16 } else { 0 }
}

/// The event of an SGR mouse report whose parameters are `p` (`Pb;Px;Py`), ending in
/// `M` (press) or `m` (release); `None` when there are fewer than three fields.
pub open spec fn sgr_event(p: Seq<u8>, release: bool) -> Option<InputEvent> {
    match first_semi(p, 0) {
        None => None,
        Some(i1) => match first_semi(p, i1 + 1) {
            None => None,
            Some(i2) => {
                let f0 = p.subrange(0, i1);
                let f1 = p.subrange(i1 + 1, i2);
                let f2 = match first_semi(p, i2 + 1) {
                    Some(i3) => p.subrange(i2 + 1, i3),
                    None => p.subrange(i2 + 1, p.len() as int),
                };
                Some(sgr_mouse(f0, f1, f2, release))
            },
        },
    }
}

/// The mouse event of SGR fields `f0;f1;f2`.
pub open spec fn sgr_mouse(f0: Seq<u8>, f1: Seq<u8>, f2: Seq<u8>, release: bool) -> InputEvent {
    let pb: u8 = match parse_num(f0, 255) {
        Some(v) => v as u8,
        None => 0,
    };
    let (button, ev) = sgr_button(pb);
    let event = if release && button != MouseButton::NoButton { MouseEvent::Release } else { ev };
    InputEvent::Mouse { x: sgr_coord(f1), y: sgr_coord(f2), button, event, modifiers: sgr_mods(pb) }
}

/// Length of the UTF-8 sequence a leading byte announces (0 if it announces none).
pub open spec fn utf8_len(b0: u8) -> int {
    if b0 & 0xE0 == 0xC0 {
        2
    } else if b0 & 0xF0 == 0xE0 {
        3
    } else if b0 & 0xF8 == 0xF0 {
        4
    } else {
        0
    }
}

/// The step for an SGR mouse report `ESC [ < ...` at the front of `s`.
pub open spec fn sgr_step(s: Seq<u8>) -> ParseStep {
    match first_mouse_end(s, 3) {
        None => ParseStep::Incomplete,
        Some(j) => match sgr_event(s.subrange(3, j), s[j] == 109) {
            Some(e) => ParseStep::Event(e, (j + 1) as usize),
            None => ParseStep::Skip((j + 1) as usize),
        },
    }
}

/// The step for an X10 mouse report `ESC [ M Cb Cx Cy` at the front of `s`.
pub open spec fn x10_step(s: Seq<u8>) -> ParseStep {
    if s.len() < 6 {
        ParseStep::Incomplete
    } else {
        let (button, event) = x10_button(s[3]);
        let x = if s[4] >= 32 { (s[4] - 32) as u16 } else { 0 };
        let y = if s[5] >= 32 { (s[5] - 32) as u16 } else { 0 };
        ParseStep::Event(InputEvent::Mouse { x, y, button, event, modifiers: x10_mods(s[3]) }, 6)
    }
}

/// The step for a key sequence `ESC [ params final` at the front of `s`.
pub open spec fn csi_key_step(s: Seq<u8>) -> ParseStep {
    match first_csi_final(s, 2) {
        None => ParseStep::Incomplete,
        Some(j) => match csi_key(s.subrange(2, j), s[j]) {
            Some(k) => ParseStep::Event(key_event(k), (j + 1) as usize),
            None => ParseStep::Skip((j + 1) as usize),
        },
    }
}

/// The step for a sequence starting with `ESC` at the front of `s`.
pub open spec fn escape_step(s: Seq<u8>) -> ParseStep {
    if s.len() < 2 {
        ParseStep::Incomplete
    } else if s[1] == 91 {
        if s.len() < 3 {
            ParseStep::Incomplete
        } else if s[2] == 60 {
            sgr_step(s)
        } else if s[2] == 77 {
            x10_step(s)
        } else {
            csi_key_step(s)
        }
    } else if s[1] == 79 {
        if s.len() < 3 {
            ParseStep::Incomplete
        } else {
            match ss3_key(s[2]) {
                Some(k) => ParseStep::Event(key_event(k), 3),
                None => ParseStep::Skip(3),
            }
        }
    } else if s[1] >= 32 {
        ParseStep::Event(InputEvent::Char { char: s[1] as char }, 2)
    } else {
        ParseStep::Skip(1)
    }
}

/// The step for a byte of 0x80 or above at the front of `s`: one UTF-8 character.
pub open spec fn utf8_step(s: Seq<u8>) -> ParseStep {
    let n = utf8_len(s[0]);
    if n == 0 {
        ParseStep::Skip(1)
    } else if s.len() < n {
        ParseStep::Incomplete
    } else if valid_utf8(s.subrange(0, n)) {
        ParseStep::Event(InputEvent::Char { char: decode_utf8(s.subrange(0, n))[0] }, n as usize)
    } else {
        ParseStep::Skip(1)
    }
}

/// One parsing step at the front of the non-empty byte sequence `s`.
#[verifier::opaque]
pub open spec fn parse_one(s: Seq<u8>) -> ParseStep {
    let b0 = s[0];
    if b0 == 0x1b {
        escape_step(s)
    } else if b0 == 0x0d || b0 == 0x0a {
        ParseStep::Event(key_event(Key::Enter), 1)
    } else if b0 == 0x09 {
        ParseStep::Event(key_event(Key::Tab), 1)
    } else if b0 == 0x08 || b0 == 0x7f {
        ParseStep::Event(key_event(Key::Backspace), 1)
    } else if b0 < 128 {
        ParseStep::Event(InputEvent::Char { char: b0 as char }, 1)
    } else {
        utf8_step(s)
    }
}

/// Events parsed from `s`, and the bytes left waiting for more input.
pub open spec fn parse_all(s: Seq<u8>) -> (Seq<InputEvent>, Seq<u8>)
    decreases s.len(),
{
    if s.len() == 0 {
        (Seq::empty(), s)
    } else {
        match parse_one(s) {
            ParseStep::Event(e, n) => if 1 <= n <= s.len() {
                let (es, rest) = parse_all(s.skip(n as int));
                (seq![e] + es, rest)
            } else {
                (Seq::empty(), s)
            },
            ParseStep::Skip(n) => if 1 <= n <= s.len() {
                parse_all(s.skip(n as int))
            } else {
                (Seq::empty(), s)
            },
            ParseStep::Incomplete => (Seq::empty(), s),
        }
    }
}

/// Relies on `std::str::from_utf8`: the bytes are accepted exactly when they are
/// valid UTF-8, and then read as the characters of that encoding.
#[verifier::external_body]
fn utf8_str(b: &[u8]) -> (r: Option<&str>)
    ensures
        r is Some <==> valid_utf8(b@),
        r is Some ==> r->0@ == decode_utf8(b@),
{
    std::str::from_utf8(b).ok()
}

fn find_csi_final(b: &Vec<u8>, p: usize, i: usize) -> (r: Option<usize>)
    requires
        p <= b@.len(),
    ensures
        r is Some ==> first_csi_final(b@.skip(p as int), i as int) == Some(r->0 as int) && p + r->0 < b@.len() && i <= r->0,
        r is None ==> first_csi_final(b@.skip(p as int), i as int) is None,
{
    let ghost s = b@.skip(p as int);
    let mut k: usize = i;
    while p < b.len() && k < b.len() - p
        invariant
            p <= b@.len(),
            s == b@.skip(p as int),
            i <= k,
            first_csi_final(s, i as int) == first_csi_final(s, k as int),
        decreases b@.len() - p - k,
    {
        let c = b[p + k];
        if (65 <= c && c <= 90) || (97 <= c && c <= 122) || c == 126 {
            return Some(k);
        }
        k += 1;
    }
    None
}

fn find_mouse_end(b: &Vec<u8>, p: usize, i: usize) -> (r: Option<usize>)
    requires
        p <= b@.len(),
    ensures
        r is Some ==> first_mouse_end(b@.skip(p as int), i as int) == Some(r->0 as int) && p + r->0 < b@.len() && i <= r->0,
        r is None ==> first_mouse_end(b@.skip(p as int), i as int) is None,
{
    let ghost s = b@.skip(p as int);
    let mut k: usize = i;
    while p < b.len() && k < b.len() - p
        invariant
            p <= b@.len(),
            s == b@.skip(p as int),
            i <= k,
            first_mouse_end(s, i as int) == first_mouse_end(s, k as int),
        decreases b@.len() - p - k,
    {
        let c = b[p + k];
        if c == 77 || c == 109 {
            return Some(k);
        }
        k += 1;
    }
    None
}

/// First `;` at or after `i` and before `end`, in `s = b[p..]`.
pub(crate) fn find_semi(b: &Vec<u8>, lo: usize, i: usize, hi: usize) -> (r: Option<usize>)
    requires
        lo <= i <= hi <= b@.len(),
    ensures
        match r {
            Some(j) => first_semi(b@.subrange(lo as int, hi as int), i - lo) == Some(j - lo) && i <= j < hi,
            None => first_semi(b@.subrange(lo as int, hi as int), i - lo) is None,
        },
{
    let ghost s = b@.subrange(lo as int, hi as int);
    let mut k: usize = i;
    while k < hi
        invariant
            lo <= i <= k <= hi <= b@.len(),
            s == b@.subrange(lo as int, hi as int),
            first_semi(s, i - lo) == first_semi(s, k - lo),
        decreases hi - k,
    {
        if b[k] == 59 {
            return Some(k);
        }
        k += 1;
    }
    None
}

/// `parse_num` of `b[lo..hi]`.
pub(crate) fn parse_field(b: &Vec<u8>, lo: usize, hi: usize, max: u32) -> (r: Option<u32>)
    requires
        lo <= hi <= b@.len(),
        max < 100000,
    ensures
        match r {
            Some(v) => parse_num(b@.subrange(lo as int, hi as int), max as nat) == Some(v as nat),
            None => parse_num(b@.subrange(lo as int, hi as int), max as nat) is None,
        },
{
    let ghost s = b@.subrange(lo as int, hi as int);
    if lo == hi {
        return None;
    }
    let mut v: u32 = 0;
    let mut big = false;
    let mut k: usize = lo;
    while k < hi
        invariant
            lo <= k <= hi <= b@.len(),
            s == b@.subrange(lo as int, hi as int),
            max < 100000,
            all_digits(s.take(k - lo)),
            big <==> digits_value(s.take(k - lo)) > max,
            !big ==> v == digits_value(s.take(k - lo)),
        decreases hi - k,
    {
        let c = b[k];
        if c < 48 || c > 57 {
            proof {
                assert(!is_digit(s[k - lo]));
            }
            return None;
        }
        proof {
            let t = s.take(k - lo + 1);
            assert(t.drop_last() =~= s.take(k - lo));
            assert(t.last() == c);
        }
        if !big {
            let nv: u32 = v * 10 + (c - 48) as u32;
            if nv > max {
                big = true;
            } else {
                v = nv;
            }
        }
        k += 1;
    }
    assert(s.take(hi - lo) =~= s);
    if big {
        None
    } else {
        Some(v)
    }
}

fn sgr_button_exec(pb: u8) -> (r: (MouseButton, MouseEvent))
    ensures
        r == sgr_button(pb),
{
    let bits = pb & 3;
    let motion = (pb & 0x20) != 0;
    let button = if (pb & 0x40) != 0 {
        if bits == 0 {
            MouseButton::WheelUp
        } else if bits == 1 {
            MouseButton::WheelDown
        } else {
            MouseButton::NoButton
        }
    } else if bits == 0 {
        MouseButton::Left
    } else if bits == 1 {
        MouseButton::Middle
    } else if bits == 2 {
        MouseButton::Right
    } else {
        MouseButton::NoButton
    };
    let event = if motion && button != MouseButton::NoButton {
        MouseEvent::Drag
    } else if motion {
        MouseEvent::Move
    } else {
        MouseEvent::Press
    };
    (button, event)
}

fn x10_button_exec(cb: u8) -> (r: (MouseButton, MouseEvent))
    ensures
        r == x10_button(cb),
{
    let b: u8 = if cb >= 32 { cb - 32 } else { 0 };
    let bits = b & 3;
    let motion = (b & 0x20) != 0;
    let plain = if bits == 0 {
        MouseButton::Left
    } else if bits == 1 {
        MouseButton::Middle
    } else if bits == 2 {
        MouseButton::Right
    } else {
        MouseButton::NoButton
    };
    let button = if (b & 0x40) != 0 && bits == 0 {
        MouseButton::WheelUp
    } else if (b & 0x40) != 0 && bits == 1 {
        MouseButton::WheelDown
    } else {
        plain
    };
    let event = if bits == 3 {
        MouseEvent::Release
    } else if motion {
        MouseEvent::Drag
    } else {
        MouseEvent::Press
    };
    (button, event)
}

fn coord_of(v: Option<u32>) -> (r: u16)
    requires
        v is Some ==> v->0 <= 65535,
    ensures
        r == (if (match v { Some(x) => x as nat, None => 1nat }) >= 1 { ((match v { Some(x) => x as nat, None => 1nat }) - 1) as u16 } else { 0u16 }),
{
    let n: u32 = match v {
        Some(x) => x,
        None => 1,
    };
    if n >= 1 {
        (n - 1) as u16
    } else {
        0
    }
}

fn sgr_mouse_exec(b: &Vec<u8>, a0: usize, e0: usize, a1: usize, e1: usize, a2: usize, e2: usize, release: bool) -> (r: InputEvent)
    requires
        a0 <= e0 <= b@.len(),
        a1 <= e1 <= b@.len(),
        a2 <= e2 <= b@.len(),
    ensures
        r == sgr_mouse(b@.subrange(a0 as int, e0 as int), b@.subrange(a1 as int, e1 as int), b@.subrange(a2 as int, e2 as int), release),
{
    let f0 = parse_field(b, a0, e0, 255);
    let f1 = parse_field(b, a1, e1, 65535);
    let f2 = parse_field(b, a2, e2, 65535);
    let pb: u8 = match f0 {
        Some(v) => v as u8,
        None => 0,
    };
    let (button, ev) = sgr_button_exec(pb);
    let event = if release && button != MouseButton::NoButton { MouseEvent::Release } else { ev };
    let x = coord_of(f1);
    let y = coord_of(f2);
    let modifiers = Modifiers { shift: (pb & 4) != 0, alt: (pb & 8) != 0, ctrl: (pb & 16) != 0 };
    InputEvent::Mouse { x, y, button, event, modifiers }
}

fn sgr_event_exec(b: &Vec<u8>, lo: usize, hi: usize, release: bool) -> (r: Option<InputEvent>)
    requires
        lo <= hi <= b@.len(),
    ensures
        r == sgr_event(b@.subrange(lo as int, hi as int), release),
{
    let ghost prm = b@.subrange(lo as int, hi as int);
    let i1 = find_semi(b, lo, lo, hi);
    if i1.is_none() {
        return None;
    }
    let i1 = i1.unwrap();
    let i2 = find_semi(b, lo, i1 + 1, hi);
    if i2.is_none() {
        return None;
    }
    let i2 = i2.unwrap();
    let i3 = find_semi(b, lo, i2 + 1, hi);
    let end2: usize = match i3 {
        Some(k) => k,
        None => hi,
    };
    proof {
        assert(prm.subrange(0, i1 - lo) =~= b@.subrange(lo as int, i1 as int));
        assert(prm.subrange(i1 - lo + 1, i2 - lo) =~= b@.subrange(i1 + 1, i2 as int));
        assert(prm.subrange(i2 - lo + 1, end2 - lo) =~= b@.subrange(i2 + 1, end2 as int));
        assert(prm.subrange(i2 - lo + 1, prm.len() as int) =~= b@.subrange(i2 + 1, hi as int));
    }
    Some(sgr_mouse_exec(b, lo, i1, i1 + 1, i2, i2 + 1, end2, release))
}

/// The SGR report step, for `s = b[p..]` starting with `ESC [ <`.
fn sgr_step_exec(b: &Vec<u8>, p: usize) -> (r: ParseStep)
    requires
        p + 3 <= b@.len(),
    ensures
        r == sgr_step(b@.skip(p as int)),
{
    let ghost s = b@.skip(p as int);
    let _n = b.len();
    match find_mouse_end(b, p, 3) {
        None => ParseStep::Incomplete,
        Some(j) => {
            let lo = p + 3;
            let hi = p + j;
            assert(s.subrange(3, j as int) =~= b@.subrange(lo as int, hi as int));
            let release = b[hi] == 109;
            match sgr_event_exec(b, lo, hi, release) {
                Some(e) => ParseStep::Event(e, j + 1),
                None => ParseStep::Skip(j + 1),
            }
        },
    }
}

fn tilde_exec(b: &Vec<u8>, lo: usize, hi: usize) -> (r: Option<Key>)
    requires
        lo <= hi <= b@.len(),
    ensures
        r == tilde_key(digits_value(lead_digits(b@.subrange(lo as int, hi as int)))),
{
    let ghost prm = b@.subrange(lo as int, hi as int);
    let mut v: u32 = 0;
    let mut k: usize = lo;
    while k < hi && b[k] >= 48 && b[k] <= 57
        invariant
            lo <= k <= hi <= b@.len(),
            prm == b@.subrange(lo as int, hi as int),
            first_non_digit(prm, 0) == first_non_digit(prm, k - lo),
            v as nat == if digits_value(prm.take(k - lo)) < 1000 { digits_value(prm.take(k - lo)) } else { 1000 },
        decreases hi - k,
    {
        proof {
            let t = prm.take(k - lo + 1);
            assert(t.drop_last() =~= prm.take(k - lo));
        }
        let nv = v * 10 + (b[k] - 48) as u32;
        v = if nv < 1000 { nv } else { 1000 };
        k += 1;
    }
    let n = v as u8;
    let r = if v >= 256 {
        None
    } else if n == 1 {
        Some(Key::Home)
    } else if n == 2 {
        Some(Key::Insert)
    } else if n == 3 {
        Some(Key::Delete)
    } else if n == 4 {
        Some(Key::End)
    } else if n == 5 {
        Some(Key::PageUp)
    } else if n == 6 {
        Some(Key::PageDown)
    } else if n == 15 {
        Some(Key::F5)
    } else if n == 17 {
        Some(Key::F6)
    } else if n == 18 {
        Some(Key::F7)
    } else if n == 19 {
        Some(Key::F8)
    } else if n == 20 {
        Some(Key::F9)
    } else if n == 21 {
        Some(Key::F10)
    } else if n == 23 {
        Some(Key::F11)
    } else if n == 24 {
        Some(Key::F12)
    } else {
        None
    };
    r
}

fn csi_key_exec(b: &Vec<u8>, lo: usize, hi: usize, f: u8) -> (r: Option<Key>)
    requires
        lo <= hi <= b@.len(),
    ensures
        r == csi_key(b@.subrange(lo as int, hi as int), f),
{
    if f == 65 {
        Some(Key::Up)
    } else if f == 66 {
        Some(Key::Down)
    } else if f == 67 {
        Some(Key::Right)
    } else if f == 68 {
        Some(Key::Left)
    } else if f == 72 {
        Some(Key::Home)
    } else if f == 70 {
        Some(Key::End)
    } else if f == 126 {
        tilde_exec(b, lo, hi)
    } else {
        None
    }
}

fn ss3_key_exec(c: u8) -> (r: Option<Key>)
    ensures
        r == ss3_key(c),
{
    if c == 80 {
        Some(Key::F1)
    } else if c == 81 {
        Some(Key::F2)
    } else if c == 82 {
        Some(Key::F3)
    } else if c == 83 {
        Some(Key::F4)
    } else if c == 65 {
        Some(Key::Up)
    } else if c == 66 {
        Some(Key::Down)
    } else if c == 67 {
        Some(Key::Right)
    } else if c == 68 {
        Some(Key::Left)
    } else if c == 72 {
        Some(Key::Home)
    } else if c == 70 {
        Some(Key::End)
    } else {
        None
    }
}

fn x10_step_exec(b: &Vec<u8>, p: usize) -> (r: ParseStep)
    requires
        p + 3 <= b@.len(),
    ensures
        r == x10_step(b@.skip(p as int)),
{
    if b.len() - p < 6 {
        return ParseStep::Incomplete;
    }
    let cb = b[p + 3];
    let cx = b[p + 4];
    let cy = b[p + 5];
    let (button, event) = x10_button_exec(cb);
    let x: u16 = if cx >= 32 { (cx - 32) as u16 } else { 0 };
    let y: u16 = if cy >= 32 { (cy - 32) as u16 } else { 0 };
    let c: u8 = if cb >= 32 { cb - 32 } else { 0 };
    let modifiers = Modifiers { shift: (c & 4) != 0, alt: (c & 8) != 0, ctrl: (c & 16) != 0 };
    ParseStep::Event(InputEvent::Mouse { x, y, button, event, modifiers }, 6)
}

fn csi_key_step_exec(b: &Vec<u8>, p: usize) -> (r: ParseStep)
    requires
        p + 3 <= b@.len(),
    ensures
        r == csi_key_step(b@.skip(p as int)),
{
    let ghost s = b@.skip(p as int);
    let _n = b.len();
    match find_csi_final(b, p, 2) {
        None => ParseStep::Incomplete,
        Some(j) => {
            assert(s.subrange(2, j as int) =~= b@.subrange(p + 2, p + j));
            match csi_key_exec(b, p + 2, p + j, b[p + j]) {
                Some(k) => ParseStep::Event(InputEvent::Key { key: k }, j + 1),
                None => ParseStep::Skip(j + 1),
            }
        },
    }
}

fn escape_step_exec(b: &Vec<u8>, p: usize) -> (r: ParseStep)
    requires
        p < b@.len(),
    ensures
        r == escape_step(b@.skip(p as int)),
{
    let n = b.len() - p;
    if n < 2 {
        return ParseStep::Incomplete;
    }
    let c1 = b[p + 1];
    if c1 == 91 {
        if n < 3 {
            ParseStep::Incomplete
        } else if b[p + 2] == 60 {
            sgr_step_exec(b, p)
        } else if b[p + 2] == 77 {
            x10_step_exec(b, p)
        } else {
            csi_key_step_exec(b, p)
        }
    } else if c1 == 79 {
        if n < 3 {
            ParseStep::Incomplete
        } else {
            match ss3_key_exec(b[p + 2]) {
                Some(k) => ParseStep::Event(InputEvent::Key { key: k }, 3),
                None => ParseStep::Skip(3),
            }
        }
    } else if c1 >= 32 {
        ParseStep::Event(InputEvent::Char { char: c1 as char }, 2)
    } else {
        ParseStep::Skip(1)
    }
}

fn utf8_step_exec(b: &Vec<u8>, p: usize) -> (r: ParseStep)
    requires
        p < b@.len(),
    ensures
        r == utf8_step(b@.skip(p as int)),
{
    let ghost s = b@.skip(p as int);
    let _len = b.len();
    let b0 = b[p];
    let n: usize = if b0 & 0xE0 == 0xC0 {
        2
    } else if b0 & 0xF0 == 0xE0 {
        3
    } else if b0 & 0xF8 == 0xF0 {
        4
    } else {
        0
    };
    if n == 0 {
        return ParseStep::Skip(1);
    }
    if b.len() - p < n {
        return ParseStep::Incomplete;
    }
    let mut v: Vec<u8> = Vec::new();
    let mut k: usize = 0;
    while k < n
        invariant
            k <= n,
            p + n <= b@.len(),
            b@.len() <= usize::MAX,
            v@ == b@.subrange(p as int, p + k),
        decreases n - k,
    {
        v.push(b[p + k]);
        k += 1;
        assert(v@ =~= b@.subrange(p as int, p + k));
    }
    assert(v@ =~= s.subrange(0, n as int));
    match utf8_str(v.as_slice()) {
        Some(t) => {
            let cs = crate::text::chars_of(t);
            assert(decode_utf8(v@).len() > 0);
            ParseStep::Event(InputEvent::Char { char: cs[0] }, n)
        },
        None => ParseStep::Skip(1),
    }
}

/// One parsing step at position `p` of `b`.
fn try_parse_one(b: &Vec<u8>, p: usize) -> (r: ParseStep)
    requires
        p < b@.len(),
    ensures
        r == parse_one(b@.skip(p as int)),
{
    reveal(parse_one);
    let b0 = b[p];
    if b0 == 0x1b {
        escape_step_exec(b, p)
    } else if b0 == 0x0d || b0 == 0x0a {
        ParseStep::Event(InputEvent::Key { key: Key::Enter }, 1)
    } else if b0 == 0x09 {
        ParseStep::Event(InputEvent::Key { key: Key::Tab }, 1)
    } else if b0 == 0x08 || b0 == 0x7f {
        ParseStep::Event(InputEvent::Key { key: Key::Backspace }, 1)
    } else if b0 < 128 {
        ParseStep::Event(InputEvent::Char { char: b0 as char }, 1)
    } else {
        utf8_step_exec(b, p)
    }
}

proof fn lemma_first_csi_final_range(s: Seq<u8>, i: int)
    ensures
        first_csi_final(s, i) is Some ==> i <= first_csi_final(s, i)->0 < s.len(),
    decreases s.len() - i,
{
    if 0 <= i < s.len() && !is_csi_final(s[i]) {
        lemma_first_csi_final_range(s, i + 1);
    }
}

proof fn lemma_first_mouse_end_range(s: Seq<u8>, i: int)
    ensures
        first_mouse_end(s, i) is Some ==> i <= first_mouse_end(s, i)->0 < s.len(),
    decreases s.len() - i,
{
    if 0 <= i < s.len() && !(s[i] == 77 || s[i] == 109) {
        lemma_first_mouse_end_range(s, i + 1);
    }
}

/// A step that takes bytes takes at least one, and no more than there are.
proof fn lemma_step_size(s: Seq<u8>)
    requires
        s.len() > 0,
        s.len() <= usize::MAX,
    ensures
        parse_one(s) matches ParseStep::Event(_, n) ==> 1 <= n <= s.len(),
        parse_one(s) matches ParseStep::Skip(n) ==> 1 <= n <= s.len(),
{
    reveal(parse_one);
    lemma_first_csi_final_range(s, 2);
    lemma_first_mouse_end_range(s, 3);
}

/// The input parser: bytes not yet forming an event wait in its buffer.
pub struct InputParser {
    buffer: Vec<u8>,
}

impl View for InputParser {
    type V = Seq<u8>;

    closed spec fn view(&self) -> Seq<u8> {
        self.buffer@
    }
}

impl InputParser {
    /// A parser with an empty buffer.
    pub fn new() -> (r: InputParser)
        ensures
            r@ == Seq::<u8>::empty(),
    {
        InputParser { buffer: Vec::new() }
    }

    /// Appends `data` to the buffer and parses as many events as it can; the bytes
    /// of an unfinished sequence stay buffered for the next call.
    pub fn parse(&mut self, data: &[u8]) -> (r: Vec<InputEvent>)
        ensures
            r@ == parse_all(old(self)@ + data@).0,
            final(self)@ == parse_all(old(self)@ + data@).1,
    {
        let mut all: Vec<u8> = Vec::new();
        let mut i: usize = 0;
        while i < self.buffer.len()
            invariant
                i <= self.buffer@.len(),
                self@ == old(self)@,
                all@ == self.buffer@.take(i as int),
            decreases self.buffer@.len() - i,
        {
            all.push(self.buffer[i]);
            i += 1;
            assert(all@ =~= self.buffer@.take(i as int));
        }
        let mut j: usize = 0;
        while j < data.len()
            invariant
                j <= data@.len(),
                self@ == old(self)@,
                self.buffer@.take(self.buffer@.len() as int) == self.buffer@,
                all@ == self.buffer@ + data@.take(j as int),
            decreases data@.len() - j,
        {
            all.push(data[j]);
            j += 1;
            assert(all@ =~= self.buffer@ + data@.take(j as int));
        }
        assert(self.buffer@.take(self.buffer@.len() as int) =~= self.buffer@);
        assert(data@.take(data@.len() as int) =~= data@);
        let ghost whole = all@;
        let mut events: Vec<InputEvent> = Vec::new();
        let mut p: usize = 0;
        assert(whole.skip(0) =~= whole);
        assert(events@ + parse_all(whole).0 =~= parse_all(whole).0);
        while p < all.len()
            invariant
                p <= all@.len(),
                all@ == whole,
                whole == old(self)@ + data@,
                parse_all(whole) == (events@ + parse_all(whole.skip(p as int)).0, parse_all(whole.skip(p as int)).1),
            ensures
                p <= all@.len(),
                all@ == whole,
                parse_all(whole) == (events@ + parse_all(whole.skip(p as int)).0, parse_all(whole.skip(p as int)).1),
                parse_all(whole.skip(p as int)) == (Seq::<InputEvent>::empty(), whole.skip(p as int)),
            decreases all@.len() - p,
        {
            let ghost s = whole.skip(p as int);
            proof {
                lemma_step_size(s);
            }
            match try_parse_one(&all, p) {
                ParseStep::Event(e, n) => {
                    let ghost before = events@;
                    events.push(e);
                    assert(s.skip(n as int) =~= whole.skip(p + n));
                    assert(parse_all(s).0 == seq![e] + parse_all(s.skip(n as int)).0);
                    assert(before + parse_all(s).0 =~= events@ + parse_all(s.skip(n as int)).0);
                    p = p + n;
                },
                ParseStep::Skip(n) => {
                    assert(s.skip(n as int) =~= whole.skip(p + n));
                    p = p + n;
                },
                ParseStep::Incomplete => {
                    assert(parse_all(s) == (Seq::<InputEvent>::empty(), s));
                    assert(events@ + parse_all(s).0 =~= events@);
                    break;
                },
            }
        }

        assert(events@ + Seq::<InputEvent>::empty() =~= events@);
        let mut rest: Vec<u8> = Vec::new();
        let mut k: usize = p;
        while k < all.len()
            invariant
                p <= k <= all@.len(),
                all@ == whole,
                rest@ == all@.subrange(p as int, k as int),
            decreases all@.len() - k,
        {
            rest.push(all[k]);
            k += 1;
            assert(rest@ =~= all@.subrange(p as int, k as int));
        }
        assert(rest@ =~= whole.skip(p as int));
        self.buffer = rest;
        events
    }
}

impl Default for InputParser {
    fn default() -> (r: InputParser)
        ensures
            r@ == Seq::<u8>::empty(),
    {
        InputParser::new()
    }
}

proof fn lemma_csi_final_stable(s: Seq<u8>, t: Seq<u8>, i: int)
    requires
        first_csi_final(s, i) is Some,
    ensures
        first_csi_final(s + t, i) == first_csi_final(s, i),
    decreases s.len() - i,
{
    if 0 <= i < s.len() && !is_csi_final(s[i]) {
        lemma_csi_final_stable(s, t, i + 1);
    }
}

proof fn lemma_mouse_end_stable(s: Seq<u8>, t: Seq<u8>, i: int)
    requires
        first_mouse_end(s, i) is Some,
    ensures
        first_mouse_end(s + t, i) == first_mouse_end(s, i),
    decreases s.len() - i,
{
    if 0 <= i < s.len() && !(s[i] == 77 || s[i] == 109) {
        lemma_mouse_end_stable(s, t, i + 1);
    }
}

/// A step that takes bytes from `s` is the same step when more bytes follow.
proof fn lemma_parse_one_stable(s: Seq<u8>, t: Seq<u8>)
    requires
        s.len() > 0,
        !(parse_one(s) is Incomplete),
    ensures
        parse_one(s + t) == parse_one(s),
{
    reveal(parse_one);
    let u = s + t;
    assert(u[0] == s[0]);
    if s.len() >= 2 {
        assert(u[1] == s[1]);
    }
    if s.len() >= 3 {
        assert(u[2] == s[2]);
    }
    if s.len() >= 6 {
        assert(u[3] == s[3] && u[4] == s[4] && u[5] == s[5]);
    }
    if first_csi_final(s, 2) is Some {
        lemma_csi_final_stable(s, t, 2);
        lemma_first_csi_final_range(s, 2);
        let j = first_csi_final(s, 2)->0;
        assert(u.subrange(2, j) =~= s.subrange(2, j));
        assert(u[j] == s[j]);
    }
    if first_mouse_end(s, 3) is Some {
        lemma_mouse_end_stable(s, t, 3);
        lemma_first_mouse_end_range(s, 3);
        let j = first_mouse_end(s, 3)->0;
        assert(u.subrange(3, j) =~= s.subrange(3, j));
        assert(u[j] == s[j]);
    }
    let n = utf8_len(s[0]);
    if 0 < n <= s.len() {
        assert(u.subrange(0, n) =~= s.subrange(0, n));
    }
}

/// Parsing is prefix-stable: feeding `a` and then `b` yields the same events as
/// feeding `a + b` at once, and leaves the same bytes waiting.
pub proof fn lemma_parse_prefix_stable(a: Seq<u8>, b: Seq<u8>)
    requires
        a.len() + b.len() <= usize::MAX,
    ensures
        parse_all(a + b) == (parse_all(a).0 + parse_all(parse_all(a).1 + b).0, parse_all(parse_all(a).1 + b).1),
    decreases a.len(),
{
    if a.len() == 0 {
        assert(a + b =~= b);
        assert(parse_all(a).1 =~= a);
        assert(Seq::<InputEvent>::empty() + parse_all(b).0 =~= parse_all(b).0);
    } else {
        lemma_step_size(a);
        let u = a + b;
        assert(u.len() > 0);
        match parse_one(a) {
            ParseStep::Event(e, n) => {
                lemma_parse_one_stable(a, b);
                assert(u.skip(n as int) =~= a.skip(n as int) + b);
                lemma_parse_prefix_stable(a.skip(n as int), b);
                assert(seq![e] + (parse_all(a.skip(n as int)).0 + parse_all(parse_all(a.skip(n as int)).1 + b).0)
                    =~= (seq![e] + parse_all(a.skip(n as int)).0) + parse_all(parse_all(a.skip(n as int)).1 + b).0);
            },
            ParseStep::Skip(n) => {
                lemma_parse_one_stable(a, b);
                assert(u.skip(n as int) =~= a.skip(n as int) + b);
                lemma_parse_prefix_stable(a.skip(n as int), b);
            },
            ParseStep::Incomplete => {
                assert(Seq::<InputEvent>::empty() + parse_all(a + b).0 =~= parse_all(a + b).0);
            },
        }
    }
}

proof fn lemma_scan_mouse_end(s: Seq<u8>, i: int, j: int)
    requires
        0 <= i <= j < s.len(),
        s[j] == 77 || s[j] == 109,
        forall|k: int| i <= k < j ==> !(s[k] == 77 || #[trigger] s[k] == 109),
    ensures
        first_mouse_end(s, i) == Some(j),
    decreases j - i,
{
    if i < j {
        assert(!(s[i] == 77 || s[i] == 109));
        lemma_scan_mouse_end(s, i + 1, j);
    }
}

proof fn lemma_scan_semi(s: Seq<u8>, i: int, j: int)
    requires
        0 <= i <= j <= s.len(),
        forall|k: int| i <= k < j ==> #[trigger] s[k] != 59,
        j < s.len() ==> s[j] == 59,
    ensures
        first_semi(s, i) == (if j < s.len() { Some(j) } else { None::<int> }),
    decreases j - i,
{
    if i < j {
        assert(s[i] != 59);
        lemma_scan_semi(s, i + 1, j);
    }
}

/// An SGR mouse press report `ESC [ < Pb ; Px ; Py M` (decimal fields, with
/// coordinates from 1 to 65535) always gives the 0-based coordinates `(Px-1, Py-1)`.
pub proof fn lemma_sgr_mouse_coords(f0: Seq<u8>, f1: Seq<u8>, f2: Seq<u8>, rest: Seq<u8>)
    requires
        all_digits(f0),
        all_digits(f1),
        all_digits(f2),
        f1.len() > 0,
        f2.len() > 0,
        1 <= digits_value(f1) <= 65535,
        1 <= digits_value(f2) <= 65535,
        f0.len() + f1.len() + f2.len() + rest.len() + 7 <= usize::MAX,
    ensures
        ({
            let s = seq![0x1bu8, 91u8, 60u8] + f0 + seq![59u8] + f1 + seq![59u8] + f2 + seq![77u8] + rest;
            &&& parse_one(s) matches ParseStep::Event(InputEvent::Mouse { x, y, .. }, n)
            &&& x == digits_value(f1) - 1
            &&& y == digits_value(f2) - 1
            &&& n == f0.len() + f1.len() + f2.len() + 6
        }),
{
    reveal(parse_one);
    let p = f0 + seq![59u8] + f1 + seq![59u8] + f2;
    let s = seq![0x1bu8, 91u8, 60u8] + f0 + seq![59u8] + f1 + seq![59u8] + f2 + seq![77u8] + rest;
    let j: int = 3 + p.len() as int;
    assert(s =~= seq![0x1bu8, 91u8, 60u8] + p + seq![77u8] + rest);
    assert forall|k: int| 3 <= k < j implies !(s[k] == 77 || #[trigger] s[k] == 109) by {
        assert(s[k] == p[k - 3]);
        let q = k - 3;
        if q < f0.len() {
            assert(p[q] == f0[q]);
        } else if q == f0.len() {
        } else if q < f0.len() + 1 + f1.len() {
            assert(p[q] == f1[q - f0.len() - 1]);
        } else if q == f0.len() + 1 + f1.len() {
        } else {
            assert(p[q] == f2[q - f0.len() - 2 - f1.len()]);
        }
    }
    lemma_scan_mouse_end(s, 3, j);
    assert(s.subrange(3, j) =~= p);
    let i1 = f0.len() as int;
    let i2 = i1 + 1 + f1.len();
    assert forall|k: int| 0 <= k < i1 implies #[trigger] p[k] != 59 by {
        assert(p[k] == f0[k]);
    }
    lemma_scan_semi(p, 0, i1);
    assert forall|k: int| i1 + 1 <= k < i2 implies #[trigger] p[k] != 59 by {
        assert(p[k] == f1[k - i1 - 1]);
    }
    lemma_scan_semi(p, i1 + 1, i2);
    assert forall|k: int| i2 + 1 <= k < p.len() implies #[trigger] p[k] != 59 by {
        assert(p[k] == f2[k - i2 - 1]);
    }
    lemma_scan_semi(p, i2 + 1, p.len() as int);
    assert(p.subrange(i1 + 1, i2) =~= f1);
    assert(p.subrange(i2 + 1, p.len() as int) =~= f2);
}

} // verus!
