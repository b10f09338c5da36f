use ascii_processing_unit::input::{InputEvent, InputParser, Key, MouseButton, MouseEvent};

#[test]
fn test_parse_char() {
    let mut parser = InputParser::new();
    let events = parser.parse(b"a");
    assert_eq!(events, vec![InputEvent::Char { char: 'a' }]);
}

#[test]
fn test_parse_arrow_keys() {
    let mut parser = InputParser::new();

    let events = parser.parse(b"\x1b[A");
    assert_eq!(events, vec![InputEvent::Key { key: Key::Up }]);

    let events = parser.parse(b"\x1b[B");
    assert_eq!(events, vec![InputEvent::Key { key: Key::Down }]);
}

#[test]
fn test_parse_sgr_mouse() {
    let mut parser = InputParser::new();

    let events = parser.parse(b"\x1b[<0;10;5M");
    assert_eq!(events.len(), 1);
    if let InputEvent::Mouse { x, y, button, event, .. } = &events[0] {
        assert_eq!(*x, 9);
        assert_eq!(*y, 4);
        assert_eq!(*button, MouseButton::Left);
        assert_eq!(*event, MouseEvent::Press);
    } else {
        panic!("Expected mouse event");
    }
}

#[test]
fn test_parse_multiple() {
    let mut parser = InputParser::new();
    let events = parser.parse(b"abc\x1b[A");
    assert_eq!(events.len(), 4);
    assert_eq!(events[0], InputEvent::Char { char: 'a' });
    assert_eq!(events[1], InputEvent::Char { char: 'b' });
    assert_eq!(events[2], InputEvent::Char { char: 'c' });
    assert_eq!(events[3], InputEvent::Key { key: Key::Up });
}

fn mouse(events: &[InputEvent]) -> (u16, u16, MouseButton, MouseEvent) {
    match events[0] {
        InputEvent::Mouse { x, y, button, event, .. } => (x, y, button, event),
        _ => panic!("Expected mouse event"),
    }
}

#[test]
fn sgr_release_and_motion() {
    let mut p = InputParser::new();
    let e = p.parse(b"\x1b[<0;10;5m");
    assert_eq!(e.len(), 1);
    assert_eq!(mouse(&e), (9, 4, MouseButton::Left, MouseEvent::Release));
    let e = p.parse(b"\x1b[<35;10;5M");
    assert_eq!(e.len(), 1);
    assert_eq!(mouse(&e), (9, 4, MouseButton::NoButton, MouseEvent::Move));
    let e = p.parse(b"\x1b[<35;10;5m");
    assert_eq!(mouse(&e).3, MouseEvent::Move);
    let e = p.parse(b"\x1b[<32;1;1M");
    assert_eq!(mouse(&e), (0, 0, MouseButton::Left, MouseEvent::Drag));
}

#[test]
fn sgr_coordinates_are_one_based() {
    let mut p = InputParser::new();
    let e = p.parse(b"\x1b[<2;123;45M");
    assert_eq!(mouse(&e), (122, 44, MouseButton::Right, MouseEvent::Press));
}

#[test]
fn x10_mouse_report() {
    let mut p = InputParser::new();
    let e = p.parse(&[0x1b, b'[', b'M', 32, 33 + 5, 33 + 2]);
    assert_eq!(mouse(&e), (6, 3, MouseButton::Left, MouseEvent::Press));
    let e = p.parse(&[0x1b, b'[', b'M', 32 + 3, 40, 40]);
    assert_eq!(mouse(&e).3, MouseEvent::Release);
    let e = p.parse(&[0x1b, b'[', b'M', 32 + 64, 40, 40]);
    assert_eq!(mouse(&e).2, MouseButton::WheelUp);
}

#[test]
fn split_input_gives_same_events() {
    let whole = b"x\x1b[<0;10;5M\xc3\xa9\x1b[15~\x1bOP\r";
    let mut one = InputParser::new();
    let all = one.parse(whole);
    for cut in 0..whole.len() {
        let mut two = InputParser::new();
        let mut got = two.parse(&whole[..cut]);
        got.extend(two.parse(&whole[cut..]));
        assert_eq!(got, all, "cut at {}", cut);
    }
    assert_eq!(all.len(), 6);
    assert_eq!(all[2], InputEvent::Char { char: 'é' });
    assert_eq!(all[3], InputEvent::Key { key: Key::F5 });
    assert_eq!(all[4], InputEvent::Key { key: Key::F1 });
    assert_eq!(all[5], InputEvent::Key { key: Key::Enter });
}

#[test]
fn lone_escape_waits_and_controls_map() {
    let mut p = InputParser::new();
    assert!(p.parse(b"\x1b").is_empty());
    assert_eq!(p.parse(b"x"), vec![InputEvent::Char { char: 'x' }]);
    assert_eq!(p.parse(b"\t\x7f\x03"), vec![
        InputEvent::Key { key: Key::Tab },
        InputEvent::Key { key: Key::Backspace },
        InputEvent::Char { char: '\x03' },
    ]);
}

#[test]
fn invalid_utf8_is_dropped() {
    let mut p = InputParser::new();
    assert_eq!(p.parse(b"\xc3\x28a"), vec![InputEvent::Char { char: '(' }, InputEvent::Char { char: 'a' }]);
    assert_eq!(p.parse(b"\xff"), vec![]);
    assert_eq!(p.parse(b"\x1b[99~z"), vec![InputEvent::Char { char: 'z' }]);
}
