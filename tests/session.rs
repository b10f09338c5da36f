use ascii_processing_unit::input::{InputEvent, Key, MouseButton, MouseEvent};
use ascii_processing_unit::protocol::{route, BatchCell, BorderStyle, Command, Response, Route};
use ascii_processing_unit::terminal::{Terminal, TerminalType};
use ascii_processing_unit::session::{input_event_to_bytes, local_echo_bytes, ClientSession};

fn session(id: &str) -> ClientSession {
    ClientSession::new(id.to_string(), "127.0.0.1:1".to_string(), 0, 80, 24)
}

fn create(id: &str, x: usize, y: usize, w: usize, h: usize, title: Option<&str>) -> Command {
    Command::CreateWindow {
        id: id.to_string(), x, y, width: w, height: h, border: BorderStyle::Single,
        title: title.map(|t| t.to_string()), closable: true, resizable: true, draggable: true,
        min_width: 10, min_height: 5, invert: false,
    }
}

fn print(window: &str, text: &str, fg: u8) -> Command {
    Command::Print { window: window.to_string(), x: 0, y: 0, text: text.to_string(), fg, bg: 0 }
}

#[test]
fn print_in_window_then_flush() {
    let mut s = session("s");
    let (r, out) = s.process_command(Command::Init { cols: Some(80), rows: Some(24) });
    assert!(matches!(r, Response::Info { cols: 80, rows: 24, .. }));
    assert!(out.unwrap().contains("\x1b[2J"));
    assert!(matches!(s.process_command(create("w", 10, 5, 20, 5, Some("hi"))).0, Response::Ack));
    assert!(matches!(s.process_command(print("w", "X", 10)).0, Response::Ack));
    let (r, out) = s.process_command(Command::Flush { force_full: false });
    let out = out.unwrap();
    assert!(matches!(r, Response::Output { data } if data == out));
    let row7 = out.split("\x1b[7;1H").nth(1).unwrap().split("\x1b[8;1H").next().unwrap();
    assert!(row7.contains("92"));
    assert!(row7.contains('X'));
}

#[test]
fn targeted_print_reaches_one_session() {
    let mut a = session("session_A");
    let mut b = session("session_B");
    for s in [&mut a, &mut b] {
        s.process_command(create("w", 1, 1, 10, 4, None));
    }
    let target = Some("session_A".to_string());
    match route(&target) {
        Route::Session(id) => {
            for s in [&mut a, &mut b] {
                if s.id == id {
                    s.process_command(print("w", "A", 7));
                }
            }
        }
        Route::Broadcast => panic!("expected a single session"),
    }
    assert_eq!(route(&Some("*".to_string())), Route::Broadcast);
    assert_eq!(route(&None), Route::Broadcast);
    let oa = a.process_command(Command::Flush { force_full: true }).1.unwrap();
    let ob = b.process_command(Command::Flush { force_full: true }).1.unwrap();
    assert!(oa.contains('A'));
    assert!(!ob.contains('A'));
}

#[test]
fn drag_by_title_bar() {
    let mut s = session("s");
    s.process_command(create("w", 10, 5, 20, 5, None));
    let (ev, fwd) = s.handle_mouse_event(15, 5, MouseButton::Left, MouseEvent::Press, 1000);
    assert!(ev.is_empty() && !fwd);
    let (ev, fwd) = s.handle_mouse_event(25, 8, MouseButton::Left, MouseEvent::Drag, 1010);
    assert!(ev.is_empty() && !fwd);
    let (ev, fwd) = s.handle_mouse_event(25, 8, MouseButton::Left, MouseEvent::Release, 1020);
    assert!(!fwd);
    assert_eq!(ev.len(), 1);
    assert!(matches!(&ev[0], Response::WindowMoved { id, x: 20, y: 8 } if id == "w"));
    let w = s.windows.get("w").unwrap();
    assert_eq!((w.x, w.y), (20, 8));
}

#[test]
fn close_focus_double_click_and_resize() {
    let mut s = session("s");
    s.process_command(create("w", 10, 5, 20, 5, None));
    let (ev, fwd) = s.handle_mouse_event(11, 5, MouseButton::Left, MouseEvent::Press, 0);
    assert!(!fwd && matches!(&ev[0], Response::WindowCloseRequested { id } if id == "w"));
    let (ev, fwd) = s.handle_mouse_event(12, 7, MouseButton::Left, MouseEvent::Press, 0);
    assert!(fwd && matches!(&ev[0], Response::WindowFocused { id } if id == "w"));
    assert_eq!(s.focused_window.as_deref(), Some("w"));
    s.handle_mouse_event(15, 5, MouseButton::Left, MouseEvent::Press, 100);
    s.handle_mouse_event(15, 5, MouseButton::Left, MouseEvent::Release, 150);
    let (ev, _) = s.handle_mouse_event(15, 5, MouseButton::Left, MouseEvent::Press, 300);
    assert!(matches!(&ev[0], Response::WindowMaximizeRequested { id } if id == "w"));
    s.handle_mouse_event(15, 5, MouseButton::Left, MouseEvent::Release, 310);
    let (_, fwd) = s.handle_mouse_event(29, 9, MouseButton::Left, MouseEvent::Press, 5000);
    assert!(!fwd);
    s.handle_mouse_event(33, 11, MouseButton::Left, MouseEvent::Move, 5001);
    let (ev, _) = s.handle_mouse_event(33, 11, MouseButton::Left, MouseEvent::Release, 5002);
    assert!(matches!(&ev[0], Response::WindowResized { width: 24, height: 7, .. }));
    let (ev, fwd) = s.handle_mouse_event(0, 0, MouseButton::Left, MouseEvent::Press, 6000);
    assert!(ev.is_empty() && fwd);
}

#[test]
fn missing_window_is_an_error() {
    let mut s = session("s");
    assert!(matches!(s.process_command(print("nope", "x", 7)).0, Response::Error { .. }));
    assert!(matches!(s.process_command(Command::ClearWindow { id: "nope".to_string() }).0, Response::Error { .. }));
    assert!(matches!(s.process_command(Command::ListSessions).0, Response::Error { .. }));
}

#[test]
fn reset_removes_windows() {
    let mut s = session("s");
    s.process_command(create("w", 1, 1, 5, 5, None));
    s.process_command(Command::Reset);
    assert!(s.windows.windows.is_empty());
}

#[test]
fn console_commands() {
    let mut s = session("s");
    assert!(ClientSession::is_console_toggle_char('\x1c'));
    s.toggle_console();
    assert!(s.console_open);
    s.console_input = "  ReSet ".to_string();
    assert_eq!(s.process_console_command(), (true, false));
    s.console_input = "close".to_string();
    assert_eq!(s.process_console_command(), (false, true));
    assert!(s.console_input.is_empty());
}

#[test]
fn keys_to_terminal_bytes() {
    assert_eq!(input_event_to_bytes(&InputEvent::Key { key: Key::Up }, "cr"), b"\x1b[A".to_vec());
    assert_eq!(input_event_to_bytes(&InputEvent::Key { key: Key::Enter }, "crlf"), vec![13, 10]);
    assert_eq!(input_event_to_bytes(&InputEvent::Key { key: Key::Enter }, "lf"), vec![10]);
    assert_eq!(input_event_to_bytes(&InputEvent::Key { key: Key::Enter }, "cr"), vec![13]);
    assert_eq!(input_event_to_bytes(&InputEvent::Char { char: 'é' }, "cr"), vec![0xc3, 0xa9]);
    assert_eq!(input_event_to_bytes(&InputEvent::Key { key: Key::F12 }, "cr"), b"\x1b[24~".to_vec());
}

#[test]
fn console_typing_and_enter() {
    let mut s = session("s");
    s.toggle_console();
    let o = s.console_event(&InputEvent::Char { char: 'r' });
    assert!(o.output.unwrap().contains("APU Console"));
    for c in "esetx".chars() {
        s.console_event(&InputEvent::Char { char: c });
    }
    s.console_event(&InputEvent::Key { key: Key::Backspace });
    assert_eq!(s.console_input, "reset");
    let o = s.console_event(&InputEvent::Key { key: Key::Enter });
    assert_eq!((o.refreshes, o.close), (2, false));
    assert!(!s.console_open);
    s.toggle_console();
    s.console_input = "close".to_string();
    let o = s.console_event(&InputEvent::Key { key: Key::Enter });
    assert_eq!((o.refreshes, o.close), (0, true));
    s.toggle_console();
    let o = s.console_event(&InputEvent::Key { key: Key::Escape });
    assert_eq!((o.refreshes, o.close), (1, false));
    assert!(s.draw_console().is_none());
}

#[test]
fn local_echo_of_keys() {
    assert_eq!(local_echo_bytes(&InputEvent::Char { char: 'a' }), vec![b'a']);
    assert_eq!(local_echo_bytes(&InputEvent::Key { key: Key::Enter }), b"\r\n".to_vec());
    assert_eq!(local_echo_bytes(&InputEvent::Key { key: Key::Backspace }), b"\x08 \x08".to_vec());
    assert!(local_echo_bytes(&InputEvent::Key { key: Key::Up }).is_empty());
}

#[test]
fn batch_writes_each_cell() {
    let mut s = session("s");
    s.process_command(create("w", 1, 1, 6, 4, None));
    let cells = vec![
        BatchCell { x: 0, y: 0, char: 'p', fg: 1, bg: 0, window: Some("w".to_string()) },
        BatchCell { x: 3, y: 0, char: 'q', fg: 2, bg: 0, window: None },
        BatchCell { x: 0, y: 0, char: 'z', fg: 2, bg: 0, window: Some("nope".to_string()) },
    ];
    assert!(matches!(s.process_command(Command::Batch { cells }).0, Response::Ack));
    assert_eq!(s.windows.get("w").unwrap().content.get(0, 0).unwrap().char, 'p');
    assert_eq!(s.windows.background.get(3, 0).unwrap().char, 'q');
}

#[test]
fn resize_by_handle_and_terminal_windows() {
    let mut s = session("s");
    s.create_terminal_window("t", "example.org", 23, 5, 0, 20, 6, ascii_processing_unit::window::BorderStyle::Single, None, true, true);
    let w = s.windows.get("t").unwrap();
    assert_eq!(w.title.as_deref(), Some("example.org:23"));
    assert_eq!((w.y, w.draggable), (1, true));
    assert_eq!(s.focused_window.as_deref(), Some("t"));
    assert!(s.resize_terminal_window("t", 2, 0, 30, 8, ascii_processing_unit::window::BorderStyle::Borderless, None, false, false, false));
    let w = s.windows.get("t").unwrap();
    assert_eq!((w.x, w.y, w.width, w.height), (2, 1, 30, 8));
    assert_eq!(w.title.as_deref(), Some(""));
    assert!(ascii_processing_unit::session::terminal_bytes_for(&InputEvent::Key { key: Key::Up }, None).is_none());
    assert_eq!(ascii_processing_unit::session::terminal_bytes_for(&InputEvent::Key { key: Key::Up }, Some("cr")), Some(b"\x1b[A".to_vec()));
}

#[test]
fn terminal_screen_reaches_window() {
    let mut s = session("s");
    s.process_command(create("t", 0, 1, 6, 4, None));
    let mut t = Terminal::new("t".to_string(), 10, 10, TerminalType::Ansi);
    t.process_data(b"hey");
    s.sync_terminal("t", &t);
    let w = s.windows.get("t").unwrap();
    assert_eq!(w.content.get(0, 0).unwrap().char, 'h');
    assert_eq!(w.content.get(2, 0).unwrap().char, 'y');
}

#[test]
fn console_command_trims_unicode_space() {
    let mut s = session("s");
    s.console_input = "\u{3000}\tClose\u{a0} ".to_string();
    assert_eq!(s.process_console_command(), (false, true));
    s.console_input = "   ".to_string();
    assert_eq!(s.process_console_command(), (false, false));
}
