//! The game protocol: commands from the game, responses to it, and session
//! targeting. Encoding to and from JSON happens outside the library.
use vstd::prelude::*;
use crate::input::InputEvent;
use crate::text::str_eq;
use crate::window;

verus! {

/// Border style named in commands.
#[derive(Debug, Clone, Copy, PartialEq, Eq, Structural)]
pub enum BorderStyle {
    Borderless,
    Single,
    Double,
    Rounded,
    Heavy,
    Ascii,
}

impl Default for BorderStyle {
    fn default() -> (r: BorderStyle)
        ensures
            r == BorderStyle::Single,
    {
        BorderStyle::Single
    }
}

pub open spec fn window_border(b: BorderStyle) -> window::BorderStyle {
    match b {
        BorderStyle::Borderless => window::BorderStyle::Borderless,
        BorderStyle::Single => window::BorderStyle::Single,
        BorderStyle::Double => window::BorderStyle::Double,
        BorderStyle::Rounded => window::BorderStyle::Rounded,
        BorderStyle::Heavy => window::BorderStyle::Heavy,
        BorderStyle::Ascii => window::BorderStyle::Ascii,
    }
}

impl BorderStyle {
    /// The window border style of the same name.
    pub fn to_window(self) -> (r: window::BorderStyle)
        ensures
            r == window_border(self),
    {
        match self {
            BorderStyle::Borderless => window::BorderStyle::Borderless,
            BorderStyle::Single => window::BorderStyle::Single,
            BorderStyle::Double => window::BorderStyle::Double,
            BorderStyle::Rounded => window::BorderStyle::Rounded,
            BorderStyle::Heavy => window::BorderStyle::Heavy,
            BorderStyle::Ascii => window::BorderStyle::Ascii,
        }
    }
}

/// One cell of a batch update, on a window or (without one) on the background.
#[derive(Debug, Clone)]
pub struct BatchCell {
    pub x: usize,
    pub y: usize,
    pub char: char,
    pub fg: u8,
    pub bg: u8,
    pub window: Option<String>,
}

/// Commands from the game.
#[derive(Debug, Clone)]
#[allow(inconsistent_fields)]
pub enum Command {
    Init { cols: Option<usize>, rows: Option<usize> },
    Shutdown,
    Clear,
    Reset,
    ClearBackground,
    CreateWindow {
        id: String,
        x: usize,
        y: usize,
        width: usize,
        height: usize,
        border: BorderStyle,
        title: Option<String>,
        closable: bool,
        resizable: bool,
        draggable: bool,
        min_width: usize,
        min_height: usize,
        invert: bool,
    },
    RemoveWindow { id: String },
    UpdateWindow {
        id: String,
        x: Option<usize>,
        y: Option<usize>,
        width: Option<usize>,
        height: Option<usize>,
        visible: Option<bool>,
        title: Option<String>,
        z_index: Option<i32>,
    },
    SetCell { window: String, x: usize, y: usize, char: char, fg: u8, bg: u8 },
    Print { window: String, x: usize, y: usize, text: String, fg: u8, bg: u8 },
    ClearWindow { id: String },
    Fill { window: String, x: usize, y: usize, width: usize, height: usize, char: char, fg: u8, bg: u8 },
    SetDirect { x: usize, y: usize, char: char, fg: u8, bg: u8 },
    PrintDirect { x: usize, y: usize, text: String, fg: u8, bg: u8 },
    Batch { cells: Vec<BatchCell> },
    Flush { force_full: bool },
    BringToFront { id: String },
    SendToBack { id: String },
    EnableMouse { mode: String },
    DisableMouse,
    ListSessions,
    ShareDisplay { source: String, target: String },
    UnshareDisplay { source: String, target: String },
    ShareWindow { window_id: String, source: String, target: String },
    UnshareWindow { window_id: String, source: String, target: String },
    CreateTerminal {
        id: String,
        host: String,
        port: u16,
        x: usize,
        y: usize,
        width: usize,
        height: usize,
        terminal_type: String,
        border: String,
        title: Option<String>,
        closable: bool,
        resizable: bool,
    },
    CloseTerminal { id: String },
    TerminalInput { id: String, data: String },
    TerminalConfig { id: String, local_echo: Option<bool>, line_ending: Option<String> },
    ResizeTerminal {
        id: String,
        x: usize,
        y: usize,
        width: usize,
        height: usize,
        border: String,
        title: Option<String>,
        closable: bool,
        resizable: bool,
        draggable: bool,
    },
}

/// Information about a connected session.
#[derive(Debug, Clone)]
pub struct SessionInfo {
    pub id: String,
    pub address: String,
    /// Connection time, seconds since the Unix epoch.
    pub connected_at: u64,
}

/// Responses and events sent to the game.
#[derive(Debug, Clone)]
#[allow(inconsistent_fields)]
pub enum Response {
    Output { data: String },
    Error { message: String },
    Ack,
    Info { cols: usize, rows: usize, renderer: String },
    Input { session: String, event: InputEvent },
    ClientConnect { session: String },
    ClientDisconnect { session: String },
    WindowMoved { id: String, x: usize, y: usize },
    WindowResized { id: String, width: usize, height: usize },
    WindowCloseRequested { id: String },
    WindowMaximizeRequested { id: String },
    WindowFocused { id: String },
    Sessions { sessions: Vec<SessionInfo> },
    RefreshRequested { session: String },
    TerminalConnected { id: String, host: String, port: u16 },
    TerminalDisconnected { id: String, reason: String },
    TerminalError { id: String, error: String },
}

/// A command with its optional session target.
#[derive(Debug, Clone)]
pub struct TargetedCommand {
    /// `None` or `"*"`: every session; otherwise the session with that id.
    pub session: Option<String>,
    pub command: Command,
}

/// Where a targeted command goes.
#[derive(Debug, Clone, PartialEq, Eq)]
pub enum Route {
    Broadcast,
    Session(String),
}

/// The route of a session target: missing or `"*"` broadcasts.
pub open spec fn route_of(session: Option<Seq<char>>) -> Option<Seq<char>> {
    match session {
        None => None,
        Some(s) => if s == "*"@ { None } else { Some(s) },
    }
}

/// Routes a command by its session field.
pub fn route(session: &Option<String>) -> (r: Route)
    ensures
        route_of(match session { Some(s) => Some(s@), None => None }) is None ==> r == Route::Broadcast,
        route_of(match session { Some(s) => Some(s@), None => None }) matches Some(t) ==> (r matches Route::Session(u) && u@ == t),
{
    match session {
        None => Route::Broadcast,
        Some(s) => if str_eq(s.as_str(), "*") {
            Route::Broadcast
        } else {
            Route::Session(s.clone())
        },
    }
}

} // verus!
