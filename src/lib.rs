//! A character-cell display engine: cells and grids, windows with a
//! compositing window manager, an ANSI renderer, a terminal input parser,
//! telnet filtering, an embedded ANSI terminal emulator and the per-session
//! command and interaction logic of a multiplexing display server.
pub mod cell;
pub mod text;
pub mod grid;
pub mod window;
pub mod renderer;
pub mod input;
pub mod telnet;
pub mod terminal;
pub mod protocol;
pub mod session;

pub use cell::{Attrs, Cell, Color};
pub use grid::{BoxChars, Grid};
pub use window::{BorderStyle, TitleAlign, Window, WindowManager};
pub use renderer::{AnsiIbmRenderer, MouseMode, Renderer};
pub use input::{InputEvent, InputParser, Key, Modifiers, MouseButton, MouseEvent};
pub use terminal::{Terminal, TerminalType};
pub use protocol::{Command, Response};
pub use session::ClientSession;
