//! One client's session: its window manager, renderer, window-chrome
//! interaction state (drag, resize, close, focus, double-click), debug console
//! and the game commands addressed to it. Sending bytes is left to the caller,
//! which receives them as return values.
use vstd::prelude::*;
use crate::cell::{cell_after_set, no_attrs, Attrs, Cell, Color};
use crate::input::{InputEvent, Key, MouseButton, MouseEvent};
use crate::protocol::{window_border, Command, Response, SessionInfo};
use crate::renderer::{AnsiIbmRenderer, MouseMode};
use crate::text::{chars_of, dec_digits, lower_of, push_dec, push_lit, str_eq, string_of, to_lower};
use vstd::utf8::encode_utf8;
use crate::terminal::Terminal;
use crate::grid::{copied_cell, Grid};
use crate::renderer::{dirty_render, full_render};
use crate::window::{composed, stable_slot, lemma_dims_fit, lemma_unique_position, lemma_update_wf, Window, WindowManager};

verus! {

/// What an event typed into the open console leads to.
pub struct ConsoleOutcome {
    /// The redrawn console, to send to the client.
    pub output: Option<String>,
    /// How many refresh requests to send the game.
    pub refreshes: u8,
    /// Whether the session is to be closed.
    pub close: bool,
}

/// Last title-bar click, for double-click detection.
#[derive(Debug, Clone)]
pub struct TitleBarClick {
    pub window_id: String,
    /// Milliseconds since the Unix epoch.
    pub time_ms: u64,
}

/// A window being dragged by its title bar.
#[derive(Debug, Clone)]
pub struct DragState {
    pub window_id: String,
    /// Offset from the window's corner to the mouse at press time.
    pub offset_x: isize,
    pub offset_y: isize,
}

/// A window being resized by its handle.
#[derive(Debug, Clone)]
pub struct ResizeState {
    pub window_id: String,
    pub original_width: usize,
    pub original_height: usize,
    /// Mouse position when the resize began.
    pub start_x: usize,
    pub start_y: usize,
}

/// Window-chrome interaction state of a session.
#[derive(Debug, Clone)]
pub struct InteractionState {
    pub dragging: Option<DragState>,
    pub resizing: Option<ResizeState>,
    pub last_title_bar_click: Option<TitleBarClick>,
}

impl Default for InteractionState {
    fn default() -> (r: InteractionState)
        ensures
            r.dragging is None && r.resizing is None && r.last_title_bar_click is None,
    {
        InteractionState { dragging: None, resizing: None, last_title_bar_click: None }
    }
}

/// Two clicks on one title bar within this many milliseconds make a double click.
pub const DOUBLE_CLICK_MS: u64 = 500;

pub open spec fn max_int(a: int, b: int) -> int {
    if a > b { a } else { b }
}

pub open spec fn min_i(a: int, b: int) -> int {
    if a < b { a } else { b }
}

/// Where a dragged window's corner goes: the mouse minus the grab offset, kept at
/// least at `lo` (row 0 is the menu bar) and inside the display.
pub open spec fn drag_coord(m: int, off: int, lo: int, display: int, size: int) -> int {
    min_i(max_int(m - off, lo), max_int(display - size, 0))
}

/// A resized window's new size: the original plus the mouse travel, at least the
/// window's minimum, at most what fits in the display from its corner.
pub open spec fn resize_dim(orig: int, travel: int, min: int, display: int, pos: int) -> int {
    min_i(max_int(orig + travel, min), max_int(display - pos, 0))
}

/// A client session.
pub struct ClientSession {
    pub id: String,
    pub address: String,
    /// Seconds since the Unix epoch.
    pub connected_at: u64,
    pub windows: WindowManager,
    pub renderer: AnsiIbmRenderer,
    pub interaction: InteractionState,
    /// Sessions sharing their display with this one.
    pub display_shares_from: Vec<String>,
    /// Sessions this one shares its display with.
    pub display_shares_to: Vec<String>,
    pub console_open: bool,
    pub console_input: String,
    /// The window that receives keyboard input.
    pub focused_window: Option<String>,
}

fn drag_to(m: usize, off: isize, lo: i128, display: usize, size: usize) -> (r: usize)
    requires
        0 <= lo <= 1,
    ensures
        r == drag_coord(m as int, off as int, lo as int, display as int, size as int),
{
    let a: i128 = (m as i128) - (off as i128);
    let b: i128 = if a > lo { a } else { lo };
    let hi: i128 = if display >= size { (display - size) as i128 } else { 0 };
    let c: i128 = if b < hi { b } else { hi };
    c as usize
}

fn resize_to(orig: usize, m: usize, start: usize, min: usize, display: usize, pos: usize) -> (r: usize)
    ensures
        r == resize_dim(orig as int, m as int - start as int, min as int, display as int, pos as int),
        r <= display,
{
    let a: i128 = (orig as i128) + (m as i128) - (start as i128);
    let b: i128 = if a > min as i128 { a } else { min as i128 };
    let hi: i128 = if display >= pos { (display - pos) as i128 } else { 0 };
    let c: i128 = if b < hi { b } else { hi };
    c as usize
}

proof fn lemma_fits(w: int, h: int, cols: int, rows: int)
    requires
        0 <= w <= cols,
        0 <= h <= rows,
        cols * rows <= usize::MAX,
    ensures
        w * h <= usize::MAX,
{
    assert(w * h <= cols * rows) by (nonlinear_arith)
        requires
            0 <= w <= cols,
            0 <= h <= rows,
    ;
}

impl ClientSession {
    pub open spec fn wf(&self) -> bool {
        self.windows.wf()
    }

    /// A fresh session with a `cols` x `rows` display.
    pub fn new(id: String, address: String, connected_at: u64, cols: usize, rows: usize) -> (r: ClientSession)
        requires
            cols * rows <= usize::MAX,
        ensures
            r.wf(),
            r.id == id && r.address == address && r.connected_at == connected_at,
            r.windows.cols == cols && r.windows.rows == rows && r.windows.windows@.len() == 0,
            r.renderer.cols == cols && r.renderer.rows == rows,
            r.interaction.dragging is None && r.interaction.resizing is None && r.interaction.last_title_bar_click is None,
            !r.console_open && r.console_input@.len() == 0 && r.focused_window is None,
            r.display_shares_from@.len() == 0 && r.display_shares_to@.len() == 0,
    {
        ClientSession {
            id,
            address,
            connected_at,
            windows: WindowManager::new(cols, rows),
            renderer: AnsiIbmRenderer::new(cols, rows),
            interaction: InteractionState::default(),
            display_shares_from: Vec::new(),
            display_shares_to: Vec::new(),
            console_open: false,
            console_input: String::new(),
            focused_window: None,
        }
    }

    /// Id, address and connection time.
    pub fn info(&self) -> (r: SessionInfo)
        ensures
            r.id@ == self.id@ && r.address@ == self.address@ && r.connected_at == self.connected_at,
    {
        SessionInfo { id: self.id.clone(), address: self.address.clone(), connected_at: self.connected_at }
    }

    /// The renderer's initialisation sequence (its state is reset).
    pub fn init(&mut self) -> (r: String)
        ensures
            r@ == "\x1b[?25l\x1b[2J\x1b[H\x1b[0m"@,
            final(self).windows == old(self).windows,
    {
        self.renderer.init()
    }

    /// The renderer's shutdown sequence.
    pub fn shutdown(&self) -> (r: String)
        ensures
            r@ == crate::renderer::disable_mouse_text() + "\x1b[0m\x1b[?25h\x1b[2J\x1b[H"@,
    {
        self.renderer.shutdown()
    }

    pub fn enable_mouse(&self, mode: MouseMode) -> (r: String)
        ensures
            r@ == crate::renderer::enable_mouse_text(mode),
    {
        self.renderer.enable_mouse(mode)
    }

    pub fn disable_mouse(&self) -> (r: String)
        ensures
            r@ == crate::renderer::disable_mouse_text(),
    {
        self.renderer.disable_mouse()
    }

    /// Mouse motion while dragging or resizing (both `Drag` and `Move` reports).
    fn motion(&mut self, x: usize, y: usize) -> (r: (Vec<Response>, bool))
        requires
            old(self).wf(),
        ensures
            final(self).wf(),
            motion_post(*old(self), *final(self), x as int, y as int, r),
    {
        let cols = self.windows.cols;
        let rows = self.windows.rows;
        let mut forward = true;
        if let Some(d) = &self.interaction.dragging {
            if let Some(i) = self.windows.find(d.window_id.as_str()) {
                let w = self.windows.windows[i].width;
                let h = self.windows.windows[i].height;
                let nx = drag_to(x, d.offset_x, 0, cols, w);
                let ny = drag_to(y, d.offset_y, 1, rows, h);
                self.windows.windows[i].x = nx;
                self.windows.windows[i].y = ny;
                self.windows.windows[i].dirty = true;
                proof {
                    lemma_update_wf(old(self).windows.windows@, i as int, self.windows.windows@[i as int]);
                    assert(self.windows.windows@ =~= old(self).windows.windows@.update(i as int, self.windows.windows@[i as int]));
                    assert(self.windows.windows@[i as int] == (Window { x: nx, y: ny, dirty: true, ..old(self).windows.windows@[i as int] }));
                }
            }
            forward = false;
        }
        let ghost mid = self.windows.windows@;
        if let Some(rs) = &self.interaction.resizing {
            if let Some(i) = self.windows.find(rs.window_id.as_str()) {
                let wx = self.windows.windows[i].x;
                let wy = self.windows.windows[i].y;
                let minw = self.windows.windows[i].min_width;
                let minh = self.windows.windows[i].min_height;
                let nw = resize_to(rs.original_width, x, rs.start_x, minw, cols, wx);
                let nh = resize_to(rs.original_height, y, rs.start_y, minh, rows, wy);
                if nw != self.windows.windows[i].width || nh != self.windows.windows[i].height {
                    proof {
                        lemma_fits(nw as int, nh as int, cols as int, rows as int);
                        lemma_dims_fit(nw as int, nh as int);
                    }
                    self.windows.windows[i].resize(nw, nh);
                    proof {
                        lemma_update_wf(mid, i as int, self.windows.windows@[i as int]);
                        assert(self.windows.windows@ =~= mid.update(i as int, self.windows.windows@[i as int]));
                    }
                }
            }
            forward = false;
        }
        (Vec::new(), forward)
    }

    /// End of a drag or resize: reports the window's final position or size.
    fn release(&mut self) -> (r: (Vec<Response>, bool))
        requires
            old(self).wf(),
        ensures
            final(self).wf(),
            release_post(*old(self), *final(self), r),
    {
        let mut events: Vec<Response> = Vec::new();
        let mut forward = true;
        let drag = self.interaction.dragging.take();
        if let Some(d) = drag {
            if let Some(i) = self.windows.find(d.window_id.as_str()) {
                let wx = self.windows.windows[i].x;
                let wy = self.windows.windows[i].y;
                events.push(Response::WindowMoved { id: d.window_id, x: wx, y: wy });
            }
            forward = false;
        }
        let rsz = self.interaction.resizing.take();
        if let Some(rs) = rsz {
            if let Some(i) = self.windows.find(rs.window_id.as_str()) {
                let ww = self.windows.windows[i].width;
                let wh = self.windows.windows[i].height;
                events.push(Response::WindowResized { id: rs.window_id, width: ww, height: wh });
            }
            forward = false;
        }
        (events, forward)
    }

    /// A left press: close button, resize handle, title bar (drag or double
    /// click), or a click that focuses the window and is passed to the game.
    fn press_left(&mut self, x: usize, y: usize, now_ms: u64) -> (r: (Vec<Response>, bool))
        requires
            old(self).wf(),
            x <= 65535 && y <= 65535,
        ensures
            final(self).wf(),
            press_post(*old(self), *final(self), x as int, y as int, now_ms, r),
    {
        let top = match self.windows.window_at(x, y) {
            Some(t) => t.to_owned(),
            None => {
                return (Vec::new(), true);
            },
        };
        let mut events: Vec<Response> = Vec::new();
        let i = match self.windows.find(top.as_str()) {
            Some(i) => i,
            None => {
                return (events, true);
            },
        };
        proof {
            let ws = old(self).windows.windows@;
            let k0 = choose|k: int| 0 <= k < ws.len() && top@ == ws[k].id@ && #[trigger] ws[k].spec_contains(x as int, y as int)
                && forall|m: int| k < m < ws.len() ==> !(#[trigger] ws[m]).spec_contains(x as int, y as int);
            assert(is_topmost(ws, k0, x as int, y as int));
            lemma_unique_position(ws, k0);
            lemma_topmost_unique(ws, x as int, y as int, k0);
            assert(i == k0);
        }
        if self.windows.windows[i].hit_close_button(x, y) {
            events.push(Response::WindowCloseRequested { id: top });
            return (events, false);
        }
        if self.windows.windows[i].hit_resize_handle(x, y) {
            let ow = self.windows.windows[i].width;
            let oh = self.windows.windows[i].height;
            self.interaction.resizing = Some(ResizeState {
                window_id: top.clone(),
                original_width: ow,
                original_height: oh,
                start_x: x,
                start_y: y,
            });
            self.windows.bring_to_front(top.as_str());
            return (events, false);
        }
        if self.windows.windows[i].hit_title_bar(x, y) {
            let wx = self.windows.windows[i].x;
            let wy = self.windows.windows[i].y;
            let is_double = match &self.interaction.last_title_bar_click {
                Some(last) => last.window_id == top && now_ms >= last.time_ms && now_ms - last.time_ms < DOUBLE_CLICK_MS,
                None => false,
            };
            if is_double {
                events.push(Response::WindowMaximizeRequested { id: top.clone() });
                self.interaction.last_title_bar_click = None;
                self.windows.bring_to_front(top.as_str());
                return (events, false);
            }
            self.interaction.last_title_bar_click = Some(TitleBarClick { window_id: top.clone(), time_ms: now_ms });
            self.interaction.dragging = Some(DragState {
                window_id: top.clone(),
                offset_x: (x - wx) as isize,
                offset_y: (y - wy) as isize,
            });
            self.windows.bring_to_front(top.as_str());
            return (events, false);
        }
        self.windows.bring_to_front(top.as_str());
        self.focused_window = Some(top.clone());
        events.push(Response::WindowFocused { id: top });
        (events, true)
    }

    /// Runs a mouse report through the window-chrome state machine. Returns the
    /// window events for the game and whether the report itself goes to the game.
    /// `Move` reports are handled like `Drag` reports.
    pub fn handle_mouse_event(&mut self, x: usize, y: usize, button: MouseButton, event_type: MouseEvent, now_ms: u64) -> (r: (Vec<Response>, bool))
        requires
            old(self).wf(),
            x <= 65535 && y <= 65535,
        ensures
            final(self).wf(),
            event_type == MouseEvent::Press && button != MouseButton::Left ==> r.0@.len() == 0 && r.1 && *final(self) == *old(self),
            event_type == MouseEvent::Press && button == MouseButton::Left ==> press_post(*old(self), *final(self), x as int, y as int, now_ms, r),
            event_type == MouseEvent::Release ==> release_post(*old(self), *final(self), r),
            (event_type == MouseEvent::Drag || event_type == MouseEvent::Move) ==> motion_post(*old(self), *final(self), x as int, y as int, r),
    {
        match event_type {
            MouseEvent::Press => {
                if button == MouseButton::Left {
                    self.press_left(x, y, now_ms)
                } else {
                    (Vec::new(), true)
                }
            },
            MouseEvent::Release => self.release(),
            MouseEvent::Drag => self.motion(x, y),
            MouseEvent::Move => self.motion(x, y),
        }
    }

    /// Composites the windows and renders the display (in full or only what
    /// changed), then marks everything clean. Returns the bytes for the client.
    pub fn flush_output(&mut self, force_full: bool) -> (r: String)
        requires
            old(self).wf(),
        ensures
            final(self).wf(),
            final(self).windows.display.all_clean(),
            final(self).windows.cols == old(self).windows.cols && final(self).windows.rows == old(self).windows.rows,
            final(self).windows.background == old(self).windows.background,
            final(self).windows.windows@.len() == old(self).windows.windows@.len(),
            forall|k: int| 0 <= k < final(self).windows.windows@.len() ==> !(#[trigger] final(self).windows.windows@[k]).dirty,
            final(self).interaction == old(self).interaction,
            exists|d: Grid| #[trigger] flushed_display(d, old(self).windows)
                && (r@, final(self).renderer) == (if force_full { full_render(old(self).renderer, d) } else { dirty_render(old(self).renderer, d) }),
    {
        self.windows.composite();
        let ghost d = self.windows.display;
        assert(flushed_display(d, old(self).windows));
        let out = self.renderer.render(&self.windows.display, force_full);
        self.windows.display.mark_all_clean();
        self.windows.mark_all_clean();
        out
    }

    /// When a window changed (during a drag or resize), renders what changed.
    pub fn auto_flush(&mut self) -> (r: Option<String>)
        requires
            old(self).wf(),
        ensures
            final(self).wf(),
            r is Some <==> exists|k: int| 0 <= k < old(self).windows.windows@.len() && (#[trigger] old(self).windows.windows@[k]).dirty,
            r is None ==> *final(self) == *old(self),
            r is Some ==> final(self).windows.display.all_clean()
                && (forall|k: int| 0 <= k < final(self).windows.windows@.len() ==> !(#[trigger] final(self).windows.windows@[k]).dirty)
                && exists|d: Grid| #[trigger] flushed_display(d, old(self).windows)
                    && (r->0@, final(self).renderer) == dirty_render(old(self).renderer, d),
    {
        if self.windows.is_dirty() {
            Some(self.flush_output(false))
        } else {
            None
        }
    }

    /// Opens or closes the debug console; its input line is cleared.
    pub fn toggle_console(&mut self)
        ensures
            final(self).console_open == !old(self).console_open,
            final(self).console_input@.len() == 0,
            final(self).windows == old(self).windows,
    {
        self.console_open = !self.console_open;
        self.console_input = String::new();
    }

    /// Ctrl-\ (0x1C) toggles the console.
    pub fn is_console_toggle_char(ch: char) -> (r: bool)
        ensures
            r == (ch == '\x1c'),
    {
        ch == '\x1c'
    }

    /// Runs the console's input line and clears it: returns whether a refresh
    /// (`reset`) and whether closing the session (`close`) was asked for.
    pub fn process_console_command(&mut self) -> (r: (bool, bool))
        ensures
            r == console_action(lower_of(trim_of(old(self).console_input@))),
            final(self).console_input@.len() == 0,
            final(self).windows == old(self).windows,
    {
        let t = string_of(trimmed(self.console_input.as_str()));
        let l = to_lower(t.as_str());
        self.console_input = String::new();
        console_action_of(l.as_str())
    }

    /// Copies a terminal's screen into the content of its window (the overlap of the two).
    pub fn sync_terminal(&mut self, window_id: &str, term: &Terminal)
        requires
            old(self).wf(),
            term.wf(),
        ensures
            final(self).wf(),
            old(self).windows.index_of(window_id@) is None ==> *final(self) == *old(self),
            old(self).windows.index_of(window_id@) is Some ==> ({
                let i = old(self).windows.index_of(window_id@)->0;
                let o = old(self).windows.windows@[i];
                let n = final(self).windows.windows@[i];
                &&& same_frame(old(self).windows, final(self).windows)
                &&& final(self).windows.windows@ == old(self).windows.windows@.update(i, Window { content: n.content, dirty: n.dirty, ..o })
                &&& n.content.cols == o.content.cols && n.content.rows == o.content.rows
                &&& forall|cx: int, cy: int| n.content.in_bounds(cx, cy) ==> #[trigger] n.content.at(cx, cy) == if cx < term.width && cy < term.height {
                    cell_after_set(o.content.at(cx, cy), term@.screen[cy][cx].char, term@.screen[cy][cx].fg, term@.screen[cy][cx].bg, no_attrs())
                } else {
                    o.content.at(cx, cy)
                }
            }),
    {
        if let Some(i) = self.windows.find(window_id) {
            let ghost o = self.windows.windows@[i as int];
            let h = if term.height < self.windows.windows[i].content.rows { term.height } else { self.windows.windows[i].content.rows };
            let w = if term.width < self.windows.windows[i].content.cols { term.width } else { self.windows.windows[i].content.cols };
            let mut y: usize = 0;
            while y < h
                invariant
                    self.wf(),
                    term.wf(),
                    i < self.windows.windows@.len(),
                    i < old(self).windows.windows@.len(),
                    old(self).windows.index_of(window_id@) == Some(i as int),
                    o == old(self).windows.windows@[i as int],
                    h as int == min_i(term.height as int, o.content.rows as int),
                    w as int == min_i(term.width as int, o.content.cols as int),
                    y <= h,
                    self.interaction == old(self).interaction && self.focused_window == old(self).focused_window,
                    self.id == old(self).id && self.address == old(self).address && self.connected_at == old(self).connected_at,
                    self.renderer == old(self).renderer && self.console_open == old(self).console_open && self.console_input == old(self).console_input,
                    self.display_shares_from == old(self).display_shares_from && self.display_shares_to == old(self).display_shares_to,
                    same_frame(old(self).windows, self.windows),
                    self.windows.windows@ == old(self).windows.windows@.update(i as int, Window {
                        content: self.windows.windows@[i as int].content, dirty: self.windows.windows@[i as int].dirty, ..o }),
                    self.windows.windows@[i as int].content.cols == o.content.cols && self.windows.windows@[i as int].content.rows == o.content.rows,
                    forall|cx: int, cy: int| self.windows.windows@[i as int].content.in_bounds(cx, cy) ==>
                        #[trigger] self.windows.windows@[i as int].content.at(cx, cy) == if cx < w && cy < y {
                            cell_after_set(o.content.at(cx, cy), term@.screen[cy][cx].char, term@.screen[cy][cx].fg, term@.screen[cy][cx].bg, no_attrs())
                        } else {
                            o.content.at(cx, cy)
                        },
                decreases h - y,
            {
                let mut x: usize = 0;
                while x < w
                    invariant
                        self.wf(),
                        term.wf(),
                        i < self.windows.windows@.len(),
                        i < old(self).windows.windows@.len(),
                        old(self).windows.index_of(window_id@) == Some(i as int),
                        o == old(self).windows.windows@[i as int],
                        h as int == min_i(term.height as int, o.content.rows as int),
                        w as int == min_i(term.width as int, o.content.cols as int),
                        y < h,
                        x <= w,
                        self.interaction == old(self).interaction && self.focused_window == old(self).focused_window,
                        self.id == old(self).id && self.address == old(self).address && self.connected_at == old(self).connected_at,
                        self.renderer == old(self).renderer && self.console_open == old(self).console_open && self.console_input == old(self).console_input,
                        self.display_shares_from == old(self).display_shares_from && self.display_shares_to == old(self).display_shares_to,
                        same_frame(old(self).windows, self.windows),
                        self.windows.windows@ == old(self).windows.windows@.update(i as int, Window {
                            content: self.windows.windows@[i as int].content, dirty: self.windows.windows@[i as int].dirty, ..o }),
                        self.windows.windows@[i as int].content.cols == o.content.cols && self.windows.windows@[i as int].content.rows == o.content.rows,
                        forall|cx: int, cy: int| self.windows.windows@[i as int].content.in_bounds(cx, cy) ==>
                            #[trigger] self.windows.windows@[i as int].content.at(cx, cy) == if cx < w && (cy < y || (cy == y && cx < x)) {
                                cell_after_set(o.content.at(cx, cy), term@.screen[cy][cx].char, term@.screen[cy][cx].fg, term@.screen[cy][cx].bg, no_attrs())
                            } else {
                                o.content.at(cx, cy)
                            },
                    decreases w - x,
                {
                    assert(term@.screen[y as int].len() == term.width);
                    assert(term.screen@[y as int]@.len() == term.width);
                    let c = term.screen[y][x];
                    let ghost before = self.windows.windows@;
                    self.windows.windows[i].set(x, y, c.char, c.fg, Some(c.bg));
                    proof {
                        lemma_update_wf(before, i as int, self.windows.windows@[i as int]);
                        assert(self.windows.windows@ =~= before.update(i as int, self.windows.windows@[i as int]));
                        let nw = self.windows.windows@[i as int];
                        let bw = before[i as int];
                        assert(bw == Window { content: bw.content, dirty: bw.dirty, ..o });
                        assert(nw == Window { content: nw.content, dirty: true, ..bw });
                        assert(nw == Window { content: nw.content, dirty: nw.dirty, ..o });
                        assert forall|k: int| 0 <= k < self.windows.windows@.len() implies #[trigger] self.windows.windows@[k]
                            == old(self).windows.windows@.update(i as int, Window { content: nw.content, dirty: nw.dirty, ..o })[k] by {
                            if k != i {
                                assert(self.windows.windows@[k] == before[k]);
                            }
                        }
                        assert(self.windows.windows@ =~= old(self).windows.windows@.update(i as int, Window {
                            content: nw.content, dirty: nw.dirty, ..o }));
                    }
                    x += 1;
                }
                y += 1;
            }
        }
    }

    /// Records that `source` shares its display with this session (once).
    pub fn add_share_from(&mut self, source: &str)
        ensures
            final(self).windows == old(self).windows,
            seq_has(final(self).display_shares_from@, source@),
    {
        add_unique(&mut self.display_shares_from, source);
    }

    /// Records that this session shares its display with `target` (once).
    pub fn add_share_to(&mut self, target: &str)
        ensures
            final(self).windows == old(self).windows,
            seq_has(final(self).display_shares_to@, target@),
    {
        add_unique(&mut self.display_shares_to, target);
    }

    /// Forgets that `source` shares its display with this session.
    pub fn remove_share_from(&mut self, source: &str)
        ensures
            final(self).windows == old(self).windows,
            !seq_has(final(self).display_shares_from@, source@),
    {
        remove_all(&mut self.display_shares_from, source);
    }

    /// Forgets that this session shares its display with `target`.
    pub fn remove_share_to(&mut self, target: &str)
        ensures
            final(self).windows == old(self).windows,
            !seq_has(final(self).display_shares_to@, target@),
    {
        remove_all(&mut self.display_shares_to, target);
    }

    /// Sets one content cell of window `i`.
    fn set_cell_in(&mut self, i: usize, x: usize, y: usize, ch: char, fg: Color, bg: Color)
        requires
            old(self).wf(),
            i < old(self).windows.windows@.len(),
        ensures
            final(self).wf(),
            final(self).windows.windows@.len() == old(self).windows.windows@.len(),
            final(self).windows.cols == old(self).windows.cols && final(self).windows.rows == old(self).windows.rows,
            only_window_changed(old(self).windows, final(self).windows, i as int),
            cell_written(old(self).windows.windows@[i as int].content, final(self).windows.windows@[i as int].content, x as int, y as int, ch, fg, bg),
    {
        let ghost before = self.windows.windows@;
        self.windows.windows[i].set(x, y, ch, fg, Some(bg));
        proof {
            lemma_update_wf(before, i as int, self.windows.windows@[i as int]);
            assert(self.windows.windows@ =~= before.update(i as int, self.windows.windows@[i as int]));
        }
    }

    fn create_window_cmd(&mut self, id: &str, x: usize, y: usize, width: usize, height: usize, border: crate::window::BorderStyle,
        title: Option<String>, closable: bool, resizable: bool, draggable: bool, min_width: usize, min_height: usize, invert: bool) -> (r: Response)
        requires
            old(self).wf(),
        ensures
            final(self).wf(),
            final(self).windows.cols == old(self).windows.cols && final(self).windows.rows == old(self).windows.rows,
            width * height <= usize::MAX ==> r is Ack && ({
                let k = final(self).windows.index_of(id@);
                &&& k is Some
                &&& final(self).windows.windows@[k->0].x == x
                &&& final(self).windows.windows@[k->0].width == width && final(self).windows.windows@[k->0].height == height
                &&& final(self).windows.windows@[k->0].border == border && final(self).windows.windows@[k->0].invert == invert
                &&& final(self).windows.windows@[k->0].y == lifted_y(y, invert)
                &&& title is Some ==> final(self).windows.windows@[k->0].title == title
                &&& final(self).windows.windows@[k->0].closable == closable && final(self).windows.windows@[k->0].resizable == resizable
                &&& final(self).windows.windows@[k->0].draggable == draggable
                &&& final(self).windows.windows@[k->0].min_width == min_width && final(self).windows.windows@[k->0].min_height == min_height
            }),
            width * height > usize::MAX ==> r is Error && *final(self) == *old(self),
    {
        if width.checked_mul(height).is_none() {
            return Response::Error { message: message_with("Window too large: ", id) };
        }
        let ay: usize = if invert { y } else if y < 1 { 1 } else { y };
        let i = self.windows.create_window(id, x, ay, width, height);
        proof {
            lemma_dims_fit(width as int, height as int);
        }
        let ghost mid = self.windows.windows@;
        configure(&mut self.windows.windows[i], border, title, closable, resizable, draggable, min_width, min_height, invert);
        proof {
            lemma_update_wf(mid, i as int, self.windows.windows@[i as int]);
            assert(self.windows.windows@ =~= mid.update(i as int, self.windows.windows@[i as int]));
            lemma_unique_position(self.windows.windows@, i as int);
        }
        Response::Ack
    }

    #[verifier::rlimit(80)]
    fn update_window_cmd(&mut self, id: &str, x: Option<usize>, y: Option<usize>, width: Option<usize>, height: Option<usize>,
        visible: Option<bool>, title: Option<String>, z_index: Option<i32>) -> (r: Response)
        requires
            old(self).wf(),
        ensures
            final(self).wf(),
            final(self).windows.cols == old(self).windows.cols && final(self).windows.rows == old(self).windows.rows,
            (r is Error) <==> old(self).windows.index_of(id@) is None,
            old(self).windows.index_of(id@) is None ==> *final(self) == *old(self),
            old(self).windows.index_of(id@) is Some ==> final(self).windows.index_of(id@) is Some
                && updated_window(old(self).windows.windows@[old(self).windows.index_of(id@)->0],
                    final(self).windows.windows@[final(self).windows.index_of(id@)->0], x, y, width, height, visible, title, z_index),
    {
        let i = match self.windows.find(id) {
            Some(i) => i,
            None => {
                return Response::Error { message: message_with("Window not found: ", id) };
            },
        };
        let ghost mid = self.windows.windows@;
        update_fields(&mut self.windows.windows[i], x, y, width, height, visible, title);
        proof {
            lemma_update_wf(mid, i as int, self.windows.windows@[i as int]);
            assert(self.windows.windows@ =~= mid.update(i as int, self.windows.windows@[i as int]));
        }
        proof {
            lemma_unique_position(self.windows.windows@, i as int);
        }
        let ghost w1 = self.windows.windows@[i as int];
        if let Some(z) = z_index {
            self.windows.set_z_index(id, z);
            proof {
                let ws = mid.update(i as int, w1);
                let others = ws.remove(i as int);
                let j = choose|j: int| stable_slot(others, z, i as int, j)
                    && #[trigger] self.windows.windows@ == others.insert(j, Window { z_index: z, ..ws[i as int] });
                assert(self.windows.windows@[j] == Window { z_index: z, ..w1 });
                lemma_unique_position(self.windows.windows@, j);
            }
        }
        Response::Ack
    }

    fn batch_cmd(&mut self, cells: &Vec<crate::protocol::BatchCell>)
        requires
            old(self).wf(),
        ensures
            final(self).wf(),
            batch_applied(old(self).windows, final(self).windows, cells@),
    {
        let ghost hist: Seq<WindowManager> = seq![self.windows];
        let mut k: usize = 0;
        while k < cells.len()
            invariant
                self.wf(),
                k <= cells@.len(),
                hist.len() == k + 1,
                hist[0] == old(self).windows,
                hist[k as int] == self.windows,
                forall|m: int| 0 <= m < k ==> #[trigger] batch_cell_applied(hist[m], hist[m + 1], cells@[m]),
            decreases cells@.len() - k,
        {
            let c = &cells[k];
            let fg = Color::from_index(c.fg);
            let bg = Color::from_index(c.bg);
            match &c.window {
                Some(wid) => {
                    if let Some(i) = self.windows.find(wid.as_str()) {
                        self.set_cell_in(i, c.x, c.y, c.char, fg, bg);
                    }
                },
                None => {
                    self.windows.background.set(c.x, c.y, c.char, fg, bg, Attrs::new());
                },
            }
            proof {
                hist = hist.push(self.windows);
                assert(batch_cell_applied(hist[k as int], hist[k + 1], cells@[k as int]));
            }
            k += 1;
        }
        proof {
            assert(batch_applied(old(self).windows, self.windows, cells@)) by {
                assert(hist.len() == cells@.len() + 1 && hist[0] == old(self).windows && hist[hist.len() - 1] == self.windows);
            }
        }
    }

    fn set_cell_cmd(&mut self, window: &str, x: usize, y: usize, ch: char, fg: u8, bg: u8) -> (r: Response)
        requires
            old(self).wf(),
        ensures
            final(self).wf(),
            (r is Error) <==> old(self).windows.index_of(window@) is None,
            old(self).windows.index_of(window@) is None ==> *final(self) == *old(self),
            old(self).windows.index_of(window@) is Some ==> only_window_changed(old(self).windows, final(self).windows, old(self).windows.index_of(window@)->0)
                && cell_written(old(self).windows.windows@[old(self).windows.index_of(window@)->0].content,
                    final(self).windows.windows@[old(self).windows.index_of(window@)->0].content, x as int, y as int, ch, Color::spec_from_index(fg), Color::spec_from_index(bg)),
    {
        match self.windows.find(window) {
            Some(i) => {
                let ghost before = self.windows.windows@;
                self.windows.windows[i].set(x, y, ch, Color::from_index(fg), Some(Color::from_index(bg)));
                proof {
                    lemma_update_wf(before, i as int, self.windows.windows@[i as int]);
                    assert(self.windows.windows@ =~= before.update(i as int, self.windows.windows@[i as int]));
                }
                Response::Ack
            },
            None => Response::Error { message: message_with("Window not found: ", window) },
        }
    }

    fn print_cmd(&mut self, window: &str, x: usize, y: usize, text: &str, fg: u8, bg: u8) -> (r: Response)
        requires
            old(self).wf(),
        ensures
            final(self).wf(),
            (r is Error) <==> old(self).windows.index_of(window@) is None,
            old(self).windows.index_of(window@) is None ==> *final(self) == *old(self),
            old(self).windows.index_of(window@) is Some ==> only_window_changed(old(self).windows, final(self).windows, old(self).windows.index_of(window@)->0)
                && text_written(old(self).windows.windows@[old(self).windows.index_of(window@)->0].content,
                    final(self).windows.windows@[old(self).windows.index_of(window@)->0].content, x as int, y as int, text@, Color::spec_from_index(fg), Color::spec_from_index(bg)),
    {
        match self.windows.find(window) {
            Some(i) => {
                let ghost before = self.windows.windows@;
                self.windows.windows[i].print(x, y, text, Color::from_index(fg), Some(Color::from_index(bg)));
                proof {
                    lemma_update_wf(before, i as int, self.windows.windows@[i as int]);
                    assert(self.windows.windows@ =~= before.update(i as int, self.windows.windows@[i as int]));
                }
                Response::Ack
            },
            None => Response::Error { message: message_with("Window not found: ", window) },
        }
    }

    fn fill_cmd(&mut self, window: &str, x: usize, y: usize, width: usize, height: usize, ch: char, fg: u8, bg: u8) -> (r: Response)
        requires
            old(self).wf(),
        ensures
            final(self).wf(),
            (r is Error) <==> old(self).windows.index_of(window@) is None,
            old(self).windows.index_of(window@) is None ==> *final(self) == *old(self),
            old(self).windows.index_of(window@) is Some ==> only_window_changed(old(self).windows, final(self).windows, old(self).windows.index_of(window@)->0)
                && rect_filled(old(self).windows.windows@[old(self).windows.index_of(window@)->0].content,
                    final(self).windows.windows@[old(self).windows.index_of(window@)->0].content, x as int, y as int, width as int, height as int,
                    ch, Color::spec_from_index(fg), Color::spec_from_index(bg)),
    {
        match self.windows.find(window) {
            Some(i) => {
                let ghost before = self.windows.windows@;
                self.windows.windows[i].fill(x, y, width, height, ch, Color::from_index(fg), Some(Color::from_index(bg)));
                proof {
                    lemma_update_wf(before, i as int, self.windows.windows@[i as int]);
                    assert(self.windows.windows@ =~= before.update(i as int, self.windows.windows@[i as int]));
                }
                Response::Ack
            },
            None => Response::Error { message: message_with("Window not found: ", window) },
        }
    }

    fn clear_window_cmd(&mut self, id: &str) -> (r: Response)
        requires
            old(self).wf(),
        ensures
            final(self).wf(),
            (r is Error) <==> old(self).windows.index_of(id@) is None,
            old(self).windows.index_of(id@) is None ==> *final(self) == *old(self),
            old(self).windows.index_of(id@) is Some ==> only_window_changed(old(self).windows, final(self).windows, old(self).windows.index_of(id@)->0)
                && content_cleared(final(self).windows.windows@[old(self).windows.index_of(id@)->0].content,
                    old(self).windows.windows@[old(self).windows.index_of(id@)->0].background),
    {
        match self.windows.find(id) {
            Some(i) => {
                let ghost before = self.windows.windows@;
                self.windows.windows[i].clear();
                proof {
                    lemma_update_wf(before, i as int, self.windows.windows@[i as int]);
                    assert(self.windows.windows@ =~= before.update(i as int, self.windows.windows@[i as int]));
                }
                Response::Ack
            },
            None => Response::Error { message: message_with("Window not found: ", id) },
        }
    }

    fn init_cmd(&mut self, cols: Option<usize>, rows: Option<usize>) -> (r: (Response, Option<String>))
        requires
            old(self).wf(),
        ensures
            final(self).wf(),
            ({
                let c: int = if cols is Some { cols->0 as int } else { 80 };
                let w: int = if rows is Some { rows->0 as int } else { 24 };
                c * w <= usize::MAX ==> final(self).windows.cols == c && final(self).windows.rows == w
                    && final(self).windows.background.all_blank() && r.1 is Some
                    && (r.0 matches Response::Info { cols: rc, rows: rr, .. } && rc == c && rr == w)
            }),
    {
        let c: usize = match cols {
            Some(v) => v,
            None => 80,
        };
        let w: usize = match rows {
            Some(v) => v,
            None => 24,
        };
        if c.checked_mul(w).is_none() {
            return (Response::Error { message: String::from_str("Display too large") }, None);
        }
        self.windows.resize(c, w);
        self.renderer = AnsiIbmRenderer::new(c, w);
        let out = self.renderer.init();
        (Response::Info { cols: c, rows: w, renderer: String::from_str(self.renderer.name()) }, Some(out))
    }

    fn window_command(&mut self, cmd: Command) -> (r: (Response, Option<String>))
        requires
            old(self).wf(),
            is_window_command(cmd),
        ensures
            final(self).wf(),
            command_post(*old(self), *final(self), cmd, r),
    {
        match cmd {
            Command::CreateWindow { id, x, y, width, height, border, title, closable, resizable, draggable, min_width, min_height, invert } => {
                let b = border.to_window();
                (self.create_window_cmd(id.as_str(), x, y, width, height, b, title, closable, resizable, draggable, min_width, min_height, invert), None)
            },
            Command::RemoveWindow { id } => {
                self.windows.remove(id.as_str());
                (Response::Ack, None)
            },
            Command::UpdateWindow { id, x, y, width, height, visible, title, z_index } => {
                (self.update_window_cmd(id.as_str(), x, y, width, height, visible, title, z_index), None)
            },
            Command::SetCell { window, x, y, char, fg, bg } => (self.set_cell_cmd(window.as_str(), x, y, char, fg, bg), None),
            Command::Print { window, x, y, text, fg, bg } => (self.print_cmd(window.as_str(), x, y, text.as_str(), fg, bg), None),
            Command::ClearWindow { id } => (self.clear_window_cmd(id.as_str()), None),
            Command::Fill { window, x, y, width, height, char, fg, bg } => (self.fill_cmd(window.as_str(), x, y, width, height, char, fg, bg), None),
            Command::SetDirect { x, y, char, fg, bg } => {
                self.windows.background.set(x, y, char, Color::from_index(fg), Color::from_index(bg), Attrs::new());
                (Response::Ack, None)
            },
            Command::PrintDirect { x, y, text, fg, bg } => {
                self.windows.background.write_str(x, y, text.as_str(), Color::from_index(fg), Color::from_index(bg), Attrs::new());
                (Response::Ack, None)
            },
            Command::Batch { cells } => {
                self.batch_cmd(&cells);
                (Response::Ack, None)
            },
            Command::BringToFront { id } => {
                self.windows.bring_to_front(id.as_str());
                (Response::Ack, None)
            },
            Command::SendToBack { id } => {
                self.windows.send_to_back(id.as_str());
                (Response::Ack, None)
            },
            _ => (Response::Ack, None),
        }
    }

    fn other_command(&mut self, cmd: Command) -> (r: (Response, Option<String>))
        requires
            old(self).wf(),
            !is_window_command(cmd),
        ensures
            final(self).wf(),
            command_post(*old(self), *final(self), cmd, r),
    {
        match cmd {
            Command::Init { cols, rows } => self.init_cmd(cols, rows),
            Command::Shutdown => (Response::Ack, Some(self.renderer.shutdown())),
            Command::Clear | Command::ClearBackground => {
                self.windows.background.clear();
                (Response::Ack, None)
            },
            Command::Reset => {
                self.windows.clear_all_windows();
                self.windows.background.clear();
                (Response::Ack, None)
            },
            Command::Flush { force_full } => {
                let out = self.flush_output(force_full);
                let data = out.clone();
                (Response::Output { data }, Some(out))
            },
            Command::EnableMouse { mode } => {
                let m = MouseMode::from_str(mode.as_str());
                (Response::Ack, Some(self.renderer.enable_mouse(m)))
            },
            Command::DisableMouse => (Response::Ack, Some(self.renderer.disable_mouse())),
            Command::ListSessions => (server_level("ListSessions"), None),
            Command::ShareDisplay { .. } => (server_level("ShareDisplay"), None),
            Command::UnshareDisplay { .. } => (server_level("UnshareDisplay"), None),
            Command::ShareWindow { .. } => (server_level("ShareWindow"), None),
            Command::UnshareWindow { .. } => (server_level("UnshareWindow"), None),
            Command::CreateTerminal { .. } => (server_level("CreateTerminal"), None),
            Command::CloseTerminal { .. } => (server_level("CloseTerminal"), None),
            Command::TerminalInput { .. } => (server_level("TerminalInput"), None),
            Command::TerminalConfig { .. } => (server_level("TerminalConfig"), None),
            Command::ResizeTerminal { .. } => (server_level("ResizeTerminal"), None),
            _ => (Response::Ack, None),
        }
    }

    /// Carries out a game command on this session. Returns the response and the
    /// bytes, if any, to send to the client.
    pub fn process_command(&mut self, cmd: Command) -> (r: (Response, Option<String>))
        requires
            old(self).wf(),
        ensures
            final(self).wf(),
            command_post(*old(self), *final(self), cmd, r),
    {
        if is_window_cmd(&cmd) {
            self.window_command(cmd)
        } else {
            self.other_command(cmd)
        }
    }

    /// The console overlay (a 60-column box on the top three rows, black on
    /// white), or nothing while the console is closed.
    pub fn draw_console(&self) -> (r: Option<String>)
        ensures
            r is Some <==> self.console_open,
    {
        if !self.console_open {
            return None;
        }
        let width: usize = 60;
        let x: usize = if self.windows.cols >= width { (self.windows.cols - width) / 2 } else { 0 };
        let mut out: Vec<char> = Vec::new();
        push_lit(&mut out, "\x1b[1;");
        push_dec(&mut out, x + 1);
        push_lit(&mut out, "H\x1b[0;30;47m╔");
        push_repeat(&mut out, '═', width - 2);
        push_lit(&mut out, "╗\x1b[2;");
        push_dec(&mut out, x + 1);
        push_lit(&mut out, "H║ APU Console (Ctrl+\\ close) > ");
        let input = chars_of(self.console_input.as_str());
        let start: usize = if input.len() > 25 { input.len() - 25 } else { 0 };
        let mut i: usize = start;
        while i < input.len()
            invariant
                start <= i <= input@.len(),
            decreases input@.len() - i,
        {
            out.push(input[i]);
            i += 1;
        }
        out.push('█');
        push_repeat(&mut out, ' ', width - 33 - (input.len() - start));
        push_lit(&mut out, "║\x1b[3;");
        push_dec(&mut out, x + 1);
        push_lit(&mut out, "H╚");
        push_repeat(&mut out, '═', width - 2);
        push_lit(&mut out, "╝\x1b[0m");
        Some(string_of(out))
    }

    /// Sets the border and chrome flags of window `id`; false when there is no
    /// such window or its content would not fit in memory with that border.
    pub fn set_window_chrome(&mut self, id: &str, border: crate::window::BorderStyle, closable: bool, resizable: bool, draggable: bool) -> (r: bool)
        requires
            old(self).wf(),
        ensures
            final(self).wf(),
            old(self).windows.index_of(id@) is None ==> !r && *final(self) == *old(self),
            old(self).windows.index_of(id@) is Some ==> (r <==> old(self).windows.windows@[old(self).windows.index_of(id@)->0].width
                * old(self).windows.windows@[old(self).windows.index_of(id@)->0].height <= usize::MAX),
            !r ==> *final(self) == *old(self),
            r ==> same_frame(old(self).windows, final(self).windows) && ({
                let i = old(self).windows.index_of(id@)->0;
                let w = old(self).windows.windows@[i];
                final(self).windows.windows@ == old(self).windows.windows@.update(i, Window { border, closable, resizable, draggable,
                    content: final(self).windows.windows@[i].content, dirty: true, ..w })
            }),
            r ==> ({
                let i = old(self).windows.index_of(id@)->0;
                let w = final(self).windows.windows@[i];
                w.border == border && w.closable == closable && w.resizable == resizable && w.draggable == draggable
            }),
    {
        match self.windows.find(id) {
            None => false,
            Some(i) => {
                let ww = self.windows.windows[i].width;
                let wh = self.windows.windows[i].height;
                if ww.checked_mul(wh).is_none() {
                    return false;
                }
                proof {
                    lemma_dims_fit(ww as int, wh as int);
                }
                let ghost before = self.windows.windows@;
                self.windows.windows[i].set_border(border);
                self.windows.windows[i].closable = closable;
                self.windows.windows[i].resizable = resizable;
                self.windows.windows[i].draggable = draggable;
                self.windows.windows[i].dirty = true;
                proof {
                    lemma_update_wf(before, i as int, self.windows.windows@[i as int]);
                    assert(self.windows.windows@ =~= before.update(i as int, self.windows.windows@[i as int]));
                }
                true
            },
        }
    }

    /// Handles an input event while the console is open: printable characters
    /// extend the input line, Backspace removes its last character, Enter runs
    /// it and closes the console, Escape closes the console; nothing reaches the game.
    pub fn console_event(&mut self, event: &InputEvent) -> (r: ConsoleOutcome)
        ensures
            final(self).windows == old(self).windows,
            *event is Char && ((*event)->char as u32) >= 0x20 && (*event)->char != '\x7f' ==>
                final(self).console_input@ == old(self).console_input@.push((*event)->char) && (r.output is Some <==> old(self).console_open)
                && final(self).console_open == old(self).console_open && r.refreshes == 0 && !r.close,
            *event == (InputEvent::Key { key: Key::Backspace }) ==>
                final(self).console_input@ == (if old(self).console_input@.len() > 0 { old(self).console_input@.drop_last() } else { old(self).console_input@ })
                && r.refreshes == 0 && !r.close,
            *event == (InputEvent::Key { key: Key::Enter }) ==> ({
                let (refresh, close) = console_action(lower_of(trim_of(old(self).console_input@)));
                &&& !final(self).console_open && final(self).console_input@.len() == 0
                &&& r.close == close
                &&& r.refreshes == (if close { if refresh { 1u8 } else { 0u8 } } else if refresh { 2u8 } else { 1u8 })
            }),
            *event == (InputEvent::Key { key: Key::Escape }) ==> !final(self).console_open && final(self).console_input@.len() == 0
                && r.refreshes == 1 && !r.close,
    {
        match event {
            InputEvent::Char { char } => {
                if *char >= ' ' && *char != '\x7f' {
                    let mut v = chars_of(self.console_input.as_str());
                    v.push(*char);
                    self.console_input = string_of(v);
                    ConsoleOutcome { output: self.draw_console(), refreshes: 0, close: false }
                } else {
                    ConsoleOutcome { output: None, refreshes: 0, close: false }
                }
            },
            InputEvent::Key { key: Key::Backspace } => {
                let mut v = chars_of(self.console_input.as_str());
                if v.len() > 0 {
                    v.pop();
                }
                self.console_input = string_of(v);
                ConsoleOutcome { output: self.draw_console(), refreshes: 0, close: false }
            },
            InputEvent::Key { key: Key::Enter } => {
                let (refresh, close) = self.process_console_command();
                self.console_open = false;
                let refreshes: u8 = if close {
                    if refresh { 1 } else { 0 }
                } else if refresh {
                    2
                } else {
                    1
                };
                ConsoleOutcome { output: None, refreshes, close }
            },
            InputEvent::Key { key: Key::Escape } => {
                self.console_open = false;
                self.console_input = String::new();
                ConsoleOutcome { output: None, refreshes: 1, close: false }
            },
            _ => ConsoleOutcome { output: None, refreshes: 0, close: false },
        }
    }

    /// Creates the window of an embedded terminal: bordered windows are draggable
    /// and default their title to `host:port`; the minimum size is 10 x 5; the
    /// window gets the keyboard focus.
    pub fn create_terminal_window(&mut self, id: &str, host: &str, port: u16, x: usize, y: usize, width: usize, height: usize,
        border: crate::window::BorderStyle, title: Option<String>, closable: bool, resizable: bool) -> (r: Response)
        requires
            old(self).wf(),
        ensures
            final(self).wf(),
            width * height > usize::MAX ==> r is Error && *final(self) == *old(self),
            width * height <= usize::MAX ==> r is Ack && ({
                let k = final(self).windows.index_of(id@);
                let w = final(self).windows.windows@[k->0];
                &&& k is Some
                &&& w.x == x && w.y == lifted_y(y, false) && w.width == width && w.height == height
                &&& w.border == border && !w.invert
                &&& w.draggable == (border != crate::window::BorderStyle::Borderless)
                &&& w.closable == closable && w.resizable == resizable && w.min_width == 10 && w.min_height == 5
                &&& title is Some ==> w.title == title
                &&& title is None && border != crate::window::BorderStyle::Borderless ==> (w.title matches Some(t)
                    && t@ == host@ + seq![':'] + dec_digits(port as nat))
                &&& final(self).focused_window matches Some(f) && f@ == id@
            }),
    {
        let bordered = border.has_border();
        let t = match title {
            Some(t) => Some(t),
            None => if bordered {
                let mut v = chars_of(host);
                v.push(':');
                push_dec(&mut v, port as usize);
                Some(string_of(v))
            } else {
                None
            },
        };
        let r = self.create_window_cmd(id, x, y, width, height, border, t, closable, resizable, bordered, 10, 5, false);
        if matches!(r, Response::Ack) {
            self.focused_window = Some(id.to_owned());
        }
        r
    }

    /// Moves and resizes the window of an embedded terminal (row 0 kept for the
    /// menu bar) and sets its border and chrome; a borderless one loses its title.
    pub fn resize_terminal_window(&mut self, id: &str, x: usize, y: usize, width: usize, height: usize,
        border: crate::window::BorderStyle, title: Option<String>, closable: bool, resizable: bool, draggable: bool) -> (r: bool)
        requires
            old(self).wf(),
        ensures
            final(self).wf(),
            old(self).windows.index_of(id@) is None ==> !r && *final(self) == *old(self),
            r ==> ({
                let k = final(self).windows.index_of(id@);
                let w = final(self).windows.windows@[k->0];
                &&& k is Some
                &&& w.x == x && w.y == (if y >= 1 { y } else { 1 })
                &&& width * height <= usize::MAX ==> w.width == width && w.height == height
                &&& w.border == border && w.closable == closable && w.resizable == resizable && w.draggable == draggable
                &&& title is Some ==> w.title == title
                &&& title is None && border == crate::window::BorderStyle::Borderless ==> (w.title matches Some(t) && t@.len() == 0)
            }),
    {
        let t = match title {
            Some(t) => Some(t),
            None => if border.has_border() { None } else { Some(String::new()) },
        };
        let ly: usize = if y >= 1 { y } else { 1 };
        let u = self.update_window_cmd(id, Some(x), Some(ly), Some(width), Some(height), None, t, None);
        if matches!(u, Response::Error { .. }) {
            return false;
        }
        let ghost mid = *self;
        let ok = self.set_window_chrome(id, border, closable, resizable, draggable);
        proof {
            if ok {
                let k = mid.windows.index_of(id@)->0;
                lemma_unique_position(self.windows.windows@, k);
            }
        }
        ok
    }

}

/// Whether one of the strings holds the characters `t`.
pub open spec fn seq_has(s: Seq<String>, t: Seq<char>) -> bool {
    exists|k: int| 0 <= k < s.len() && (#[trigger] s[k])@ == t
}

fn add_unique(v: &mut Vec<String>, t: &str)
    ensures
        seq_has(final(v)@, t@),
        seq_has(old(v)@, t@) ==> final(v)@ == old(v)@,
{
    let mut i: usize = 0;
    while i < v.len()
        invariant
            i <= v@.len(),
            forall|k: int| 0 <= k < i ==> (#[trigger] v@[k])@ != t@,
        decreases v@.len() - i,
    {
        if str_eq(v[i].as_str(), t) {
            return;
        }
        i += 1;
    }
    v.push(t.to_owned());
    assert(v@[v@.len() - 1]@ == t@);
}

fn remove_all(v: &mut Vec<String>, t: &str)
    ensures
        !seq_has(final(v)@, t@),
{
    let mut out: Vec<String> = Vec::new();
    let mut i: usize = 0;
    while i < v.len()
        invariant
            i <= v@.len(),
            forall|k: int| 0 <= k < out@.len() ==> (#[trigger] out@[k])@ != t@,
        decreases v@.len() - i,
    {
        if !str_eq(v[i].as_str(), t) {
            out.push(v[i].clone());
        }
        i += 1;
    }
    *v = out;

}

/// What a console command asks for: `(refresh, close)`.
pub open spec fn console_action(cmd: Seq<char>) -> (bool, bool) {
    if cmd == "reset"@ {
        (true, false)
    } else if cmd == "close"@ {
        (false, true)
    } else {
        (false, false)
    }
}

fn console_action_of(cmd: &str) -> (r: (bool, bool))
    ensures
        r == console_action(cmd@),
{
    if str_eq(cmd, "reset") {
        (true, false)
    } else if str_eq(cmd, "close") {
        (false, true)
    } else {
        (false, false)
    }
}

/// The Unicode White_Space characters (what `str::trim` removes).
pub open spec fn is_white_space(c: char) -> bool {
    let u = c as u32;
    (0x9 <= u <= 0xd) || u == 0x20 || u == 0x85 || u == 0xa0 || u == 0x1680 || (0x2000 <= u <= 0x200a)
        || u == 0x2028 || u == 0x2029 || u == 0x202f || u == 0x205f || u == 0x3000
}

/// Index of the first character at or after `i` that is not white space.
pub open spec fn first_kept(s: Seq<char>, i: int) -> int
    decreases s.len() - i,
{
    if i < 0 || i >= s.len() {
        s.len() as int
    } else if !is_white_space(s[i]) {
        i
    } else {
        first_kept(s, i + 1)
    }
}

/// Length of `s` without its trailing white space.
pub open spec fn end_kept(s: Seq<char>) -> int
    decreases s.len(),
{
    if s.len() == 0 {
        0
    } else if is_white_space(s.last()) {
        end_kept(s.drop_last())
    } else {
        s.len() as int
    }
}

/// `s` without leading and trailing white space.
pub open spec fn trim_of(s: Seq<char>) -> Seq<char> {
    let a = first_kept(s, 0);
    let b = end_kept(s);
    if a < b { s.subrange(a, b) } else { Seq::empty() }
}

fn is_white_space_exec(c: char) -> (r: bool)
    ensures
        r == is_white_space(c),
{
    let u = c as u32;
    (0x9 <= u && u <= 0xd) || u == 0x20 || u == 0x85 || u == 0xa0 || u == 0x1680 || (0x2000 <= u && u <= 0x200a)
        || u == 0x2028 || u == 0x2029 || u == 0x202f || u == 0x205f || u == 0x3000
}

proof fn lemma_end_from(s: Seq<char>, b: int)
    requires
        0 <= b <= s.len(),
        forall|k: int| b <= k < s.len() ==> is_white_space(#[trigger] s[k]),
        b > 0 ==> !is_white_space(s[b - 1]),
    ensures
        end_kept(s) == b,
    decreases s.len(),
{
    if s.len() > b {
        assert(is_white_space(s[s.len() - 1]));
        assert forall|k: int| b <= k < s.drop_last().len() implies is_white_space(#[trigger] s.drop_last()[k]) by {
            assert(s.drop_last()[k] == s[k]);
        }
        lemma_end_from(s.drop_last(), b);
    }
}

/// `s` without leading and trailing white space.
fn trimmed(s: &str) -> (r: Vec<char>)
    ensures
        r@ == trim_of(s@),
{
    let cs = chars_of(s);
    let n = cs.len();
    let mut a: usize = 0;
    while a < n && is_white_space_exec(cs[a])
        invariant
            a <= n,
            n == cs@.len(),
            cs@ == s@,
            first_kept(cs@, 0) == first_kept(cs@, a as int),
        decreases n - a,
    {
        a += 1;
    }
    let mut b: usize = n;
    while b > 0 && is_white_space_exec(cs[b - 1])
        invariant
            b <= n,
            n == cs@.len(),
            forall|k: int| b <= k < n ==> is_white_space(#[trigger] cs@[k]),
        decreases b,
    {
        b -= 1;
    }
    proof {
        lemma_end_from(cs@, b as int);
    }
    let mut out: Vec<char> = Vec::new();
    if a < b {
        let mut k: usize = a;
        while k < b
            invariant
                a <= k <= b,
                b <= n,
                n == cs@.len(),
                out@ == cs@.subrange(a as int, k as int),
            decreases b - k,
        {
            out.push(cs[k]);
            k += 1;
            assert(out@ =~= cs@.subrange(a as int, k as int));
        }
    }
    assert(out@ =~= trim_of(s@));
    out
}

/// `prefix` followed by `id`.
fn message_with(prefix: &str, id: &str) -> (r: String)
    ensures
        r@ == prefix@ + id@,
{
    let mut m = String::from_str(prefix);
    m.append(id);
    m
}

/// The error for a command that the server handles before sessions see it.
fn server_level(name: &str) -> (r: Response)
    ensures
        r is Error,
{
    Response::Error { message: message_with(name, " should be handled at server level") }
}

/// Applies the optional position, size, visibility and title of an update to `w`
/// (row 0 is kept for the menu bar unless `w` inverts).
fn update_fields(w: &mut Window, x: Option<usize>, y: Option<usize>, width: Option<usize>, height: Option<usize>,
    visible: Option<bool>, title: Option<String>)
    requires
        old(w).wf(),
    ensures
        final(w).wf(),
        final(w).id == old(w).id && final(w).z_index == old(w).z_index && final(w).invert == old(w).invert,
        updated_window(*old(w), *final(w), x, y, width, height, visible, title, None),
{
    let ghost o = *w;
    if let (Some(nw), Some(nh)) = (width, height) {
        if nw.checked_mul(nh).is_some() {
            proof {
                lemma_dims_fit(nw as int, nh as int);
            }
            w.resize(nw, nh);
        }
    }
    let ghost o2 = *w;
    assert(o2.width == (if width is Some && height is Some && width->0 * height->0 <= usize::MAX { width->0 } else { o.width }));
    assert(o2.height == (if width is Some && height is Some && width->0 * height->0 <= usize::MAX { height->0 } else { o.height }));
    if let Some(nx) = x {
        w.x = nx;
        w.dirty = true;
    }
    if let Some(ny) = y {
        w.y = if w.invert { ny } else if ny < 1 { 1 } else { ny };
        w.dirty = true;
    }
    if let Some(v) = visible {
        w.visible = v;
        w.dirty = true;
    }
    if let Some(t) = title {
        w.set_title(t);
    }
}

/// The first `n` (at most 5) of the given bytes.
fn bytes(n: usize, a: u8, b: u8, c: u8, d: u8, e: u8) -> (r: Vec<u8>)
    requires
        n <= 5,
    ensures
        r@ == seq![a, b, c, d, e].take(n as int),
{
    let mut v: Vec<u8> = Vec::new();
    if n > 0 {
        v.push(a);
    }
    if n > 1 {
        v.push(b);
    }
    if n > 2 {
        v.push(c);
    }
    if n > 3 {
        v.push(d);
    }
    if n > 4 {
        v.push(e);
    }
    assert(v@ =~= seq![a, b, c, d, e].take(n as int));
    v
}

/// The bytes a terminal expects for a key; Enter follows the line-ending setting
/// (`"crlf"`, `"lf"`, otherwise CR).
pub open spec fn key_bytes(k: Key, le: Seq<char>) -> Seq<u8> {
    match k {
        Key::Up => seq![27u8, 91, 65],
        Key::Down => seq![27u8, 91, 66],
        Key::Right => seq![27u8, 91, 67],
        Key::Left => seq![27u8, 91, 68],
        Key::Home => seq![27u8, 91, 72],
        Key::End => seq![27u8, 91, 70],
        Key::PageUp => seq![27u8, 91, 53, 126],
        Key::PageDown => seq![27u8, 91, 54, 126],
        Key::Insert => seq![27u8, 91, 50, 126],
        Key::Delete => seq![27u8, 91, 51, 126],
        Key::Backspace => seq![8u8],
        Key::Enter => if le == "crlf"@ { seq![13u8, 10] } else if le == "lf"@ { seq![10u8] } else { seq![13u8] },
        Key::Tab => seq![9u8],
        Key::Escape => seq![27u8],
        Key::F1 => seq![27u8, 79, 80],
        Key::F2 => seq![27u8, 79, 81],
        Key::F3 => seq![27u8, 79, 82],
        Key::F4 => seq![27u8, 79, 83],
        Key::F5 => seq![27u8, 91, 49, 53, 126],
        Key::F6 => seq![27u8, 91, 49, 55, 126],
        Key::F7 => seq![27u8, 91, 49, 56, 126],
        Key::F8 => seq![27u8, 91, 49, 57, 126],
        Key::F9 => seq![27u8, 91, 50, 48, 126],
        Key::F10 => seq![27u8, 91, 50, 49, 126],
        Key::F11 => seq![27u8, 91, 50, 51, 126],
        Key::F12 => seq![27u8, 91, 50, 52, 126],
    }
}

fn key_to_bytes(k: Key, line_ending: &str) -> (r: Vec<u8>)
    ensures
        r@ == key_bytes(k, line_ending@),
{
    let r = match k {
        Key::Up => bytes(3, 27, 91, 65, 0, 0),
        Key::Down => bytes(3, 27, 91, 66, 0, 0),
        Key::Right => bytes(3, 27, 91, 67, 0, 0),
        Key::Left => bytes(3, 27, 91, 68, 0, 0),
        Key::Home => bytes(3, 27, 91, 72, 0, 0),
        Key::End => bytes(3, 27, 91, 70, 0, 0),
        Key::PageUp => bytes(4, 27, 91, 53, 126, 0),
        Key::PageDown => bytes(4, 27, 91, 54, 126, 0),
        Key::Insert => bytes(4, 27, 91, 50, 126, 0),
        Key::Delete => bytes(4, 27, 91, 51, 126, 0),
        Key::Backspace => bytes(1, 8, 0, 0, 0, 0),
        Key::Enter => if str_eq(line_ending, "crlf") {
            bytes(2, 13, 10, 0, 0, 0)
        } else if str_eq(line_ending, "lf") {
            bytes(1, 10, 0, 0, 0, 0)
        } else {
            bytes(1, 13, 0, 0, 0, 0)
        },
        Key::Tab => bytes(1, 9, 0, 0, 0, 0),
        Key::Escape => bytes(1, 27, 0, 0, 0, 0),
        Key::F1 => bytes(3, 27, 79, 80, 0, 0),
        Key::F2 => bytes(3, 27, 79, 81, 0, 0),
        Key::F3 => bytes(3, 27, 79, 82, 0, 0),
        Key::F4 => bytes(3, 27, 79, 83, 0, 0),
        Key::F5 => bytes(5, 27, 91, 49, 53, 126),
        Key::F6 => bytes(5, 27, 91, 49, 55, 126),
        Key::F7 => bytes(5, 27, 91, 49, 56, 126),
        Key::F8 => bytes(5, 27, 91, 49, 57, 126),
        Key::F9 => bytes(5, 27, 91, 50, 48, 126),
        Key::F10 => bytes(5, 27, 91, 50, 49, 126),
        Key::F11 => bytes(5, 27, 91, 50, 51, 126),
        Key::F12 => bytes(5, 27, 91, 50, 52, 126),
    };
    proof {
        assert(r@ =~= key_bytes(k, line_ending@));
    }
    r
}

/// Relies on `char::to_string` (through `Display`): a string of that one character.
#[verifier::external_body]
fn char_string(c: char) -> (r: String)
    ensures
        r@ == seq![c],
{
    c.to_string()
}

/// The UTF-8 encoding of one character.
fn utf8_of(c: char) -> (r: Vec<u8>)
    ensures
        r@ == encode_utf8(seq![c]),
{
    let s = char_string(c);
    vstd::slice::slice_to_vec(s.as_str().as_bytes())
}

/// The bytes to send a terminal for an input event: a character's UTF-8
/// encoding, a key's escape sequence, nothing for mouse reports.
pub fn input_event_to_bytes(event: &InputEvent, line_ending: &str) -> (r: Vec<u8>)
    ensures
        *event matches InputEvent::Char { char } ==> r@ == encode_utf8(seq![char]),
        *event matches InputEvent::Key { key } ==> r@ == key_bytes(key, line_ending@),
        *event is Mouse ==> r@.len() == 0,
{
    match event {
        InputEvent::Char { char } => utf8_of(*char),
        InputEvent::Key { key } => key_to_bytes(*key, line_ending),
        InputEvent::Mouse { .. } => Vec::new(),
    }
}

/// Whether an input event toggles the debug console (Ctrl-\ or F10).
pub fn is_console_toggle(event: &InputEvent) -> (r: bool)
    ensures
        r == (*event == InputEvent::Char { char: '\x1c' } || *event == InputEvent::Key { key: Key::F10 }),
{
    match event {
        InputEvent::Char { char } => *char == '\x1c',
        InputEvent::Key { key } => *key == Key::F10,
        InputEvent::Mouse { .. } => false,
    }
}

/// The border a terminal window gets from its name: `none`, `double`, otherwise single.
pub open spec fn terminal_border_of(name: Seq<char>) -> crate::window::BorderStyle {
    if name == "none"@ {
        crate::window::BorderStyle::Borderless
    } else if name == "double"@ {
        crate::window::BorderStyle::Double
    } else {
        crate::window::BorderStyle::Single
    }
}

pub fn terminal_border(name: &str) -> (r: crate::window::BorderStyle)
    ensures
        r == terminal_border_of(name@),
{
    if str_eq(name, "none") {
        crate::window::BorderStyle::Borderless
    } else if str_eq(name, "double") {
        crate::window::BorderStyle::Double
    } else {
        crate::window::BorderStyle::Single
    }
}

/// The emulator size for a terminal window of `width` x `height`: two less each
/// way when bordered (never below zero).
pub fn terminal_content_size(border: crate::window::BorderStyle, width: usize, height: usize) -> (r: (usize, usize))
    ensures
        r.0 == crate::window::content_w(width as int, border),
        r.1 == crate::window::content_w(height as int, border),
{
    if border.has_border() {
        (if width >= 2 { width - 2 } else { 0 }, if height >= 2 { height - 2 } else { 0 })
    } else {
        (width, height)
    }
}

/// Appends `n` copies of `c`.
fn push_repeat(out: &mut Vec<char>, c: char, n: usize)
    ensures
        final(out)@ == old(out)@ + Seq::new(n as nat, |i: int| c),
{
    let mut k: usize = 0;
    while k < n
        invariant
            k <= n,
            out@ == old(out)@ + Seq::new(k as nat, |i: int| c),
        decreases n - k,
    {
        out.push(c);
        k += 1;
        assert(out@ =~= old(out)@ + Seq::new(k as nat, |i: int| c));
    }
}

/// Window `k` is the frontmost one covering `(x, y)`.
pub open spec fn is_topmost(ws: Seq<Window>, k: int, x: int, y: int) -> bool {
    &&& 0 <= k < ws.len()
    &&& ws[k].spec_contains(x, y)
    &&& forall|m: int| k < m < ws.len() ==> !(#[trigger] ws[m]).spec_contains(x, y)
}

/// The frontmost window covering `(x, y)` (meaningful when there is one).
pub open spec fn top_index(ws: Seq<Window>, x: int, y: int) -> int {
    choose|k: int| is_topmost(ws, k, x, y)
}

proof fn lemma_topmost_unique(ws: Seq<Window>, x: int, y: int, k: int)
    requires
        is_topmost(ws, k, x, y),
    ensures
        top_index(ws, x, y) == k,
{
    let t = top_index(ws, x, y);
    assert(is_topmost(ws, t, x, y));
    if t < k {
        assert(!ws[k].spec_contains(x, y));
    } else if k < t {
        assert(!ws[t].spec_contains(x, y));
    }
}

/// Sets a window's border, title and chrome configuration.
fn configure(w: &mut Window, border: crate::window::BorderStyle, title: Option<String>, closable: bool, resizable: bool,
    draggable: bool, min_width: usize, min_height: usize, invert: bool)
    requires
        old(w).wf(),
        crate::window::dims_ok(old(w).width as int, old(w).height as int, border),
    ensures
        final(w).wf(),
        final(w).id == old(w).id && final(w).z_index == old(w).z_index,
        final(w).x == old(w).x && final(w).y == old(w).y,
        final(w).width == old(w).width && final(w).height == old(w).height,
        final(w).border == border && final(w).invert == invert,
        final(w).closable == closable && final(w).resizable == resizable && final(w).draggable == draggable,
        final(w).min_width == min_width && final(w).min_height == min_height,
        title is Some ==> final(w).title == title,
{
    w.set_border(border);
    if let Some(t) = title {
        w.set_title(t);
    }
    w.closable = closable;
    w.resizable = resizable;
    w.draggable = draggable;
    w.min_width = min_width;
    w.min_height = min_height;
    w.invert = invert;
}

/// What typing `event` shows in a terminal with local echo: the character
/// itself, CR LF for Enter, backspace-space-backspace for Backspace, else nothing.
pub fn local_echo_bytes(event: &InputEvent) -> (r: Vec<u8>)
    ensures
        *event is Char ==> r@ == encode_utf8(seq![(*event)->char]),
        *event == (InputEvent::Key { key: Key::Enter }) ==> r@ == seq![13u8, 10],
        *event == (InputEvent::Key { key: Key::Backspace }) ==> r@ == seq![8u8, 32, 8],
        !(*event is Char) && *event != (InputEvent::Key { key: Key::Enter }) && *event != (InputEvent::Key { key: Key::Backspace }) ==> r@.len() == 0,
{
    match event {
        InputEvent::Char { char } => utf8_of(*char),
        InputEvent::Key { key: Key::Enter } => {
            let r = bytes(2, 13, 10, 0, 0, 0);
            assert(r@ =~= seq![13u8, 10]);
            r
        },
        InputEvent::Key { key: Key::Backspace } => {
            let r = bytes(3, 8, 32, 8, 0, 0);
            assert(r@ =~= seq![8u8, 32, 8]);
            r
        },
        _ => Vec::new(),
    }
}

/// `d` is the display that compositing the windows of `wm` over its background gives.
pub open spec fn flushed_display(d: Grid, wm: WindowManager) -> bool {
    &&& d.wf()
    &&& d.cols == wm.cols && d.rows == wm.rows
    &&& forall|px: int, py: int| d.in_bounds(px, py) ==> #[trigger] d.at(px, py)
        == composed(wm.windows@, px, py, copied_cell(wm.background.at(px, py)))
}

/// The frame of a window manager (size and layers) is the same in both.
pub open spec fn same_frame(o: WindowManager, f: WindowManager) -> bool {
    o.cols == f.cols && o.rows == f.rows && o.background == f.background && o.display == f.display
}

/// The windows after `bring_to_front` of window `i` (when no z-index is at its maximum).
pub open spec fn fronted(ws: Seq<Window>, i: int) -> Seq<Window> {
    ws.remove(i).push(Window { z_index: (ws.last().z_index + 1) as i32, ..ws[i] })
}

/// Window `i` is raised to the front, as `bring_to_front` does.
pub open spec fn raised(o: WindowManager, f: WindowManager, i: int) -> bool {
    &&& same_frame(o, f)
    &&& o.windows@.last().z_index < i32::MAX ==> f.windows@ == fronted(o.windows@, i)
}

/// A second press on the title bar of window `id` within the double-click time of the last one.
pub open spec fn is_double_click(last: Option<TitleBarClick>, id: Seq<char>, now: u64) -> bool {
    last matches Some(l) && l.window_id@ == id && now >= l.time_ms && now - l.time_ms < DOUBLE_CLICK_MS
}

/// What a left press does.
pub open spec fn press_post(o: ClientSession, f: ClientSession, x: int, y: int, now: u64, r: (Vec<Response>, bool)) -> bool {
    let ws = o.windows.windows@;
    if !(exists|k: int| is_topmost(ws, k, x, y)) {
        r.0@.len() == 0 && r.1 && f == o
    } else {
        let k = top_index(ws, x, y);
        let w = ws[k];
        if w.spec_hit_close(x, y) {
            !r.1 && r.0@.len() == 1 && f == o && (r.0@[0] matches Response::WindowCloseRequested { id } && id@ == w.id@)
        } else if w.spec_hit_handle(x, y) {
            &&& !r.1 && r.0@.len() == 0
            &&& f.interaction.resizing matches Some(rs) && rs.window_id@ == w.id@ && rs.original_width == w.width
                && rs.original_height == w.height && rs.start_x == x && rs.start_y == y
            &&& f.interaction.dragging == o.interaction.dragging && f.interaction.last_title_bar_click == o.interaction.last_title_bar_click
            &&& f.focused_window == o.focused_window
            &&& raised(o.windows, f.windows, k)
        } else if w.spec_hit_title(x, y) {
            &&& !r.1
            &&& raised(o.windows, f.windows, k)
            &&& f.focused_window == o.focused_window && f.interaction.resizing == o.interaction.resizing
            &&& if is_double_click(o.interaction.last_title_bar_click, w.id@, now) {
                &&& r.0@.len() == 1 && (r.0@[0] matches Response::WindowMaximizeRequested { id } && id@ == w.id@)
                &&& f.interaction.last_title_bar_click is None
                &&& f.interaction.dragging == o.interaction.dragging
            } else {
                &&& r.0@.len() == 0
                &&& f.interaction.last_title_bar_click matches Some(c) && c.window_id@ == w.id@ && c.time_ms == now
                &&& f.interaction.dragging matches Some(d) && d.window_id@ == w.id@ && d.offset_x == x - w.x && d.offset_y == y - w.y
            }
        } else {
            &&& r.1 && r.0@.len() == 1 && (r.0@[0] matches Response::WindowFocused { id } && id@ == w.id@)
            &&& f.focused_window matches Some(fw) && fw@ == w.id@
            &&& f.interaction == o.interaction
            &&& raised(o.windows, f.windows, k)
        }
    }
}

/// What a drag or move report does: moves the dragged window (clamped), resizes
/// the window being resized, or nothing; the report goes to the game only when
/// neither is under way.
pub open spec fn motion_post(o: ClientSession, f: ClientSession, x: int, y: int, r: (Vec<Response>, bool)) -> bool {
    let ws = o.windows.windows@;
    &&& r.0@.len() == 0
    &&& r.1 == (o.interaction.dragging is None && o.interaction.resizing is None)
    &&& f.interaction == o.interaction && f.focused_window == o.focused_window
    &&& same_frame(o.windows, f.windows)
    &&& o.interaction.dragging is None && o.interaction.resizing is None ==> f == o
    &&& o.interaction.dragging is Some && o.interaction.resizing is None ==> ({
        let d = o.interaction.dragging->0;
        match o.windows.index_of(d.window_id@) {
            None => f.windows == o.windows,
            Some(i) => {
                let w = ws[i];
                f.windows.windows@ == ws.update(i, Window {
                    x: drag_coord(x, d.offset_x as int, 0, o.windows.cols as int, w.width as int) as usize,
                    y: drag_coord(y, d.offset_y as int, 1, o.windows.rows as int, w.height as int) as usize,
                    dirty: true,
                    ..w
                })
            },
        }
    })
    &&& o.interaction.dragging is None && o.interaction.resizing is Some ==> ({
        let rs = o.interaction.resizing->0;
        match o.windows.index_of(rs.window_id@) {
            None => f.windows == o.windows,
            Some(i) => {
                let w = ws[i];
                let nw = resize_dim(rs.original_width as int, x - rs.start_x, w.min_width as int, o.windows.cols as int, w.x as int);
                let nh = resize_dim(rs.original_height as int, y - rs.start_y, w.min_height as int, o.windows.rows as int, w.y as int);
                if nw == w.width && nh == w.height {
                    f.windows == o.windows
                } else {
                    &&& f.windows.windows@ == ws.update(i, Window { width: nw as usize, height: nh as usize, content: f.windows.windows@[i].content, dirty: true, ..w })
                    &&& f.windows.windows@[i].content.all_blank()
                }
            },
        }
    })
}

/// What a release does: ends any drag or resize, reporting the window's final
/// position or size; the report goes to the game only when neither was under way.
pub open spec fn release_post(o: ClientSession, f: ClientSession, r: (Vec<Response>, bool)) -> bool {
    let ws = o.windows.windows@;
    &&& f.windows == o.windows
    &&& f.interaction.dragging is None && f.interaction.resizing is None
    &&& f.interaction.last_title_bar_click == o.interaction.last_title_bar_click
    &&& f.focused_window == o.focused_window
    &&& r.1 == (o.interaction.dragging is None && o.interaction.resizing is None)
    &&& o.interaction.dragging is None && o.interaction.resizing is None ==> r.0@.len() == 0
    &&& o.interaction.dragging is Some && o.interaction.resizing is None ==> ({
        let d = o.interaction.dragging->0;
        match o.windows.index_of(d.window_id@) {
            None => r.0@.len() == 0,
            Some(i) => r.0@.len() == 1 && (r.0@[0] matches Response::WindowMoved { id, x, y } && id@ == d.window_id@ && x == ws[i].x && y == ws[i].y),
        }
    })
    &&& o.interaction.dragging is None && o.interaction.resizing is Some ==> ({
        let rs = o.interaction.resizing->0;
        match o.windows.index_of(rs.window_id@) {
            None => r.0@.len() == 0,
            Some(i) => r.0@.len() == 1 && (r.0@[0] matches Response::WindowResized { id, width, height }
                && id@ == rs.window_id@ && width == ws[i].width && height == ws[i].height),
        }
    })
}

/// Only window `i` changed, and only in its content (it is marked dirty).
pub open spec fn only_window_changed(o: WindowManager, f: WindowManager, i: int) -> bool {
    &&& same_frame(o, f)
    &&& 0 <= i < o.windows@.len()
    &&& f.windows@ == o.windows@.update(i, Window { content: f.windows@[i].content, dirty: true, ..o.windows@[i] })
}

/// Grid `f` is `o` with the cell at `(x, y)` set.
pub open spec fn cell_written(o: Grid, f: Grid, x: int, y: int, ch: char, fg: Color, bg: Color) -> bool {
    forall|px: int, py: int| f.in_bounds(px, py) ==> #[trigger] f.at(px, py) == if px == x && py == y {
        cell_after_set(o.at(px, py), ch, fg, bg, no_attrs())
    } else {
        o.at(px, py)
    }
}

/// Grid `f` is `o` with `t` written rightwards from `(x, y)`.
pub open spec fn text_written(o: Grid, f: Grid, x: int, y: int, t: Seq<char>, fg: Color, bg: Color) -> bool {
    forall|px: int, py: int| f.in_bounds(px, py) ==> #[trigger] f.at(px, py) == if py == y && x <= px < x + t.len() {
        cell_after_set(o.at(px, py), t[px - x], fg, bg, no_attrs())
    } else {
        o.at(px, py)
    }
}

/// Grid `f` is `o` with the rectangle `[x, x+w) x [y, y+h)` filled with `ch`.
pub open spec fn rect_filled(o: Grid, f: Grid, x: int, y: int, w: int, h: int, ch: char, fg: Color, bg: Color) -> bool {
    forall|px: int, py: int| f.in_bounds(px, py) ==> #[trigger] f.at(px, py) == if x <= px < x + w && y <= py < y + h {
        cell_after_set(o.at(px, py), ch, fg, bg, no_attrs())
    } else {
        o.at(px, py)
    }
}

/// Every cell of `f` is a dirty space, white on `bg`.
pub open spec fn content_cleared(f: Grid, bg: Color) -> bool {
    forall|px: int, py: int| f.in_bounds(px, py) ==> #[trigger] f.at(px, py)
        == (Cell { char: ' ', fg: Color::White, bg, attrs: no_attrs(), dirty: true })
}

/// A window's row after a create or update: lifted to at least 1 (row 0 is the
/// menu bar) unless the window inverts.
pub open spec fn lifted_y(y: usize, invert: bool) -> usize {
    if invert || y >= 1 { y } else { 1 }
}

/// Window `n` is `o` after a partial update: each given field set (the row lifted,
/// the size only when both are given and fit in memory), the others kept.
pub open spec fn updated_window(o: Window, n: Window, x: Option<usize>, y: Option<usize>, width: Option<usize>,
    height: Option<usize>, visible: Option<bool>, title: Option<String>, z: Option<i32>) -> bool {
    let resized = width is Some && height is Some && width->0 * height->0 <= usize::MAX;
    &&& n.id == o.id && n.invert == o.invert && n.border == o.border
    &&& n.x == (if x is Some { x->0 } else { o.x })
    &&& n.y == (if y is Some { lifted_y(y->0, o.invert) } else { o.y })
    &&& n.width == (if resized { width->0 } else { o.width })
    &&& n.height == (if resized { height->0 } else { o.height })
    &&& n.visible == (if visible is Some { visible->0 } else { o.visible })
    &&& n.title == (if title is Some { title } else { o.title })
    &&& n.z_index == (if z is Some { z->0 } else { o.z_index })
}

/// `f` is `o` after one batch cell: written into its window's content (nothing if
/// that window does not exist), or into the background when it names no window.
pub open spec fn batch_cell_applied(o: WindowManager, f: WindowManager, c: crate::protocol::BatchCell) -> bool {
    let fg = Color::spec_from_index(c.fg);
    let bg = Color::spec_from_index(c.bg);
    match c.window {
        Some(wid) => match o.index_of(wid@) {
            None => f == o,
            Some(i) => only_window_changed(o, f, i)
                && cell_written(o.windows@[i].content, f.windows@[i].content, c.x as int, c.y as int, c.char, fg, bg),
        },
        None => f.windows == o.windows && f.cols == o.cols && f.rows == o.rows && f.display == o.display
            && f.background.cols == o.background.cols && f.background.rows == o.background.rows
            && cell_written(o.background, f.background, c.x as int, c.y as int, c.char, fg, bg),
    }
}

/// `f` is `o` after the batch `cells`, applied one after another.
pub open spec fn batch_applied(o: WindowManager, f: WindowManager, cells: Seq<crate::protocol::BatchCell>) -> bool {
    exists|h: Seq<WindowManager>| h.len() == cells.len() + 1 && h[0] == o && h[h.len() - 1] == f
        && forall|m: int| 0 <= m < cells.len() ==> #[trigger] batch_cell_applied(h[m], h[m + 1], cells[m])
}

/// The bytes a key or character sends to the focused terminal (`None` when no
/// terminal has the focus or the event sends nothing; the event then goes to the game).
pub fn terminal_bytes_for(event: &InputEvent, focused_line_ending: Option<&str>) -> (r: Option<Vec<u8>>)
    ensures
        focused_line_ending is None ==> r is None,
        focused_line_ending is Some ==> ({
            let le = focused_line_ending->0@;
            &&& *event is Mouse ==> r is None
            &&& *event is Char ==> r is Some && r->0@ == encode_utf8(seq![(*event)->char])
            &&& *event is Key ==> r is Some && r->0@ == key_bytes((*event)->key, le)
        }),
{
    match focused_line_ending {
        None => None,
        Some(le) => {
            let b = input_event_to_bytes(event, le);
            if b.len() > 0 {
                Some(b)
            } else {
                proof {
                    if *event is Char {
                        assert(encode_utf8(seq![(*event)->char]).len() > 0) by {
                            reveal_with_fuel(vstd::utf8::encode_utf8, 2);
                        }
                    }
                }
                None
            }
        },
    }
}

/// What a game command does to a session, clause by clause.
pub open spec fn command_post(o: ClientSession, f: ClientSession, cmd: Command, r: (Response, Option<String>)) -> bool {
    &&& (cmd matches Command::Init { cols, rows } ==> ({
            let c: int = if cols is Some { cols->0 as int } else { 80 };
            let w: int = if rows is Some { rows->0 as int } else { 24 };
            c * w <= usize::MAX ==> f.windows.cols == c && f.windows.rows == w
                && f.windows.background.all_blank() && r.1 is Some
                && (r.0 matches Response::Info { cols: rc, rows: rr, .. } && rc == c && rr == w)
        }))
    &&& ((cmd is Clear || cmd is ClearBackground) ==> f.windows.background.all_blank()
            && f.windows.windows == o.windows.windows && r.0 is Ack)
    &&& (cmd matches Command::Batch { cells } ==> r.0 is Ack && batch_applied(o.windows, f.windows, cells@))
    &&& (cmd is Reset ==> f.windows.background.all_blank() && f.windows.windows@.len() == 0)
    &&& (cmd matches Command::SetDirect { x, y, char, fg, bg } ==> f.windows.windows == o.windows.windows
            && forall|px: int, py: int| f.windows.background.in_bounds(px, py) ==> #[trigger] f.windows.background.at(px, py)
                == if px == x && py == y {
                    cell_after_set(o.windows.background.at(px, py), char, Color::spec_from_index(fg), Color::spec_from_index(bg), no_attrs())
                } else {
                    o.windows.background.at(px, py)
                })
    &&& (cmd matches Command::PrintDirect { x, y, text, fg, bg } ==> f.windows.windows == o.windows.windows
            && forall|px: int, py: int| f.windows.background.in_bounds(px, py) ==> #[trigger] f.windows.background.at(px, py)
                == if py == y && x <= px < x + text@.len() {
                    cell_after_set(o.windows.background.at(px, py), text@[px - x], Color::spec_from_index(fg), Color::spec_from_index(bg), no_attrs())
                } else {
                    o.windows.background.at(px, py)
                })
    &&& (cmd matches Command::RemoveWindow { id } ==> ({
            &&& o.windows.index_of(id@) is None ==> f.windows == o.windows
            &&& o.windows.index_of(id@) is Some ==> f.windows.windows@ == o.windows.windows@.remove(o.windows.index_of(id@)->0)
        }))
    &&& (cmd matches Command::SetCell { window, x, y, char, fg, bg } ==> ((r.0 is Error) <==> o.windows.index_of(window@) is None)
            && (o.windows.index_of(window@) is None ==> f == o)
            && (o.windows.index_of(window@) is Some ==> only_window_changed(o.windows, f.windows, o.windows.index_of(window@)->0)
                && cell_written(o.windows.windows@[o.windows.index_of(window@)->0].content,
                    f.windows.windows@[o.windows.index_of(window@)->0].content, x as int, y as int, char, Color::spec_from_index(fg), Color::spec_from_index(bg))))
    &&& (cmd matches Command::Print { window, x, y, text, fg, bg } ==> (o.windows.index_of(window@) is None ==> f == o)
            && (o.windows.index_of(window@) is Some ==> only_window_changed(o.windows, f.windows, o.windows.index_of(window@)->0)
                && text_written(o.windows.windows@[o.windows.index_of(window@)->0].content,
                    f.windows.windows@[o.windows.index_of(window@)->0].content, x as int, y as int, text@, Color::spec_from_index(fg), Color::spec_from_index(bg))))
    &&& (cmd matches Command::Fill { window, x, y, width, height, char, fg, bg } ==> (o.windows.index_of(window@) is None ==> f == o)
            && (o.windows.index_of(window@) is Some ==> only_window_changed(o.windows, f.windows, o.windows.index_of(window@)->0)
                && rect_filled(o.windows.windows@[o.windows.index_of(window@)->0].content,
                    f.windows.windows@[o.windows.index_of(window@)->0].content, x as int, y as int, width as int, height as int,
                    char, Color::spec_from_index(fg), Color::spec_from_index(bg))))
    &&& (cmd matches Command::ClearWindow { id } ==> (o.windows.index_of(id@) is None ==> f == o)
            && (o.windows.index_of(id@) is Some ==> only_window_changed(o.windows, f.windows, o.windows.index_of(id@)->0)
                && content_cleared(f.windows.windows@[o.windows.index_of(id@)->0].content,
                    o.windows.windows@[o.windows.index_of(id@)->0].background)))
    &&& (cmd is Shutdown ==> r.0 is Ack && f == o && r.1 is Some
            && r.1->0@ == crate::renderer::disable_mouse_text() + "\x1b[0m\x1b[?25h\x1b[2J\x1b[H"@)
    &&& (cmd matches Command::EnableMouse { mode } ==> r.0 is Ack && f == o && r.1 is Some
            && r.1->0@ == crate::renderer::enable_mouse_text(crate::renderer::mouse_mode_of(lower_of(mode@))))
    &&& (cmd is DisableMouse ==> r.0 is Ack && f == o && r.1 is Some && r.1->0@ == crate::renderer::disable_mouse_text())
    &&& (cmd matches Command::BringToFront { id } ==> r.0 is Ack && r.1 is None && same_frame(o.windows, f.windows)
            && (o.windows.index_of(id@) is None ==> f.windows == o.windows)
            && (o.windows.index_of(id@) is Some ==> raised(o.windows, f.windows, o.windows.index_of(id@)->0)))
    &&& (cmd matches Command::SendToBack { id } ==> r.0 is Ack && r.1 is None && same_frame(o.windows, f.windows)
            && (o.windows.index_of(id@) is None ==> f.windows == o.windows)
            && (o.windows.index_of(id@) is Some && o.windows.windows@[0].z_index > i32::MIN ==> f.windows.windows@
                == seq![Window { z_index: (o.windows.windows@[0].z_index - 1) as i32,
                    ..o.windows.windows@[o.windows.index_of(id@)->0] }] + o.windows.windows@.remove(o.windows.index_of(id@)->0)))
    &&& (cmd matches Command::Print { window, .. } ==> ((r.0 is Error) <==> o.windows.index_of(window@) is None))
    &&& (cmd matches Command::Fill { window, .. } ==> ((r.0 is Error) <==> o.windows.index_of(window@) is None))
    &&& (cmd matches Command::ClearWindow { id } ==> ((r.0 is Error) <==> o.windows.index_of(id@) is None))
    &&& (cmd matches Command::UpdateWindow { id, .. } ==> ((r.0 is Error) <==> o.windows.index_of(id@) is None))
    &&& (cmd matches Command::CreateWindow { id, x, y, width, height, border, title, closable, resizable, draggable, min_width, min_height, invert }
            ==> (width * height <= usize::MAX ==> r.0 is Ack && ({
                let k = f.windows.index_of(id@);
                let w = f.windows.windows@[k->0];
                &&& k is Some
                &&& w.x == x && w.y == lifted_y(y, invert) && w.width == width && w.height == height
                &&& w.border == window_border(border) && w.invert == invert
                &&& title is Some ==> w.title == title
                &&& w.closable == closable && w.resizable == resizable && w.draggable == draggable
                &&& w.min_width == min_width && w.min_height == min_height
            })) && (width * height > usize::MAX ==> r.0 is Error && f == o))
    &&& (cmd matches Command::UpdateWindow { id, x, y, width, height, visible, title, z_index } ==>
            (o.windows.index_of(id@) is None ==> f == o)
            && (o.windows.index_of(id@) is Some ==> f.windows.index_of(id@) is Some
                && updated_window(o.windows.windows@[o.windows.index_of(id@)->0],
                    f.windows.windows@[f.windows.index_of(id@)->0], x, y, width, height, visible, title, z_index)))
    &&& (cmd matches Command::Flush { force_full } ==> exists|d: Grid| #[trigger] flushed_display(d, o.windows)
            && (r.1->0@, f.renderer) == (if force_full { full_render(o.renderer, d) } else { dirty_render(o.renderer, d) }))
    &&& (cmd is Flush ==> f.windows.display.all_clean() && r.1 is Some
            && (r.0 matches Response::Output { data } && data@ == r.1->0@))
    &&& (cmd is ListSessions || cmd is ShareDisplay || cmd is UnshareDisplay || cmd is ShareWindow || cmd is UnshareWindow
            || cmd is CreateTerminal || cmd is CloseTerminal || cmd is TerminalInput || cmd is TerminalConfig
            || cmd is ResizeTerminal ==> r.0 is Error && r.1 is None && f == o)
}

/// Commands that change windows or the background.
pub open spec fn is_window_command(cmd: Command) -> bool {
    cmd is CreateWindow || cmd is RemoveWindow || cmd is UpdateWindow || cmd is SetCell || cmd is Print || cmd is ClearWindow || cmd is Fill || cmd is SetDirect || cmd is PrintDirect || cmd is Batch || cmd is BringToFront || cmd is SendToBack
}

fn is_window_cmd(cmd: &Command) -> (r: bool)
    ensures
        r == is_window_command(*cmd),
{
    match cmd {
        Command::CreateWindow { .. } => true,
        Command::RemoveWindow { .. } => true,
        Command::UpdateWindow { .. } => true,
        Command::SetCell { .. } => true,
        Command::Print { .. } => true,
        Command::ClearWindow { .. } => true,
        Command::Fill { .. } => true,
        Command::SetDirect { .. } => true,
        Command::PrintDirect { .. } => true,
        Command::Batch { .. } => true,
        Command::BringToFront { .. } => true,
        Command::SendToBack { .. } => true,
        _ => false,
    }
}

} // verus!
