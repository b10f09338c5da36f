//! Telnet option handling on both sides: the filter applied to bytes coming from
//! clients, and the negotiation state machine of the embedded telnet client.
use vstd::prelude::*;

verus! {

pub const IAC: u8 = 255;
pub const WILL: u8 = 251;
pub const WONT: u8 = 252;
pub const DO: u8 = 253;
pub const DONT: u8 = 254;
pub const SB: u8 = 250;
pub const SE: u8 = 240;
pub const ECHO: u8 = 1;
pub const SUPPRESS_GO_AHEAD: u8 = 3;
pub const TERMINAL_TYPE: u8 = 24;
pub const NAWS: u8 = 31;
pub const LINEMODE: u8 = 34;

/// What the server sends a client on accept: it will echo and suppress go-ahead,
/// asks the client to suppress go-ahead, and turns line mode off.
pub open spec fn raw_mode_bytes() -> Seq<u8> {
    seq![IAC, WILL, ECHO, IAC, WILL, SUPPRESS_GO_AHEAD, IAC, DO, SUPPRESS_GO_AHEAD, IAC, DONT, LINEMODE]
}

pub fn telnet_raw_mode() -> (r: Vec<u8>)
    ensures
        r@ == raw_mode_bytes(),
{
    let r = vec![IAC, WILL, ECHO, IAC, WILL, SUPPRESS_GO_AHEAD, IAC, DO, SUPPRESS_GO_AHEAD, IAC, DONT, LINEMODE];
    assert(r@ =~= raw_mode_bytes());
    r
}

/// Index just past the `IAC SE` that ends a subnegotiation searched from `i`
/// (the length when there is none).
pub open spec fn sb_end(s: Seq<u8>, i: int) -> int
    decreases s.len() - i,
{
    if i < 0 || i >= s.len() {
        s.len() as int
    } else if s[i] == IAC && i + 1 < s.len() && s[i + 1] == SE {
        i + 2
    } else {
        sb_end(s, i + 1)
    }
}

/// The bytes of `s` with telnet commands removed: `IAC WILL/WONT/DO/DONT x` and
/// `IAC SB ... IAC SE` dropped, `IAC IAC` made one 0xff, other `IAC x` dropped.
pub open spec fn filtered(s: Seq<u8>) -> Seq<u8>
    decreases s.len(),
{
    if s.len() == 0 {
        s
    } else if s[0] != IAC || s.len() == 1 {
        seq![s[0]] + filtered(s.drop_first())
    } else if WILL <= s[1] <= DONT {
        if s.len() >= 3 { filtered(s.skip(3)) } else { Seq::empty() }
    } else if s[1] == SB {
        let e = sb_end(s, 2);
        if 2 <= e <= s.len() { filtered(s.skip(e)) } else { Seq::empty() }
    } else if s[1] == IAC {
        seq![IAC] + filtered(s.skip(2))
    } else {
        filtered(s.skip(2))
    }
}

proof fn lemma_sb_end_range(s: Seq<u8>, i: int)
    requires
        0 <= i,
    ensures
        i <= sb_end(s, i) <= s.len() || (i > s.len() && sb_end(s, i) == s.len()),
    decreases s.len() - i,
{
    if i < s.len() && !(s[i] == IAC && i + 1 < s.len() && s[i + 1] == SE) {
        lemma_sb_end_range(s, i + 1);
    }
}

/// Removes telnet commands from bytes received from a client.
pub fn filter_telnet_commands(data: &[u8]) -> (r: Vec<u8>)
    ensures
        r@ == filtered(data@),
{
    let n = data.len();
    let mut out: Vec<u8> = Vec::new();
    let mut i: usize = 0;
    assert(data@.skip(0) =~= data@);
    while i < n
        invariant
            n == data@.len(),
            i <= n,
            out@ + filtered(data@.skip(i as int)) == filtered(data@),
        decreases n - i,
    {
        let ghost s = data@.skip(i as int);
        let ghost before = out@;
        if data[i] == IAC && i + 1 < n {
            let c = data[i + 1];
            if c >= WILL && c <= DONT {
                if n - i >= 3 {
                    assert(s.skip(3) =~= data@.skip(i + 3));
                    i += 3;
                } else {
                    assert(data@.skip(n as int) =~= Seq::<u8>::empty());
                    i = n;
                }
            } else if c == SB {
                let mut j: usize = i + 2;
                while j < n
                    invariant
                        n == data@.len(),
                        i + 2 <= j <= n,
                        s == data@.skip(i as int),
                        sb_end(s, 2) == sb_end(s, j - i),
                    ensures
                        i + 2 <= j <= n,
                        sb_end(s, 2) == sb_end(s, j - i),
                        j < n ==> data@[j as int] == IAC && j + 1 < n && data@[j + 1] == SE,
                    decreases n - j,
                {
                    if data[j] == IAC && j + 1 < n && data[j + 1] == SE {
                        break;
                    }
                    j += 1;
                }
                proof {
                    lemma_sb_end_range(s, 2);
                }
                if j < n {
                    assert(sb_end(s, 2) == j - i + 2);
                    assert(s.skip(j - i + 2) =~= data@.skip(j + 2));
                    i = j + 2;
                } else {
                    assert(sb_end(s, 2) == s.len());
                    assert(s.skip(s.len() as int) =~= data@.skip(n as int));
                    i = n;
                }
            } else if c == IAC {
                out.push(IAC);
                assert(s.skip(2) =~= data@.skip(i + 2));
                assert(before + filtered(s) =~= out@ + filtered(data@.skip(i + 2)));
                i += 2;
            } else {
                assert(s.skip(2) =~= data@.skip(i + 2));
                i += 2;
            }
        } else {
            out.push(data[i]);
            assert(s.drop_first() =~= data@.skip(i + 1));
            assert(before + filtered(s) =~= out@ + filtered(data@.skip(i + 1)));
            i += 1;
        }
    }
    assert(data@.skip(n as int) =~= Seq::<u8>::empty());
    assert(out@ + Seq::<u8>::empty() =~= out@);
    out
}

/// Bytes holding no 0xff but possibly as their last byte are left as they are by the filter.
proof fn lemma_filter_keeps_plain(y: Seq<u8>)
    requires
        forall|k: int| 0 <= k < y.len() - 1 ==> #[trigger] y[k] != IAC,
    ensures
        filtered(y) == y,
    decreases y.len(),
{
    if y.len() > 0 {
        if y[0] != IAC || y.len() == 1 {
            assert forall|k: int| 0 <= k < y.drop_first().len() - 1 implies #[trigger] y.drop_first()[k] != IAC by {
                assert(y.drop_first()[k] == y[k + 1]);
            }
            lemma_filter_keeps_plain(y.drop_first());
            assert(seq![y[0]] + y.drop_first() =~= y);
        }
    }
}

/// The filter is idempotent on every stream whose filtered form holds no 0xff
/// before its last byte (a 0xff produced from `IAC IAC` in the middle of the
/// output would be read as a command by a second pass).
pub proof fn lemma_filter_idempotent(s: Seq<u8>)
    requires
        forall|k: int| 0 <= k < filtered(s).len() - 1 ==> #[trigger] filtered(s)[k] != IAC,
    ensures
        filtered(filtered(s)) == filtered(s),
{
    lemma_filter_keeps_plain(filtered(s));
}

/// `IAC IAC` produces exactly one 0xff, wherever it stands in the stream.
pub proof fn lemma_filter_escaped_iac(x: Seq<u8>)
    ensures
        filtered(seq![IAC, IAC] + x) == seq![IAC] + filtered(x),
{
    let s = seq![IAC, IAC] + x;
    assert(s.skip(2) =~= x);
}

/// Telnet receive state of the embedded client.
#[derive(Debug, Clone, Copy, PartialEq, Eq, Structural)]
pub enum TelnetState {
    Normal,
    Iac,
    Opt,
    Subneg,
    SubnegIac,
}

/// What the embedded client sends upstream on connect: it will send its terminal
/// type and its window size.
pub open spec fn client_hello_bytes() -> Seq<u8> {
    seq![IAC, WILL, TERMINAL_TYPE, IAC, WILL, NAWS]
}

pub fn telnet_client_hello() -> (r: Vec<u8>)
    ensures
        r@ == client_hello_bytes(),
{
    let r = vec![IAC, WILL, TERMINAL_TYPE, IAC, WILL, NAWS];
    assert(r@ =~= client_hello_bytes());
    r
}

/// `IAC SB NAWS w1 w0 h1 h0 IAC SE` for a window of `width` x `height` (each cut to 16 bits).
pub open spec fn naws_bytes(width: usize, height: usize) -> Seq<u8> {
    let w = (width % 65536) as int;
    let h = (height % 65536) as int;
    seq![IAC, SB, NAWS, (w / 256) as u8, (w % 256) as u8, (h / 256) as u8, (h % 256) as u8, IAC, SE]
}

pub fn naws_message(width: usize, height: usize) -> (r: Vec<u8>)
    ensures
        r@ == naws_bytes(width, height),
{
    let w = width % 65536;
    let h = height % 65536;
    let r = vec![IAC, SB, NAWS, (w / 256) as u8, (w % 256) as u8, (h / 256) as u8, (h % 256) as u8, IAC, SE];
    assert(r@ =~= naws_bytes(width, height));
    r
}

/// `IAC SB TERMINAL-TYPE IS "ANSI" IAC SE`.
pub open spec fn terminal_type_reply() -> Seq<u8> {
    seq![IAC, SB, TERMINAL_TYPE, 0u8, 65u8, 78u8, 83u8, 73u8, IAC, SE]
}

/// The embedded telnet client's receive side.
pub struct TelnetClient {
    pub state: TelnetState,
    /// The negotiation verb after `IAC` (WILL, WONT, DO or DONT).
    pub cmd: u8,
    /// The bytes of the subnegotiation being received.
    pub subneg: Vec<u8>,
    /// The window size reported with NAWS.
    pub width: usize,
    pub height: usize,
}

/// Replies to the option `opt` after verb `cmd`.
pub open spec fn option_replies(cmd: u8, opt: u8, width: usize, height: usize) -> Seq<Seq<u8>> {
    if cmd == DO && opt == TERMINAL_TYPE {
        seq![seq![IAC, WILL, TERMINAL_TYPE]]
    } else if cmd == DO && opt == NAWS {
        seq![seq![IAC, WILL, NAWS], naws_bytes(width, height)]
    } else {
        Seq::empty()
    }
}

/// Replies to a finished subnegotiation `sub`.
pub open spec fn subneg_replies(sub: Seq<u8>) -> Seq<Seq<u8>> {
    if sub.len() > 1 && sub[0] == TERMINAL_TYPE && sub[1] == 1 {
        seq![terminal_type_reply()]
    } else {
        Seq::empty()
    }
}

/// One byte received: the new state, the application bytes it yields, and the replies to send.
pub open spec fn client_step(st: TelnetState, cmd: u8, sub: Seq<u8>, w: usize, h: usize, b: u8)
    -> (TelnetState, u8, Seq<u8>, Seq<u8>, Seq<Seq<u8>>)
{
    match st {
        TelnetState::Normal => if b == IAC {
            (TelnetState::Iac, cmd, sub, Seq::empty(), Seq::empty())
        } else {
            (TelnetState::Normal, cmd, sub, seq![b], Seq::empty())
        },
        TelnetState::Iac => if b == IAC {
            (TelnetState::Normal, cmd, sub, seq![IAC], Seq::empty())
        } else if b == SB {
            (TelnetState::Subneg, cmd, Seq::empty(), Seq::empty(), Seq::empty())
        } else if WILL <= b <= DONT {
            (TelnetState::Opt, b, sub, Seq::empty(), Seq::empty())
        } else {
            (TelnetState::Normal, cmd, sub, Seq::empty(), Seq::empty())
        },
        TelnetState::Opt => (TelnetState::Normal, cmd, sub, Seq::empty(), option_replies(cmd, b, w, h)),
        TelnetState::Subneg => if b == IAC {
            (TelnetState::SubnegIac, cmd, sub, Seq::empty(), Seq::empty())
        } else {
            (TelnetState::Subneg, cmd, sub.push(b), Seq::empty(), Seq::empty())
        },
        TelnetState::SubnegIac => if b == SE {
            (TelnetState::Normal, cmd, sub, Seq::empty(), subneg_replies(sub))
        } else if b == IAC {
            (TelnetState::SubnegIac, cmd, sub.push(IAC), Seq::empty(), Seq::empty())
        } else {
            (TelnetState::Subneg, cmd, sub.push(b), Seq::empty(), Seq::empty())
        },
    }
}

/// The client after the bytes `bs`: state, verb, subnegotiation, application bytes, replies.
pub open spec fn client_run(st: TelnetState, cmd: u8, sub: Seq<u8>, w: usize, h: usize, bs: Seq<u8>)
    -> (TelnetState, u8, Seq<u8>, Seq<u8>, Seq<Seq<u8>>)
    decreases bs.len(),
{
    if bs.len() == 0 {
        (st, cmd, sub, Seq::empty(), Seq::empty())
    } else {
        let (s1, c1, u1, a1, r1) = client_run(st, cmd, sub, w, h, bs.drop_last());
        let (s2, c2, u2, a2, r2) = client_step(s1, c1, u1, w, h, bs.last());
        (s2, c2, u2, a1 + a2, r1 + r2)
    }
}

impl TelnetClient {
    pub fn new(width: usize, height: usize) -> (r: TelnetClient)
        ensures
            r.state == TelnetState::Normal,
            r.subneg@.len() == 0,
            r.width == width && r.height == height,
    {
        TelnetClient { state: TelnetState::Normal, cmd: 0, subneg: Vec::new(), width, height }
    }

    fn step(&mut self, b: u8, app: &mut Vec<u8>, replies: &mut Vec<Vec<u8>>)
        ensures
            ({
                let (s2, c2, u2, a2, r2) = client_step(old(self).state, old(self).cmd, old(self).subneg@, old(self).width, old(self).height, b);
                &&& final(self).state == s2 && final(self).cmd == c2 && final(self).subneg@ == u2
                &&& final(self).width == old(self).width && final(self).height == old(self).height
                &&& final(app)@ == old(app)@ + a2
                &&& final(replies)@.map_values(|v: Vec<u8>| v@) == old(replies)@.map_values(|v: Vec<u8>| v@) + r2
            }),
    {
        let ghost r0 = replies@.map_values(|v: Vec<u8>| v@);
        match self.state {
            TelnetState::Normal => {
                if b == IAC {
                    self.state = TelnetState::Iac;
                } else {
                    app.push(b);
                }
            },
            TelnetState::Iac => {
                if b == IAC {
                    app.push(IAC);
                    self.state = TelnetState::Normal;
                } else if b == SB {
                    self.subneg = Vec::new();
                    self.state = TelnetState::Subneg;
                } else if b >= WILL && b <= DONT {
                    self.cmd = b;
                    self.state = TelnetState::Opt;
                } else {
                    self.state = TelnetState::Normal;
                }
            },
            TelnetState::Opt => {
                if self.cmd == DO && b == TERMINAL_TYPE {
                    replies.push(vec![IAC, WILL, TERMINAL_TYPE]);
                } else if self.cmd == DO && b == NAWS {
                    replies.push(vec![IAC, WILL, NAWS]);
                    replies.push(naws_message(self.width, self.height));
                }
                self.state = TelnetState::Normal;
            },
            TelnetState::Subneg => {
                if b == IAC {
                    self.state = TelnetState::SubnegIac;
                } else {
                    self.subneg.push(b);
                }
            },
            TelnetState::SubnegIac => {
                if b == SE {
                    if self.subneg.len() > 1 && self.subneg[0] == TERMINAL_TYPE && self.subneg[1] == 1 {
                        replies.push(vec![IAC, SB, TERMINAL_TYPE, 0, 65, 78, 83, 73, IAC, SE]);
                    }
                    self.state = TelnetState::Normal;
                } else if b == IAC {
                    self.subneg.push(IAC);
                } else {
                    self.subneg.push(b);
                    self.state = TelnetState::Subneg;
                }
            },
        }
        proof {
            let (s2, c2, u2, a2, r2) = client_step(old(self).state, old(self).cmd, old(self).subneg@, old(self).width, old(self).height, b);
            assert(app@ =~= old(app)@ + a2);
            assert(self.subneg@ =~= u2);
            assert(replies@.map_values(|v: Vec<u8>| v@) =~= r0 + r2);
        }
    }

    /// Runs received bytes through the negotiation: returns the application bytes
    /// (for the terminal emulator) and the replies to send upstream, in order.
    pub fn process(&mut self, data: &[u8]) -> (r: (Vec<u8>, Vec<Vec<u8>>))
        ensures
            ({
                let (s2, c2, u2, a2, r2) = client_run(old(self).state, old(self).cmd, old(self).subneg@, old(self).width, old(self).height, data@);
                &&& final(self).state == s2 && final(self).cmd == c2 && final(self).subneg@ == u2
                &&& final(self).width == old(self).width && final(self).height == old(self).height
                &&& r.0@ == a2
                &&& r.1@.map_values(|v: Vec<u8>| v@) == r2
            }),
    {
        let mut app: Vec<u8> = Vec::new();
        let mut replies: Vec<Vec<u8>> = Vec::new();
        let mut i: usize = 0;
        assert(data@.take(0) =~= Seq::<u8>::empty());
        assert(replies@.map_values(|v: Vec<u8>| v@) =~= Seq::<Seq<u8>>::empty());
        while i < data.len()
            invariant
                i <= data@.len(),
                ({
                    let (s2, c2, u2, a2, r2) = client_run(old(self).state, old(self).cmd, old(self).subneg@, old(self).width, old(self).height, data@.take(i as int));
                    &&& self.state == s2 && self.cmd == c2 && self.subneg@ == u2
                    &&& self.width == old(self).width && self.height == old(self).height
                    &&& app@ == a2
                    &&& replies@.map_values(|v: Vec<u8>| v@) == r2
                }),
            decreases data@.len() - i,
        {
            self.step(data[i], &mut app, &mut replies);
            proof {
                assert(data@.take(i + 1).drop_last() =~= data@.take(i as int));
            }
            i += 1;
        }
        assert(data@.take(data@.len() as int) =~= data@);
        (app, replies)
    }

    /// Changes the window size that NAWS replies report.
    pub fn set_size(&mut self, width: usize, height: usize)
        ensures
            *final(self) == (TelnetClient { width, height, ..*old(self) }),
    {
        self.width = width;
        self.height = height;
    }
}

} // verus!
