//! Control bridge between the proxy and the overlays: who is connected, and
//! what each of them is told of the pad.
//!
//! A **hold** client suppresses input to the game while it is connected and
//! receives button and stick events. A **watch** client leaves the game alone
//! and receives button events only.

use vstd::prelude::*;
use vstd::string::*;

use crate::proxy::InputLayout;
use crate::text;

verus! {

#[derive(Clone, Copy, PartialEq, Eq, Debug, Structural)]
pub enum Mode {
    /// Buttons only, the game keeps running.
    Watch,
    /// Buttons and sticks, game input suppressed while any hold client lives.
    Hold,
}

/// The mode that a line asks for.
pub open spec fn mode_in(line: Seq<char>) -> Option<Mode> {
    let t = text::trimmed(line);
    if t == "mode watch"@ {
        Some(Mode::Watch)
    } else if t == "mode hold"@ {
        Some(Mode::Hold)
    } else {
        None
    }
}

/// The mode that a line asks for.
pub fn parse_mode(line: &str) -> (r: Option<Mode>)
    ensures
        r == mode_in(line@),
{
    let t: Vec<char> = text::trim(text::chars_of(line).as_slice());
    if text::spells(t.as_slice(), "mode watch") {
        Some(Mode::Watch)
    } else if text::spells(t.as_slice(), "mode hold") {
        Some(Mode::Hold)
    } else {
        None
    }
}

/// The mode of a fresh client: what its first line asks for, and hold where it
/// sent none in time or the line says something else.
pub fn negotiate(first_line: &Option<String>) -> (r: Mode)
    ensures
        r == (match *first_line {
            Some(l) => match mode_in(l@) {
                Some(m) => m,
                None => Mode::Hold,
            },
            None => Mode::Hold,
        }),
{
    match first_line {
        Some(l) => match parse_mode(l.as_str()) {
            Some(m) => m,
            None => Mode::Hold,
        },
        None => Mode::Hold,
    }
}

/// File name of the bridge socket, in the runtime directory.
pub fn bridge_path(runtime_dir: &Option<String>) -> (r: String)
    ensures
        r@ == text::runtime_path(*runtime_dir, "mdrv-ds-bridge.sock"@),
{
    text::in_runtime_dir(runtime_dir, "mdrv-ds-bridge.sock")
}

// ---------------------------------------------------------------- clients

/// A connected overlay, by the number of its connection.
#[derive(Clone, Copy, PartialEq, Eq, Debug, Structural)]
pub struct Client {
    pub id: i32,
    pub mode: Mode,
}

/// The bridge: its clients, and what they were last told.
pub struct BridgeState {
    pub clients: Vec<Client>,
    /// Button bytes of the last report.
    pub prev_btn: [u8; 3],
    /// Hat value of the last change of direction.
    pub prev_hat: u8,
    /// Stick values last sent.
    pub prev_stick: [u8; 2],
}

/// Whether any of the clients holds.
pub open spec fn holds(clients: Seq<Client>) -> bool {
    exists|i: int| 0 <= i < clients.len() && (#[trigger] clients[i]).mode == Mode::Hold
}

/// The clients without those of a number.
pub open spec fn others(clients: Seq<Client>, id: i32) -> Seq<Client> {
    clients.filter(|c: Client| c.id != id)
}

/// The first client of a number switched to a mode.
pub open spec fn switched(clients: Seq<Client>, id: i32, mode: Mode) -> Seq<Client>
    decreases clients.len(),
{
    if clients.len() == 0 {
        clients
    } else if clients[0].id == id {
        clients.update(0, Client { id, mode })
    } else {
        seq![clients[0]] + switched(clients.subrange(1, clients.len() as int), id, mode)
    }
}

impl BridgeState {
    /// What edge detection starts from.
    pub open spec fn fresh(self) -> bool {
        self.prev_btn@ == seq![0u8, 0, 0] && self.prev_hat == 0 && self.prev_stick@ == seq![
            128u8,
            128,
        ]
    }

    /// What a report is held against.
    pub open spec fn same_memory(self, other: BridgeState) -> bool {
        self.prev_btn@ == other.prev_btn@ && self.prev_hat == other.prev_hat && self.prev_stick@
            == other.prev_stick@
    }

    pub fn new() -> (r: BridgeState)
        ensures
            r.clients@.len() == 0,
            r.fresh(),
    {
        let r = BridgeState {
            clients: Vec::new(),
            prev_btn: [0, 0, 0],
            prev_hat: 0,
            prev_stick: [128, 128],
        };
        assert(r.prev_btn@ =~= seq![0u8, 0, 0]);
        assert(r.prev_stick@ =~= seq![128u8, 128]);
        r
    }

    pub fn any_hold(&self) -> (r: bool)
        ensures
            r == holds(self.clients@),
    {
        let mut i: usize = 0;
        while i < self.clients.len()
            invariant
                i <= self.clients@.len(),
                forall|j: int| 0 <= j < i ==> (#[trigger] self.clients@[j]).mode != Mode::Hold,
            decreases self.clients@.len() - i,
        {
            if self.clients[i].mode == Mode::Hold {
                return true;
            }
            i = i + 1;
        }
        false
    }

    /// A client connects. The first one of a session restarts edge detection.
    /// Returns whether it was the first.
    pub fn connect(&mut self, id: i32, mode: Mode) -> (r: bool)
        ensures
            final(self).clients@ == old(self).clients@.push(Client { id, mode }),
            r == (old(self).clients@.len() == 0),
            r ==> final(self).fresh(),
            !r ==> final(self).same_memory(*old(self)),
    {
        let first: bool = self.clients.len() == 0;
        if first {
            self.prev_btn = [0, 0, 0];
            self.prev_hat = 0;
            self.prev_stick = [128, 128];
            assert(self.prev_btn@ =~= seq![0u8, 0, 0]);
            assert(self.prev_stick@ =~= seq![128u8, 128]);
        }
        self.clients.push(Client { id, mode });
        first
    }

    /// A client asks for another mode.
    pub fn switch_mode(&mut self, id: i32, mode: Mode)
        ensures
            final(self).clients@ == switched(old(self).clients@, id, mode),
            final(self).same_memory(*old(self)),
    {
        let ghost start = self.clients@;
        let mut i: usize = 0;
        assert(start.subrange(0, 0) + switched(start.subrange(0, start.len() as int), id, mode)
            =~= switched(start, id, mode)) by {
            assert(start.subrange(0, start.len() as int) =~= start);
        }
        while i < self.clients.len()
            invariant
                i <= self.clients@.len(),
                self.clients@ == start,
                start == old(self).clients@,
                self.same_memory(*old(self)),
                start.subrange(0, i as int) + switched(
                    start.subrange(i as int, start.len() as int),
                    id,
                    mode,
                ) == switched(start, id, mode),
            decreases self.clients@.len() - i,
        {
            let ghost rest = start.subrange(i as int, start.len() as int);
            assert(rest[0] == start[i as int]);
            if self.clients[i].id == id {
                self.clients.set(i, Client { id, mode });
                assert(self.clients@ =~= start.subrange(0, i as int) + rest.update(
                    0,
                    Client { id, mode },
                ));
                return ;
            }
            assert(rest.subrange(1, rest.len() as int) =~= start.subrange(
                i + 1,
                start.len() as int,
            ));
            assert(start.subrange(0, i + 1) + switched(
                start.subrange(i + 1, start.len() as int),
                id,
                mode,
            ) =~= start.subrange(0, i as int) + switched(rest, id, mode));
            i = i + 1;
        }
        assert(start.subrange(0, start.len() as int) =~= start);
        assert(switched(start, id, mode) =~= start);
    }

    /// A client went away.
    pub fn disconnect(&mut self, id: i32)
        ensures
            final(self).clients@ == others(old(self).clients@, id),
            final(self).same_memory(*old(self)),
    {
        let ghost start = self.clients@;
        let mut kept: Vec<Client> = Vec::new();
        let mut i: usize = 0;
        proof {
            assert(start.subrange(0, 0) =~= Seq::empty());
            reveal(Seq::filter);
            assert(kept@ =~= others(start.subrange(0, 0), id));
        }
        while i < self.clients.len()
            invariant
                i <= self.clients@.len(),
                self.clients@ == start,
                self.same_memory(*old(self)),
                kept@ == others(start.subrange(0, i as int), id),
            decreases self.clients@.len() - i,
        {
            proof {
                reveal(Seq::filter);
                assert(start.subrange(0, i + 1).drop_last() =~= start.subrange(0, i as int));
            }
            if self.clients[i].id != id {
                kept.push(self.clients[i]);
            }
            i = i + 1;
        }
        assert(start.subrange(0, start.len() as int) =~= start);
        self.clients = kept;
    }
}

/// Whether game input is suppressed: while any hold client is connected.
pub fn paused(st: &BridgeState) -> (r: bool)
    ensures
        r == holds(st.clients@),
{
    st.any_hold()
}

/// With its last hold client gone the game gets its input back; a watch client
/// never takes it away.
pub proof fn resumes_when_the_last_hold_leaves(clients: Seq<Client>, id: i32)
    requires
        forall|i: int|
            0 <= i < clients.len() && (#[trigger] clients[i]).mode == Mode::Hold ==> clients[i].id
                == id,
    ensures
        !holds(others(clients, id)),
    decreases clients.len(),
{
    reveal(Seq::filter);
    if clients.len() > 0 {
        let front = clients.drop_last();
        assert forall|i: int|
            0 <= i < front.len() && (#[trigger] front[i]).mode == Mode::Hold implies front[i].id
            == id by {
            assert(front[i] == clients[i]);
        }
        resumes_when_the_last_hold_leaves(front, id);
        let kept = others(clients, id);
        assert(clients[clients.len() - 1] == clients.last());
        if holds(kept) {
            let k = choose|k: int| 0 <= k < kept.len() && (#[trigger] kept[k]).mode == Mode::Hold;
            if k < others(front, id).len() {
                assert(others(front, id)[k] == kept[k]);
            }
        }
    }
}

/// A watch client that connects does not suppress input by itself.
pub proof fn watch_clients_never_pause(clients: Seq<Client>, id: i32)
    ensures
        holds(clients.push(Client { id, mode: Mode::Watch })) == holds(clients),
{
    let more = clients.push(Client { id, mode: Mode::Watch });
    if holds(clients) {
        let k = choose|k: int| 0 <= k < clients.len() && (#[trigger] clients[k]).mode == Mode::Hold;
        assert(more[k].mode == Mode::Hold);
    }
    if holds(more) {
        let k = choose|k: int| 0 <= k < more.len() && (#[trigger] more[k]).mode == Mode::Hold;
        assert(clients[k].mode == Mode::Hold);
    }
}

// ---------------------------------------------------------------- events

/// The directions up, right, down and left that a hat-switch compass value
/// stands for.
pub open spec fn hat_shape(v: u8) -> Seq<bool> {
    seq![
        v == 0 || v == 1 || v == 7,
        v == 1 || v == 2 || v == 3,
        v == 3 || v == 4 || v == 5,
        v == 5 || v == 6 || v == 7,
    ]
}

/// Maps a hat-switch compass value to [up, right, down, left].
pub fn hat_dirs(v: u8) -> (r: [bool; 4])
    ensures
        r@ == hat_shape(v),
{
    let r: [bool; 4] = [
        v == 0 || v == 1 || v == 7,
        v == 1 || v == 2 || v == 3,
        v == 3 || v == 4 || v == 5,
        v == 5 || v == 6 || v == 7,
    ];
    assert(r@ =~= hat_shape(v));
    r
}

/// The line that tells of a button.
pub open spec fn button_line(name: Seq<char>, down: bool) -> Seq<char> {
    "pad "@ + name + (if down {
        " 1\n"@
    } else {
        " 0\n"@
    })
}

/// The line of one button where its bit changed.
pub open spec fn bit_edge(prev: u8, now: u8, mask: u8, name: Seq<char>) -> Seq<char> {
    if (now ^ prev) & mask != 0 {
        button_line(name, now & mask != 0)
    } else {
        Seq::empty()
    }
}

/// The line of one direction where it changed.
pub open spec fn dir_edge(prev: bool, now: bool, name: Seq<char>) -> Seq<char> {
    if now != prev {
        button_line(name, now)
    } else {
        Seq::empty()
    }
}

/// The lines of all buttons that changed between two states of the three
/// button bytes, in the order of the bytes and bits.
pub open spec fn button_edges(prev: Seq<u8>, now: Seq<u8>) -> Seq<char> {
    bit_edge(prev[0], now[0], 0x10, "square"@) + bit_edge(prev[0], now[0], 0x20, "cross"@)
        + bit_edge(prev[0], now[0], 0x40, "circle"@) + bit_edge(prev[0], now[0], 0x80, "triangle"@)
        + bit_edge(prev[1], now[1], 0x01, "l1"@) + bit_edge(prev[1], now[1], 0x02, "r1"@)
        + bit_edge(prev[1], now[1], 0x10, "share"@) + bit_edge(prev[1], now[1], 0x20, "options"@)
        + bit_edge(prev[2], now[2], 0x01, "ps"@) + bit_edge(prev[2], now[2], 0x02, "touchpad"@)
        + bit_edge(prev[2], now[2], 0x40, "l3"@) + bit_edge(prev[2], now[2], 0x80, "r3"@)
}

/// The lines of the directions that changed between two hat values.
pub open spec fn hat_edges(prev: u8, now: u8) -> Seq<char> {
    let p = hat_shape(prev);
    let n = hat_shape(now);
    dir_edge(p[0], n[0], "up"@) + dir_edge(p[1], n[1], "right"@) + dir_edge(p[2], n[2], "down"@)
        + dir_edge(p[3], n[3], "left"@)
}

/// A stick value between -1 and 1, in thousandths: the distance from the
/// centre 128 over 127, rounded to the nearest.
pub open spec fn thousandths(v: u8) -> int {
    let k = if v >= 128 {
        v - 128
    } else {
        128 - v
    };
    let m = if k > 127 {
        127
    } else {
        k
    };
    (2000 * m + 127) / 254
}

/// A stick value between -1 and 1 with three decimals.
pub open spec fn stick_text(v: u8) -> Seq<char> {
    let t = thousandths(v);
    (if v < 128 {
        "-"@
    } else {
        ""@
    }) + seq![
        (48 + t / 1000) as char,
        '.',
        (48 + t / 100 % 10) as char,
        (48 + t / 10 % 10) as char,
        (48 + t % 10) as char,
    ]
}

/// The line that tells of the left stick.
pub open spec fn stick_line(x: u8, y: u8) -> Seq<char> {
    "stick "@ + stick_text(x) + " "@ + stick_text(y) + "\n"@
}

/// How far two values are apart.
pub open spec fn distance(a: u8, b: u8) -> int {
    if a >= b {
        a - b
    } else {
        b - a
    }
}

/// Whether a stick moved far enough from what was last sent.
pub open spec fn stick_moved(prev: Seq<u8>, x: u8, y: u8) -> bool {
    distance(x, prev[0]) >= 2 || distance(y, prev[1]) >= 2
}

/// What a client of a mode gets of the lines.
pub open spec fn payload_for(mode: Mode, buttons: Seq<char>, stick: Seq<char>) -> Seq<char> {
    match mode {
        Mode::Hold => buttons + stick,
        Mode::Watch => buttons,
    }
}

/// Who gets what: each client in turn, where there is something for it.
pub open spec fn deliveries(clients: Seq<Client>, buttons: Seq<char>, stick: Seq<char>) -> Seq<
    (i32, Seq<char>),
>
    decreases clients.len(),
{
    if clients.len() == 0 {
        Seq::empty()
    } else {
        let before = deliveries(clients.drop_last(), buttons, stick);
        let p = payload_for(clients.last().mode, buttons, stick);
        if p.len() == 0 {
            before
        } else {
            before.push((clients.last().id, p))
        }
    }
}

/// Deliveries with their texts by their characters.
pub open spec fn deliveries_view(l: Seq<(i32, String)>) -> Seq<(i32, Seq<char>)> {
    l.map_values(|d: (i32, String)| (d.0, d.1@))
}

/// Whether a report is long enough to be told of, and somebody listens.
pub open spec fn heard(clients: Seq<Client>, report: Seq<u8>, l: InputLayout) -> bool {
    clients.len() > 0 && report.len() >= l.btn0 + 3 && report.len() >= l.stick0 + 2
}

/// The button lines of a report.
pub open spec fn report_buttons(st: BridgeState, report: Seq<u8>, l: InputLayout) -> Seq<char> {
    let b = report.subrange(l.btn0 as int, l.btn0 + 3);
    button_edges(st.prev_btn@, b) + hat_edges(st.prev_hat, b[0] & 0x0f)
}

/// The stick line of a report; none unless a hold client listens and the
/// stick moved.
pub open spec fn report_stick(st: BridgeState, report: Seq<u8>, l: InputLayout) -> Seq<char> {
    let x = report[l.stick0 as int];
    let y = report[l.stick0 + 1];
    if holds(st.clients@) && stick_moved(st.prev_stick@, x, y) {
        stick_line(x, y)
    } else {
        Seq::empty()
    }
}

/// The bridge after a report.
pub open spec fn fed(pre: BridgeState, post: BridgeState, report: Seq<u8>, l: InputLayout) -> bool {
    let b = report.subrange(l.btn0 as int, l.btn0 + 3);
    let x = report[l.stick0 as int];
    let y = report[l.stick0 + 1];
    &&& post.clients@ == pre.clients@
    &&& heard(pre.clients@, report, l) ==> {
        &&& post.prev_btn@ == b
        &&& post.prev_hat == (if hat_shape(b[0] & 0x0f) != hat_shape(pre.prev_hat) {
            b[0] & 0x0f
        } else {
            pre.prev_hat
        })
        &&& post.prev_stick@ == (if report_stick(pre, report, l).len() > 0 {
            seq![x, y]
        } else {
            pre.prev_stick@
        })
    }
    &&& !heard(pre.clients@, report, l) ==> post.same_memory(pre)
}

fn append_line(out: &mut String, name: &str, down: bool)
    ensures
        final(out)@ == old(out)@ + button_line(name@, down),
{
    out.append("pad ");
    out.append(name);
    if down {
        out.append(" 1\n");
    } else {
        out.append(" 0\n");
    }
    assert(out@ =~= old(out)@ + button_line(name@, down));
}

fn append_bit(out: &mut String, prev: u8, now: u8, mask: u8, name: &str)
    ensures
        final(out)@ == old(out)@ + bit_edge(prev, now, mask, name@),
{
    if (now ^ prev) & mask != 0 {
        append_line(out, name, now & mask != 0);
    } else {
        assert(out@ =~= old(out)@ + bit_edge(prev, now, mask, name@));
    }
}

fn append_dir(out: &mut String, prev: bool, now: bool, name: &str)
    ensures
        final(out)@ == old(out)@ + dir_edge(prev, now, name@),
{
    if now != prev {
        append_line(out, name, now);
    } else {
        assert(out@ =~= old(out)@ + dir_edge(prev, now, name@));
    }
}

fn digit_char(d: u32) -> (r: char)
    requires
        d < 10,
    ensures
        r == (48 + d) as char,
{
    let b: u8 = 48 + d as u8;
    b as char
}

fn append_stick(out: &mut String, v: u8)
    ensures
        final(out)@ == old(out)@ + stick_text(v),
{
    let k: u32 = if v >= 128 {
        (v - 128) as u32
    } else {
        (128 - v) as u32
    };
    let m: u32 = if k > 127 {
        127
    } else {
        k
    };
    let t: u32 = (2000 * m + 127) / 254;
    if v < 128 {
        out.append("-");
    } else {
        out.append("");
    }
    out.push(digit_char(t / 1000));
    out.push('.');
    out.push(digit_char(t / 100 % 10));
    out.push(digit_char(t / 10 % 10));
    out.push(digit_char(t % 10));
    assert(out@ =~= old(out)@ + stick_text(v));
}

/// The button lines between two states.
#[verifier::rlimit(60)]
fn button_lines(prev: &[u8; 3], b: &[u8; 3], prev_hat: u8) -> (r: String)
    ensures
        r@ == button_edges(prev@, b@) + hat_edges(prev_hat, b@[0] & 0x0f),
{
    let mut out = String::new();
    append_bit(&mut out, prev[0], b[0], 0x10, "square");
    append_bit(&mut out, prev[0], b[0], 0x20, "cross");
    append_bit(&mut out, prev[0], b[0], 0x40, "circle");
    append_bit(&mut out, prev[0], b[0], 0x80, "triangle");
    append_bit(&mut out, prev[1], b[1], 0x01, "l1");
    append_bit(&mut out, prev[1], b[1], 0x02, "r1");
    append_bit(&mut out, prev[1], b[1], 0x10, "share");
    append_bit(&mut out, prev[1], b[1], 0x20, "options");
    append_bit(&mut out, prev[2], b[2], 0x01, "ps");
    append_bit(&mut out, prev[2], b[2], 0x02, "touchpad");
    append_bit(&mut out, prev[2], b[2], 0x40, "l3");
    append_bit(&mut out, prev[2], b[2], 0x80, "r3");
    assert(out@ =~= button_edges(prev@, b@));
    let ghost told = out@;
    let p: [bool; 4] = hat_dirs(prev_hat);
    let n: [bool; 4] = hat_dirs(b[0] & 0x0f);
    append_dir(&mut out, p[0], n[0], "up");
    append_dir(&mut out, p[1], n[1], "right");
    append_dir(&mut out, p[2], n[2], "down");
    append_dir(&mut out, p[3], n[3], "left");
    assert(out@ =~= told + hat_edges(prev_hat, b@[0] & 0x0f));
    out
}

fn apart(a: u8, b: u8) -> (r: u8)
    ensures
        r == distance(a, b),
{
    if a >= b {
        a - b
    } else {
        b - a
    }
}

fn same_dirs(a: u8, b: u8) -> (r: bool)
    ensures
        r == (hat_shape(a) == hat_shape(b)),
{
    let x: [bool; 4] = hat_dirs(a);
    let y: [bool; 4] = hat_dirs(b);
    let r: bool = x[0] == y[0] && x[1] == y[1] && x[2] == y[2] && x[3] == y[3];
    proof {
        if r {
            assert(hat_shape(a) =~= hat_shape(b));
        }
    }
    r
}

/// Tells the clients of one control report: changes of buttons to all of them,
/// the left stick to those that hold. Returns what each connection gets. Call
/// it before the PS bit is stripped: watch clients need it.
pub fn feed(st: &mut BridgeState, report: &[u8], l: &InputLayout) -> (r: Vec<(i32, String)>)
    requires
        l.ok(),
    ensures
        fed(*old(st), *final(st), report@, *l),
        deliveries_view(r@) == (if heard(old(st).clients@, report@, *l) {
            deliveries(
                old(st).clients@,
                report_buttons(*old(st), report@, *l),
                report_stick(*old(st), report@, *l),
            )
        } else {
            Seq::empty()
        }),
{
    let mut out: Vec<(i32, String)> = Vec::new();
    assert(deliveries_view(out@) =~= Seq::empty());
    if report.len() < l.btn0 + 3 || report.len() < l.stick0 + 2 || st.clients.len() == 0 {
        return out;
    }
    let ghost pre = *st;
    let b: [u8; 3] = [report[l.btn0], report[l.btn0 + 1], report[l.btn0 + 2]];
    assert(b@ =~= report@.subrange(l.btn0 as int, l.btn0 + 3));
    let x: u8 = report[l.stick0];
    let y: u8 = report[l.stick0 + 1];
    let want_sticks: bool = st.any_hold();
    let buttons: String = button_lines(&st.prev_btn, &b, st.prev_hat);
    st.prev_btn = b;
    let hat: u8 = b[0] & 0x0f;
    if !same_dirs(hat, st.prev_hat) {
        st.prev_hat = hat;
    }
    let mut stick = String::new();
    if want_sticks && (apart(x, st.prev_stick[0]) >= 2 || apart(y, st.prev_stick[1]) >= 2) {
        stick.append("stick ");
        append_stick(&mut stick, x);
        stick.append(" ");
        append_stick(&mut stick, y);
        stick.append("\n");
        proof {
            reveal_strlit("\n");
            assert(stick@ =~= stick_line(x, y));
            assert(stick_line(x, y).len() > 0);
        }
        st.prev_stick = [x, y];
        assert(st.prev_stick@ =~= seq![x, y]);
    } else {
        assert(stick@ =~= Seq::empty());
    }
    let mut full: String = buttons.clone();
    full.append(stick.as_str());
    let mut i: usize = 0;
    assert(deliveries(st.clients@.subrange(0, 0), buttons@, stick@) =~= Seq::empty());
    while i < st.clients.len()
        invariant
            i <= st.clients@.len(),
            full@ == buttons@ + stick@,
            deliveries_view(out@) == deliveries(
                st.clients@.subrange(0, i as int),
                buttons@,
                stick@,
            ),
        decreases st.clients@.len() - i,
    {
        assert(st.clients@.subrange(0, i + 1).drop_last() =~= st.clients@.subrange(0, i as int));
        let c: Client = st.clients[i];
        let ghost before = deliveries_view(out@);
        let payload: &String = match c.mode {
            Mode::Hold => &full,
            Mode::Watch => &buttons,
        };
        if !payload.as_str().is_empty() {
            out.push((c.id, payload.clone()));
            assert(deliveries_view(out@) =~= before.push((c.id, payload@)));
        }
        i = i + 1;
    }
    assert(st.clients@.subrange(0, st.clients@.len() as int) =~= st.clients@);
    assert(fed(pre, *st, report@, *l));
    out
}

/// A report that repeats the one before tells nobody anything.
pub proof fn repeated_reports_are_silent(
    pre: BridgeState,
    post: BridgeState,
    report: Seq<u8>,
    l: InputLayout,
)
    requires
        fed(pre, post, report, l),
        heard(pre.clients@, report, l),
    ensures
        report_buttons(post, report, l).len() == 0,
        report_stick(post, report, l).len() == 0,
        deliveries(
            post.clients@,
            report_buttons(post, report, l),
            report_stick(post, report, l),
        ).len() == 0,
{
    let b = report.subrange(l.btn0 as int, l.btn0 + 3);
    assert forall|v: u8, m: u8| ((v ^ v) & m) == 0 by {
        assert((v ^ v) & m == 0) by (bit_vector);
    }
    assert(button_edges(b, b) =~= Seq::empty());
    assert(hat_shape(post.prev_hat) == hat_shape(b[0] & 0x0f));
    assert(hat_edges(post.prev_hat, b[0] & 0x0f) =~= Seq::empty());
    assert(report_buttons(post, report, l) =~= Seq::empty());
    silence_is_empty(post.clients@, report_buttons(post, report, l), report_stick(post, report, l));
}

proof fn silence_is_empty(clients: Seq<Client>, buttons: Seq<char>, stick: Seq<char>)
    requires
        buttons.len() == 0,
        stick.len() == 0,
    ensures
        deliveries(clients, buttons, stick).len() == 0,
    decreases clients.len(),
{
    if clients.len() > 0 {
        silence_is_empty(clients.drop_last(), buttons, stick);
    }
}

/// The bits of a change of one bit.
proof fn one_bit(x: u8, a: u8, b: u8)
    by (bit_vector)
    requires
        x == 0 || x == 0x01 || x == 0x02 || x == 0x04 || x == 0x08 || x == 0x10 || x == 0x20 || x
            == 0x40 || x == 0x80,
    ensures
        (x & 0x01 != 0) == (x == 0x01),
        (x & 0x02 != 0) == (x == 0x02),
        (x & 0x10 != 0) == (x == 0x10),
        (x & 0x20 != 0) == (x == 0x20),
        (x & 0x40 != 0) == (x == 0x40),
        (x & 0x80 != 0) == (x == 0x80),
        (a ^ b == 0) == (a == b),
{
}

/// The line that tells of one change, where only the bit `mask` of the button
/// byte `k` changed between two reports.
proof fn lone_edge(prev: Seq<u8>, now: Seq<u8>, k: int, mask: u8)
    requires
        prev.len() == 3,
        now.len() == 3,
        0 <= k < 3,
        now[k] ^ prev[k] == mask,
        forall|j: int| 0 <= j < 3 && j != k ==> now[j] == prev[j],
        mask == 0x01 || mask == 0x02 || mask == 0x10 || mask == 0x20 || mask == 0x40 || mask
            == 0x80,
    ensures
        k == 0 && mask == 0x10
            ==> button_edges(prev, now) == "pad "@ + "square"@ + (if now[0] & 0x10
            != 0 {
            " 1\n"@
        } else {
            " 0\n"@
        }),
        k == 0 && mask == 0x20 ==> button_edges(prev, now) == "pad "@ + "cross"@ + (if now[0] & 0x20
            != 0 {
            " 1\n"@
        } else {
            " 0\n"@
        }),
        k == 0 && mask == 0x40
            ==> button_edges(prev, now) == "pad "@ + "circle"@ + (if now[0] & 0x40
            != 0 {
            " 1\n"@
        } else {
            " 0\n"@
        }),
        k == 0 && mask == 0x80
            ==> button_edges(prev, now) == "pad "@ + "triangle"@ + (if now[0] & 0x80
            != 0 {
            " 1\n"@
        } else {
            " 0\n"@
        }),
        k == 1 && mask == 0x01 ==> button_edges(prev, now) == "pad "@ + "l1"@ + (if now[1] & 0x01
            != 0 {
            " 1\n"@
        } else {
            " 0\n"@
        }),
        k == 1 && mask == 0x02 ==> button_edges(prev, now) == "pad "@ + "r1"@ + (if now[1] & 0x02
            != 0 {
            " 1\n"@
        } else {
            " 0\n"@
        }),
        k == 1 && mask == 0x10 ==> button_edges(prev, now) == "pad "@ + "share"@ + (if now[1] & 0x10
            != 0 {
            " 1\n"@
        } else {
            " 0\n"@
        }),
        k == 1 && mask == 0x20
            ==> button_edges(prev, now) == "pad "@ + "options"@ + (if now[1] & 0x20
            != 0 {
            " 1\n"@
        } else {
            " 0\n"@
        }),
        k == 2 && mask == 0x01 ==> button_edges(prev, now) == "pad "@ + "ps"@ + (if now[2] & 0x01
            != 0 {
            " 1\n"@
        } else {
            " 0\n"@
        }),
        k == 2 && mask == 0x02
            ==> button_edges(prev, now) == "pad "@ + "touchpad"@ + (if now[2] & 0x02
            != 0 {
            " 1\n"@
        } else {
            " 0\n"@
        }),
        k == 2 && mask == 0x40 ==> button_edges(prev, now) == "pad "@ + "l3"@ + (if now[2] & 0x40
            != 0 {
            " 1\n"@
        } else {
            " 0\n"@
        }),
        k == 2 && mask == 0x80 ==> button_edges(prev, now) == "pad "@ + "r3"@ + (if now[2] & 0x80
            != 0 {
            " 1\n"@
        } else {
            " 0\n"@
        }),
{
    let x0 = now[0] ^ prev[0];
    let x1 = now[1] ^ prev[1];
    let x2 = now[2] ^ prev[2];
    one_bit(0, now[0], prev[0]);
    one_bit(0, now[1], prev[1]);
    one_bit(0, now[2], prev[2]);
    one_bit(x0, 0, 0);
    one_bit(x1, 0, 0);
    one_bit(x2, 0, 0);
    if k == 0 && mask == 0x10 {
        assert(button_edges(prev, now) =~= button_line("square"@, now[0] & 0x10 != 0));
    }
    if k == 0 && mask == 0x20 {
        assert(button_edges(prev, now) =~= button_line("cross"@, now[0] & 0x20 != 0));
    }
    if k == 0 && mask == 0x40 {
        assert(button_edges(prev, now) =~= button_line("circle"@, now[0] & 0x40 != 0));
    }
    if k == 0 && mask == 0x80 {
        assert(button_edges(prev, now) =~= button_line("triangle"@, now[0] & 0x80 != 0));
    }
    if k == 1 && mask == 0x01 {
        assert(button_edges(prev, now) =~= button_line("l1"@, now[1] & 0x01 != 0));
    }
    if k == 1 && mask == 0x02 {
        assert(button_edges(prev, now) =~= button_line("r1"@, now[1] & 0x02 != 0));
    }
    if k == 1 && mask == 0x10 {
        assert(button_edges(prev, now) =~= button_line("share"@, now[1] & 0x10 != 0));
    }
    if k == 1 && mask == 0x20 {
        assert(button_edges(prev, now) =~= button_line("options"@, now[1] & 0x20 != 0));
    }
    if k == 2 && mask == 0x01 {
        assert(button_edges(prev, now) =~= button_line("ps"@, now[2] & 0x01 != 0));
    }
    if k == 2 && mask == 0x02 {
        assert(button_edges(prev, now) =~= button_line("touchpad"@, now[2] & 0x02 != 0));
    }
    if k == 2 && mask == 0x40 {
        assert(button_edges(prev, now) =~= button_line("l3"@, now[2] & 0x40 != 0));
    }
    if k == 2 && mask == 0x80 {
        assert(button_edges(prev, now) =~= button_line("r3"@, now[2] & 0x80 != 0));
    }
}

/// A button that changes alone is told of in one line, by its own name, with 1
/// where it went down and 0 where it came up: the face buttons of the first
/// byte, the shoulders, share and options of the second, PS, the touchpad's
/// click and the stick clicks of the third.
pub proof fn each_button_is_told_by_its_name(prev: Seq<u8>, now: Seq<u8>)
    requires
        prev.len() == 3,
        now.len() == 3,
    ensures
        now[0] ^ prev[0] == 0x10 && now[1] == prev[1] && now[2] == prev[2] ==> button_edges(
            prev,
            now,
        ) == "pad "@ + "square"@ + (if now[0] & 0x10 != 0 {
            " 1\n"@
        } else {
            " 0\n"@
        }),
        now[0] ^ prev[0] == 0x20 && now[1] == prev[1] && now[2] == prev[2] ==> button_edges(
            prev,
            now,
        ) == "pad "@ + "cross"@ + (if now[0] & 0x20 != 0 {
            " 1\n"@
        } else {
            " 0\n"@
        }),
        now[0] ^ prev[0] == 0x40 && now[1] == prev[1] && now[2] == prev[2] ==> button_edges(
            prev,
            now,
        ) == "pad "@ + "circle"@ + (if now[0] & 0x40 != 0 {
            " 1\n"@
        } else {
            " 0\n"@
        }),
        now[0] ^ prev[0] == 0x80 && now[1] == prev[1] && now[2] == prev[2] ==> button_edges(
            prev,
            now,
        ) == "pad "@ + "triangle"@ + (if now[0] & 0x80 != 0 {
            " 1\n"@
        } else {
            " 0\n"@
        }),
        now[1] ^ prev[1] == 0x01 && now[0] == prev[0] && now[2] == prev[2] ==> button_edges(
            prev,
            now,
        ) == "pad "@ + "l1"@ + (if now[1] & 0x01 != 0 {
            " 1\n"@
        } else {
            " 0\n"@
        }),
        now[1] ^ prev[1] == 0x02 && now[0] == prev[0] && now[2] == prev[2] ==> button_edges(
            prev,
            now,
        ) == "pad "@ + "r1"@ + (if now[1] & 0x02 != 0 {
            " 1\n"@
        } else {
            " 0\n"@
        }),
        now[1] ^ prev[1] == 0x10 && now[0] == prev[0] && now[2] == prev[2] ==> button_edges(
            prev,
            now,
        ) == "pad "@ + "share"@ + (if now[1] & 0x10 != 0 {
            " 1\n"@
        } else {
            " 0\n"@
        }),
        now[1] ^ prev[1] == 0x20 && now[0] == prev[0] && now[2] == prev[2] ==> button_edges(
            prev,
            now,
        ) == "pad "@ + "options"@ + (if now[1] & 0x20 != 0 {
            " 1\n"@
        } else {
            " 0\n"@
        }),
        now[2] ^ prev[2] == 0x01 && now[0] == prev[0] && now[1] == prev[1] ==> button_edges(
            prev,
            now,
        ) == "pad "@ + "ps"@ + (if now[2] & 0x01 != 0 {
            " 1\n"@
        } else {
            " 0\n"@
        }),
        now[2] ^ prev[2] == 0x02 && now[0] == prev[0] && now[1] == prev[1] ==> button_edges(
            prev,
            now,
        ) == "pad "@ + "touchpad"@ + (if now[2] & 0x02 != 0 {
            " 1\n"@
        } else {
            " 0\n"@
        }),
        now[2] ^ prev[2] == 0x40 && now[0] == prev[0] && now[1] == prev[1] ==> button_edges(
            prev,
            now,
        ) == "pad "@ + "l3"@ + (if now[2] & 0x40 != 0 {
            " 1\n"@
        } else {
            " 0\n"@
        }),
        now[2] ^ prev[2] == 0x80 && now[0] == prev[0] && now[1] == prev[1] ==> button_edges(
            prev,
            now,
        ) == "pad "@ + "r3"@ + (if now[2] & 0x80 != 0 {
            " 1\n"@
        } else {
            " 0\n"@
        }),
        now == prev ==> button_edges(prev, now).len() == 0,
{
    if now[1] == prev[1] && now[2] == prev[2] && (now[0] ^ prev[0] == 0x10
        || now[0] ^ prev[0] == 0x20 || now[0] ^ prev[0] == 0x40 || now[0] ^ prev[0] == 0x80) {
        lone_edge(prev, now, 0, now[0] ^ prev[0]);
    }
    if now[0] == prev[0] && now[2] == prev[2] && (now[1] ^ prev[1] == 0x01
        || now[1] ^ prev[1] == 0x02 || now[1] ^ prev[1] == 0x10 || now[1] ^ prev[1] == 0x20) {
        lone_edge(prev, now, 1, now[1] ^ prev[1]);
    }
    if now[0] == prev[0] && now[1] == prev[1] && (now[2] ^ prev[2] == 0x01
        || now[2] ^ prev[2] == 0x02 || now[2] ^ prev[2] == 0x40 || now[2] ^ prev[2] == 0x80) {
        lone_edge(prev, now, 2, now[2] ^ prev[2]);
    }
    one_bit(0, now[0], prev[0]);
    one_bit(0, now[1], prev[1]);
    one_bit(0, now[2], prev[2]);
}

/// A d-pad direction that changes alone is told of in one line, by its own
/// name: up on the compass values 7, 0 and 1, right on 1 to 3, down on 3 to 5,
/// left on 5 to 7. Values that stand for the same directions tell nothing.
pub proof fn each_direction_is_told_by_its_name(prev: u8, now: u8)
    ensures
        ({
            let up = |v: u8| v == 7 || v == 0 || v == 1;
            let right = |v: u8| v == 1 || v == 2 || v == 3;
            let down = |v: u8| v == 3 || v == 4 || v == 5;
            let left = |v: u8| v == 5 || v == 6 || v == 7;
            let line = |name: Seq<char>, on: bool|
                "pad "@ + name + (if on {
                    " 1\n"@
                } else {
                    " 0\n"@
                });
            let du = up(prev) != up(now);
            let dr = right(prev) != right(now);
            let dd = down(prev) != down(now);
            let dl = left(prev) != left(now);
            &&& du && !dr && !dd && !dl ==> hat_edges(prev, now) == line("up"@, up(now))
            &&& !du && dr && !dd && !dl ==> hat_edges(prev, now) == line("right"@, right(now))
            &&& !du && !dr && dd && !dl ==> hat_edges(prev, now) == line("down"@, down(now))
            &&& !du && !dr && !dd && dl ==> hat_edges(prev, now) == line("left"@, left(now))
            &&& !du && !dr && !dd && !dl ==> hat_edges(prev, now).len() == 0
            &&& du && dr && !dd && !dl ==> hat_edges(prev, now) == line("up"@, up(now)) + line(
                "right"@,
                right(now),
            )
            &&& !du && dr && dd && !dl ==> hat_edges(prev, now) == line("right"@, right(now))
                + line("down"@, down(now))
            &&& !du && !dr && dd && dl ==> hat_edges(prev, now) == line("down"@, down(now)) + line(
                "left"@,
                left(now),
            )
            &&& du && !dr && !dd && dl ==> hat_edges(prev, now) == line("up"@, up(now)) + line(
                "left"@,
                left(now),
            )
        }),
{
    let p = hat_shape(prev);
    let n = hat_shape(now);
    let u = dir_edge(p[0], n[0], "up"@);
    let r = dir_edge(p[1], n[1], "right"@);
    let d = dir_edge(p[2], n[2], "down"@);
    let l = dir_edge(p[3], n[3], "left"@);
    assert(u + r + d + l =~= u + (r + (d + l)));
    assert(u.len() == 0 ==> u + (r + (d + l)) =~= r + (d + l));
    assert(r.len() == 0 ==> r + (d + l) =~= d + l);
    assert(d.len() == 0 ==> d + l =~= l);
    assert(l.len() == 0 ==> d + l =~= d);
    assert(d.len() == 0 && l.len() == 0 ==> r + (d + l) =~= r);
    assert(r.len() == 0 && d.len() == 0 && l.len() == 0 ==> u + (r + (d + l)) =~= u);
}

/// The hat is held against the directions of the report before: what is told
/// of two reports in a row is what changed between them, and nothing is lost.
pub proof fn every_change_is_told(
    pre: BridgeState,
    post: BridgeState,
    report: Seq<u8>,
    next: Seq<u8>,
    l: InputLayout,
)
    requires
        fed(pre, post, report, l),
        heard(pre.clients@, report, l),
    ensures
        report_buttons(post, next, l) == button_edges(
            report.subrange(l.btn0 as int, l.btn0 + 3),
            next.subrange(l.btn0 as int, l.btn0 + 3),
        ) + hat_edges(
            report[l.btn0 as int] & 0x0f,
            next.subrange(l.btn0 as int, l.btn0 + 3)[0] & 0x0f,
        ),
{
    assert(report.subrange(l.btn0 as int, l.btn0 + 3)[0] == report[l.btn0 as int]);
}

/// The stick is told of to clients that hold only, once either axis is two
/// steps or more from what was last told, and then as it stands, x first.
pub proof fn stick_is_told_when_it_moved(st: BridgeState, report: Seq<u8>, l: InputLayout)
    requires
        st.prev_stick@.len() == 2,
        report.len() >= l.stick0 + 2,
    ensures
        ({
            let x = report[l.stick0 as int];
            let y = report[l.stick0 + 1];
            let dx = x - st.prev_stick@[0];
            let dy = y - st.prev_stick@[1];
            let moved = dx >= 2 || dx <= -2 || dy >= 2 || dy <= -2;
            &&& !holds(st.clients@) || !moved ==> report_stick(st, report, l).len() == 0
            &&& holds(st.clients@) && moved ==> report_stick(st, report, l) == "stick "@
                + stick_text(x) + " "@ + stick_text(y) + "\n"@
        }),
{
}

/// The digits of a number up to a thousand spell it.
proof fn decimal_digits(t: int)
    requires
        0 <= t <= 1000,
    ensures
        0 <= t / 1000 <= 1,
        t / 1000 * 1000 + t / 100 % 10 * 100 + t / 10 % 10 * 10 + t % 10 == t,
{
    let a = t / 10;
    let b = t / 100;
    assert(b == a / 10);
    assert(t / 1000 == b / 10);
    assert(t == 10 * a + t % 10);
    assert(a == 10 * b + a % 10);
    assert(b == 10 * (t / 1000) + b % 10);
}

/// A stick value is told with three decimals: the nearest thousandth of its
/// distance from 128 over 127, with a minus sign left of or above the centre;
/// the two values furthest out are both full.
pub proof fn stick_values_are_rounded(v: u8)
    ensures
        ({
            let t = stick_text(v);
            let m = if v == 0 {
                127int
            } else if v < 128 {
                128 - v
            } else {
                v - 128
            };
            let at = if v < 128 {
                1int
            } else {
                0
            };
            let told = (t[at] as int - 48) * 1000 + (t[at + 2] as int - 48) * 100 + (t[at + 3] as int
                - 48) * 10 + (t[at + 4] as int - 48);
            &&& t.len() == 5 + at
            &&& v < 128 ==> t[0] == '-'
            &&& t[at + 1] == '.'
            &&& 48 <= t[at] as int <= 49
            &&& 48 <= t[at + 2] as int <= 57
            &&& 48 <= t[at + 3] as int <= 57
            &&& 48 <= t[at + 4] as int <= 57
            &&& 2000 * m - 127 <= 254 * told <= 2000 * m + 127
        }),
{
    reveal_strlit("-");
    reveal_strlit("");
    let t = thousandths(v);
    let m = if v == 0 {
        127int
    } else if v < 128 {
        128 - v
    } else {
        v - 128
    };
    assert(t == (2000 * m + 127) / 254);
    assert(2000 * m - 127 <= 254 * t <= 2000 * m + 127);
    assert(0 <= t <= 1000);
    decimal_digits(t);
    let at = if v < 128 {
        1int
    } else {
        0
    };
    assert(stick_text(v)[at] == (48 + t / 1000) as char);
    assert(stick_text(v)[at + 2] == (48 + t / 100 % 10) as char);
    assert(stick_text(v)[at + 3] == (48 + t / 10 % 10) as char);
    assert(stick_text(v)[at + 4] == (48 + t % 10) as char);
}

/// Where there is something to tell of the buttons, every client gets it in
/// turn, and those that hold get the stick behind it.
pub proof fn every_client_is_told_of_buttons(
    clients: Seq<Client>,
    buttons: Seq<char>,
    stick: Seq<char>,
    i: int,
)
    requires
        buttons.len() > 0,
        0 <= i < clients.len(),
    ensures
        deliveries(clients, buttons, stick).len() == clients.len(),
        deliveries(clients, buttons, stick)[i].0 == clients[i].id,
        deliveries(clients, buttons, stick)[i].1 == (if clients[i].mode == Mode::Hold {
            buttons + stick
        } else {
            buttons
        }),
    decreases clients.len(),
{
    reveal_with_fuel(deliveries, 2);
    let before = clients.drop_last();
    if before.len() > 0 {
        every_client_is_told_of_buttons(before, buttons, stick, if i < before.len() {
            i
        } else {
            0
        });
    }
}

/// The stick alone goes to clients that hold, and to no other.
pub proof fn only_hold_clients_are_told_of_the_stick(
    clients: Seq<Client>,
    stick: Seq<char>,
    k: int,
)
    requires
        stick.len() > 0,
        0 <= k < deliveries(clients, Seq::empty(), stick).len(),
    ensures
        deliveries(clients, Seq::empty(), stick)[k].1 == stick,
        exists|i: int|
            0 <= i < clients.len() && (#[trigger] clients[i]).mode == Mode::Hold && clients[i].id
                == deliveries(clients, Seq::empty(), stick)[k].0,
    decreases clients.len(),
{
    let before = deliveries(clients.drop_last(), Seq::empty(), stick);
    assert(Seq::<char>::empty() + stick =~= stick);
    if k < before.len() {
        only_hold_clients_are_told_of_the_stick(clients.drop_last(), stick, k);
        let i = choose|i: int|
            0 <= i < clients.drop_last().len() && (#[trigger] clients.drop_last()[i]).mode
                == Mode::Hold && clients.drop_last()[i].id == before[k].0;
        assert(clients[i] == clients.drop_last()[i]);
    } else {
        assert(clients[clients.len() - 1] == clients.last());
    }
}

/// Switching one client's mode leaves all numbers and every other client's
/// mode as they are; a client that is not there switches nothing.
pub proof fn switching_touches_one_client(clients: Seq<Client>, id: i32, mode: Mode, i: int)
    requires
        0 <= i < clients.len(),
    ensures
        switched(clients, id, mode).len() == clients.len(),
        switched(clients, id, mode)[i].id == clients[i].id,
        clients[i].id != id ==> switched(clients, id, mode)[i] == clients[i],
        clients[i].id == id && (forall|j: int| 0 <= j < i ==> (#[trigger] clients[j]).id != id)
            ==> switched(clients, id, mode)[i].mode == mode,
    decreases clients.len(),
{
    if clients[0].id != id {
        let rest = clients.subrange(1, clients.len() as int);
        if i > 0 {
            assert forall|j: int|
                0 <= j < i - 1 && (forall|m: int| 0 <= m < i ==> (#[trigger] clients[m]).id
                    != id) implies (#[trigger] rest[j]).id != id by {
                assert(rest[j] == clients[j + 1]);
            }
            switching_touches_one_client(rest, id, mode, i - 1);
        } else if rest.len() > 0 {
            switching_touches_one_client(rest, id, mode, 0);
        }
    }
}

/// A line asks for a mode by its words alone, whatever white space stands
/// around them; any other line asks for none.
pub proof fn modes_are_asked_for_by_name(a: Seq<char>, t: Seq<char>, b: Seq<char>)
    requires
        text::all_white(a),
        text::all_white(b),
        t.len() > 0,
        !text::is_white(t[0]),
        !text::is_white(t.last()),
    ensures
        t == "mode watch"@ ==> mode_in(a + t + b) == Some(Mode::Watch),
        t == "mode hold"@ ==> mode_in(a + t + b) == Some(Mode::Hold),
        t != "mode watch"@ && t != "mode hold"@ ==> mode_in(a + t + b) is None,
{
    text::trimming_takes_white_ends(a, t, b);
    reveal_strlit("mode watch");
    reveal_strlit("mode hold");
    assert("mode watch"@.len() == 10 && "mode hold"@.len() == 9);
}

/// A fresh bridge has every button up, both sticks at their centre, and
/// remembers three button bytes, one hat value and two stick values; what it
/// remembers is the same exactly where all six are.
pub proof fn fresh_memory_is_at_rest(a: BridgeState, b: BridgeState)
    ensures
        a.fresh() <==> a.prev_btn@ == seq![0u8, 0, 0] && a.prev_hat == 0 && a.prev_stick@
            == seq![128u8, 128],
        a.same_memory(b) <==> a.prev_btn@ == b.prev_btn@ && a.prev_hat == b.prev_hat
            && a.prev_stick@ == b.prev_stick@,
        a.fresh() && b.fresh() ==> a.same_memory(b),
{
}

/// Deliveries keep their order, their connection and their text.
pub proof fn deliveries_are_what_they_hold(l: Seq<(i32, String)>, i: int)
    requires
        0 <= i < l.len(),
    ensures
        deliveries_view(l).len() == l.len(),
        deliveries_view(l)[i] == (l[i].0, l[i].1@),
{
}

/// Who leaves is gone, and nobody else: the other clients stay.
pub proof fn only_the_leaving_client_goes(clients: Seq<Client>, id: i32, c: Client)
    ensures
        others(clients, id).contains(c) <==> clients.contains(c) && c.id != id,
{
    let keep = |x: Client| x.id != id;
    let rest = others(clients, id);
    if rest.contains(c) {
        clients.lemma_filter_contains_rev(keep, c);
        let k = choose|k: int| 0 <= k < rest.len() && rest[k] == c;
        clients.lemma_filter_pred(keep, k);
    }
    if clients.contains(c) && c.id != id {
        let i = choose|i: int| 0 <= i < clients.len() && clients[i] == c;
        clients.lemma_filter_contains(keep, i);
    }
}

} // verus!
