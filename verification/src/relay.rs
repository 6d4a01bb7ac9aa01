//! The relay between the real pad and the virtual one: what becomes of an
//! input report, of the kernel's outputs and feature requests, and of frames
//! on the control channel. Times are nanoseconds of one clock.

use std::collections::HashMap;

use vstd::prelude::*;

use crate::bytes;
use crate::chords;
use crate::chords::ChordFire;
use crate::chords::ChordState;
use crate::chords::NotifyEvent;
use crate::config;
use crate::crc;
use crate::errno;
use crate::flush;
use crate::hid::Transport;
use crate::hid::PRODUCT_DS4;
use crate::hid::PRODUCT_DUALSENSE;
use crate::ipc;
use crate::l2cap;
use crate::proxy;
use crate::proxy::InputLayout;
use crate::proxy::StickCurve;
use crate::session;
use crate::sink;
use crate::sink::SinkRelays;
use crate::text;
use crate::xinput;

verus! {

/// A session's fixed properties.
#[derive(Clone, Copy)]
pub struct RelayParams {
    /// A direct Bluetooth session.
    pub l2cap: bool,
    /// The virtual pad is presented as a cabled one.
    pub usb_view: bool,
    /// Swap the cross and circle buttons.
    pub swap_ox: bool,
    /// Sticks near the centre are relayed as centred.
    pub deadzone: bool,
    pub transport: Transport,
    pub product: u32,
    pub virtual_mac: [u8; 6],
    /// Least time between two forwarded reports of a direct session.
    pub pace_ns: u64,
    pub layout: InputLayout,
}

/// The layout of the reports that the virtual pad gets.
pub open spec fn session_layout(
    l2cap: bool,
    product: u32,
    usb_view: bool,
    transport: Transport,
) -> InputLayout {
    if l2cap && product == PRODUCT_DS4 {
        InputLayout { stick0: 3, btn0: 7, trig0: 10, report_id: 0x11 }
    } else if usb_view || transport == Transport::Usb {
        InputLayout { stick0: 1, btn0: 8, trig0: 5, report_id: 0x01 }
    } else {
        InputLayout { stick0: 2, btn0: 9, trig0: 6, report_id: 0x31 }
    }
}

/// The layout of the reports that the virtual pad gets.
pub fn relay_layout(l2cap: bool, product: u32, usb_view: bool, transport: Transport) -> (r:
    InputLayout)
    ensures
        r == session_layout(l2cap, product, usb_view, transport),
        r.ok(),
{
    if l2cap && product == PRODUCT_DS4 {
        proxy::ds4_layout()
    } else if usb_view {
        proxy::layout_for(Transport::Usb)
    } else {
        proxy::layout_for(transport)
    }
}

// ---------------------------------------------------------------- jack detection

/// The level that engages the jack.
pub const JACK_ARM: u32 = 16;

/// How much a low frame takes off the level.
pub const JACK_DROP: u32 = 4;

/// The jack disengages after this time without a high frame.
pub const JACK_HOLD_NS: u64 = 800_000_000;

/// The jack-detect debouncer.
#[derive(Clone, Copy)]
pub struct JackDetect {
    pub level: u32,
    pub high_at: u64,
    pub latched: bool,
}

/// The debouncer after a frame: a high one adds one to the level (at most
/// sixteen, which engages), a low one takes four off; 800 ms without a high
/// frame disengage.
pub open spec fn jack_step(j: JackDetect, high: bool, now: u64) -> JackDetect {
    if high {
        let level = if j.level + 1 < JACK_ARM {
            (j.level + 1) as u32
        } else {
            JACK_ARM
        };
        JackDetect { level, high_at: now, latched: j.latched || level >= JACK_ARM }
    } else {
        JackDetect {
            level: if j.level >= JACK_DROP {
                (j.level - JACK_DROP) as u32
            } else {
                0
            },
            high_at: j.high_at,
            latched: j.latched && chords::elapsed(now, j.high_at) < JACK_HOLD_NS,
        }
    }
}

impl JackDetect {
    pub open spec fn ok(self) -> bool {
        self.level <= JACK_ARM
    }

    /// Nothing plugged.
    pub fn new(now: u64) -> (r: JackDetect)
        ensures
            r == (JackDetect { level: 0, high_at: now, latched: false }),
            r.ok(),
    {
        JackDetect { level: 0, high_at: now, latched: false }
    }

    /// Takes one frame. Returns whether the jack engaged or disengaged.
    pub fn step(&mut self, high: bool, now: u64) -> (r: bool)
        requires
            old(self).ok(),
        ensures
            final(self).ok(),
            *final(self) == jack_step(*old(self), high, now),
            r == (final(self).latched != old(self).latched),
    {
        let before: bool = self.latched;
        if high {
            self.level = if self.level + 1 < JACK_ARM {
                self.level + 1
            } else {
                JACK_ARM
            };
            self.high_at = now;
            if self.level >= JACK_ARM {
                self.latched = true;
            }
        } else {
            self.level = if self.level >= JACK_DROP {
                self.level - JACK_DROP
            } else {
                0
            };
            if self.latched && now >= self.high_at && now - self.high_at >= JACK_HOLD_NS {
                self.latched = false;
            }
        }
        self.latched != before
    }
}

/// The debouncer after a run of frames.
pub open spec fn jack_run(j: JackDetect, frames: Seq<(bool, u64)>) -> JackDetect
    decreases frames.len(),
{
    if frames.len() == 0 {
        j
    } else {
        jack_step(jack_run(j, frames.drop_last()), frames.last().0, frames.last().1)
    }
}

/// How many frames of a run are high.
pub open spec fn highs(frames: Seq<(bool, u64)>) -> int
    decreases frames.len(),
{
    if frames.len() == 0 {
        0
    } else {
        highs(frames.drop_last()) + (if frames.last().0 {
            1int
        } else {
            0
        })
    }
}

/// Isolated high frames never engage the jack: it takes at least sixteen of
/// them from rest.
pub proof fn few_highs_never_engage(j: JackDetect, frames: Seq<(bool, u64)>)
    requires
        j.level == 0,
        !j.latched,
        highs(frames) < 16,
    ensures
        !jack_run(j, frames).latched,
        jack_run(j, frames).level <= highs(frames),
    decreases frames.len(),
{
    if frames.len() > 0 {
        few_highs_never_engage(j, frames.drop_last());
    }
}

/// Flutter never disengages the jack: as long as each low frame comes within
/// 800 ms of a high one, an engaged jack stays engaged.
pub proof fn flutter_never_disengages(j: JackDetect, frames: Seq<(bool, u64)>)
    requires
        j.latched,
        forall|i: int|
            0 <= i < frames.len() && !(#[trigger] frames[i]).0 ==> chords::elapsed(
                frames[i].1,
                jack_run(j, frames.subrange(0, i)).high_at,
            ) < 800_000_000,
    ensures
        jack_run(j, frames).latched,
    decreases frames.len(),
{
    if frames.len() > 0 {
        let front = frames.drop_last();
        assert forall|i: int|
            0 <= i < front.len() && !(#[trigger] front[i]).0 implies chords::elapsed(
            front[i].1,
            jack_run(j, front.subrange(0, i)).high_at,
        ) < 800_000_000 by {
            assert(front[i] == frames[i]);
            assert(front.subrange(0, i) =~= frames.subrange(0, i));
        }
        flutter_never_disengages(j, front);
        assert(frames.subrange(0, frames.len() - 1) =~= front);
        assert(frames[frames.len() - 1] == frames.last());
    }
}

/// Right after a low frame, up to three high frames do not engage the jack.
pub proof fn spurious_highs_after_a_low_do_not_engage(
    j: JackDetect,
    low_at: u64,
    frames: Seq<(bool, u64)>,
)
    requires
        j.ok(),
        !jack_step(j, false, low_at).latched,
        frames.len() <= 3,
    ensures
        !jack_run(jack_step(j, false, low_at), frames).latched,
        jack_run(jack_step(j, false, low_at), frames).level <= 12 + frames.len(),
    decreases frames.len(),
{
    if frames.len() > 0 {
        spurious_highs_after_a_low_do_not_engage(j, low_at, frames.drop_last());
    }
}

/// Steady high frames engage the jack: sixteen of them do, wherever the level
/// was.
pub proof fn steady_highs_engage(j: JackDetect, frames: Seq<(bool, u64)>)
    requires
        frames.len() >= 16,
        forall|i: int| 0 <= i < frames.len() ==> (#[trigger] frames[i]).0,
    ensures
        jack_run(j, frames).latched,
{
    highs_fill_the_level(j, frames);
}

proof fn highs_fill_the_level(j: JackDetect, frames: Seq<(bool, u64)>)
    requires
        forall|i: int| 0 <= i < frames.len() ==> (#[trigger] frames[i]).0,
    ensures
        frames.len() < 16 ==> jack_run(j, frames).level >= frames.len(),
        frames.len() >= 16 ==> jack_run(j, frames).level >= 16 && jack_run(
            j,
            frames,
        ).latched,
    decreases frames.len(),
{
    if frames.len() > 0 {
        let front = frames.drop_last();
        assert forall|i: int| 0 <= i < front.len() implies (#[trigger] front[i]).0 by {
            assert(front[i] == frames[i]);
        }
        highs_fill_the_level(j, front);
        assert(frames[frames.len() - 1].0);
    }
}

/// After an unplug four low frames are enough that it takes sixteen high ones
/// to engage the jack again, as from rest.
pub proof fn lows_drain_the_level(j: JackDetect, frames: Seq<(bool, u64)>)
    requires
        j.ok(),
        forall|i: int| 0 <= i < frames.len() ==> !(#[trigger] frames[i]).0,
    ensures
        jack_run(j, frames).level <= (if frames.len() < 4 {
            16 - 4 * frames.len()
        } else {
            0
        }),
    decreases frames.len(),
{
    if frames.len() > 0 {
        let front = frames.drop_last();
        assert forall|i: int| 0 <= i < front.len() implies !(#[trigger] front[i]).0 by {
            assert(front[i] == frames[i]);
        }
        lows_drain_the_level(j, front);
        assert(!frames[frames.len() - 1].0);
    }
}

/// Without a high frame for 800 ms the next low frame disengages the jack.
pub proof fn silence_disengages(j: JackDetect, now: u64)
    requires
        chords::elapsed(now, j.high_at) >= 800_000_000,
    ensures
        !jack_step(j, false, now).latched,
{
}

/// A high frame marks its time and a low one leaves the mark; a low frame takes
/// four off the level and no more, a high one adds one.
pub proof fn frames_move_the_level(j: JackDetect, now: u64)
    requires
        j.ok(),
    ensures
        jack_step(j, true, now).high_at == now,
        jack_step(j, false, now).high_at == j.high_at,
        j.level < 16 ==> jack_step(j, true, now).level == j.level + 1,
        j.level >= 4 ==> jack_step(j, false, now).level == j.level - 4,
        j.level < 4 ==> jack_step(j, false, now).level == 0,
        !j.latched ==> !jack_step(j, false, now).latched,
        j.latched ==> jack_step(j, true, now).latched,
        j.latched && now >= j.high_at ==> (jack_step(j, false, now).latched <==> now - j.high_at
            < 800_000_000),
{
}

/// The byte of a report that tells of the jack.
pub open spec fn jack_byte(report: Seq<u8>) -> Option<u8> {
    if report.len() > 55 && report[0] == 0x31 {
        Some(report[55])
    } else if report.len() > 54 && report[0] == 0x01 {
        Some(report[54])
    } else {
        None
    }
}

fn jack_of(report: &[u8]) -> (r: Option<u8>)
    ensures
        r == jack_byte(report@),
{
    if report.len() > 55 && report[0] == 0x31 {
        Some(report[55])
    } else if report.len() > 54 && report[0] == 0x01 {
        Some(report[54])
    } else {
        None
    }
}

/// The debouncer after a report.
pub open spec fn jack_after(j: JackDetect, report: Seq<u8>, now: u64) -> JackDetect {
    match jack_byte(report) {
        Some(b) => jack_step(j, b & 0x01 != 0, now),
        None => j,
    }
}

// ---------------------------------------------------------------- raw reports

/// A raw frame without the HIDP byte of a direct session.
pub open spec fn payload(raw: Seq<u8>, l2cap: bool) -> Seq<u8> {
    if l2cap && raw.len() > 0 && raw[0] == 0xA1 {
        raw.subrange(1, raw.len() as int)
    } else {
        raw
    }
}

/// Whether a report of a direct session is a control report: a DualShock 4's,
/// or a DualSense's that carries no audio.
pub open spec fn is_control(report: Seq<u8>) -> bool {
    ||| report.len() == 78 && report[0] == 0x11
    ||| report.len() >= 65 && report[0] == 0x31 && report[1] & 0x0F == 0x01
}

fn control(report: &[u8]) -> (r: bool)
    ensures
        r == is_control(report@),
{
    (report.len() == 78 && report[0] == 0x11) || (report.len() >= 65 && report[0] == 0x31
        && report[1] & 0x0F == 0x01)
}

/// A button byte with cross and circle swapped.
pub open spec fn swapped(b: u8) -> u8 {
    (b & 0x9F) | ((b & 0x20) << 1) | ((b & 0x40) >> 1)
}

/// Swapping twice restores the byte; swapping exchanges the two buttons and
/// leaves the others.
pub proof fn swap_is_an_involution(b: u8)
    ensures
        swapped(swapped(b)) == b,
        (swapped(b) & 0x20 != 0) == (b & 0x40 != 0),
        (swapped(b) & 0x40 != 0) == (b & 0x20 != 0),
        swapped(b) & 0x9F == b & 0x9F,
{
    assert({
        let s = (b & 0x9F) | ((b & 0x20) << 1) | ((b & 0x40) >> 1);
        &&& (s & 0x9F) | ((s & 0x20) << 1) | ((s & 0x40) >> 1) == b
        &&& (s & 0x20 != 0) == (b & 0x40 != 0)
        &&& (s & 0x40 != 0) == (b & 0x20 != 0)
        &&& s & 0x9F == b & 0x9F
    }) by (bit_vector);
}

/// Whether the touch point at `at` is idle.
pub open spec fn idle_point(bt: Seq<u8>, at: int) -> bool {
    bt[at + 1] & 0x80 != 0
}

/// A byte of the cabled report: that of the Bluetooth report one further on,
/// but for the report id, a sequence number of its own, idle touch points (80
/// 00 00 00), a reserved byte, the external-power bit and the swapped buttons.
pub open spec fn usb_byte(bt: Seq<u8>, seq: u8, swap: bool, i: int) -> u8 {
    if i == 0 {
        0x01
    } else if i == 7 {
        seq
    } else if i == 8 && swap {
        swapped(bt[9])
    } else if 0x21 <= i < 0x25 && idle_point(bt, 0x21) {
        if i == 0x21 {
            0x80
        } else {
            0
        }
    } else if 0x25 <= i < 0x29 && idle_point(bt, 0x25) {
        if i == 0x25 {
            0x80
        } else {
            0
        }
    } else if i == 0x29 {
        0
    } else if i == 0x36 {
        bt[0x37] | 0x08
    } else {
        bt[i + 1]
    }
}

/// The cabled report of a Bluetooth one.
pub open spec fn usb_of(bt: Seq<u8>, seq: u8, swap: bool) -> Seq<u8> {
    Seq::new(64, |i: int| usb_byte(bt, seq, swap, i))
}

fn clear_point(usb: &mut Vec<u8>, at: usize)
    requires
        old(usb)@.len() == 64,
        at <= 60,
    ensures
        final(usb)@ == (if old(usb)@[at as int] & 0x80 != 0 {
            bytes::overlay(old(usb)@, at as int, seq![0x80u8, 0, 0, 0])
        } else {
            old(usb)@
        }),
{
    if usb[at] & 0x80 != 0 {
        usb.set(at, 0x80);
        usb.set(at + 1, 0);
        usb.set(at + 2, 0);
        usb.set(at + 3, 0);
        assert(usb@ =~= bytes::overlay(old(usb)@, at as int, seq![0x80u8, 0, 0, 0]));
    }
}

/// The cabled report of a Bluetooth one.
pub fn usb_report(bt: &[u8], seq: u8, swap: bool) -> (r: Vec<u8>)
    requires
        bt@.len() >= 65,
    ensures
        r@ == usb_of(bt@, seq, swap),
{
    let mut usb: Vec<u8> = Vec::new();
    usb.push(0x01);
    bytes::append(&mut usb, vstd::slice::slice_subrange(bt, 2, 65));
    assert(usb@.len() == 64);
    assert(forall|i: int| 1 <= i < 64 ==> #[trigger] usb@[i] == bt@[i + 1]);
    usb.set(7, seq);
    clear_point(&mut usb, 0x21);
    clear_point(&mut usb, 0x25);
    usb.set(0x29, 0);
    let power: u8 = usb[0x36];
    usb.set(0x36, power | 0x08);
    if swap {
        let b: u8 = usb[8];
        usb.set(8, (b & 0x9F) | ((b & 0x20) << 1) | ((b & 0x40) >> 1));
    }
    assert(usb@ =~= usb_of(bt@, seq, swap));
    usb
}

/// Sticks, triggers, buttons and motion come through the change of view at
/// their places.
pub proof fn usb_view_keeps_the_controls(bt: Seq<u8>, seq: u8, i: int)
    requires
        bt.len() >= 65,
        1 <= i < 0x21,
        i != 7,
    ensures
        usb_of(bt, seq, false)[i] == bt[i + 1],
{
}

/// Whether a report is shown to the virtual pad as a cabled one.
pub open spec fn in_usb_view(p: RelayParams, report: Seq<u8>) -> bool {
    p.usb_view && report.len() >= 65 && report[0] == 0x31
}

/// The report as the chords and the virtual pad see it; none where a direct
/// session sends something else.
pub open spec fn shown(p: RelayParams, usb_seq: u8, raw: Seq<u8>) -> Option<Seq<u8>> {
    let report = payload(raw, p.l2cap);
    if p.l2cap && !is_control(report) {
        None
    } else if in_usb_view(p, report) {
        Some(usb_of(report, ((usb_seq + 1) % 256) as u8, p.swap_ox))
    } else {
        Some(report)
    }
}

// ---------------------------------------------------------------- the relay

/// The relay's memory.
pub struct RelayState {
    pub p: RelayParams,
    pub jack: JackDetect,
    /// The jack as published to the audio sink.
    pub plugged: bool,
    pub reassert_at: u64,
    /// Sequence number of the cabled view.
    pub usb_seq: u8,
    pub chords: ChordState,
    /// Hide the PS button from the virtual pad.
    pub ps_swallow: bool,
    pub pause_break: bool,
    pub gate_break: bool,
    pub eofs: u32,
    pub last_fwd: u64,
}

/// The pace of a direct session in microseconds, unless the environment names
/// another.
pub const PACE_US: u64 = 12_000;

/// The pace in microseconds.
pub open spec fn pace_of(v: Option<Seq<char>>) -> int {
    match v {
        Some(s) => match text::bounded_number(s, 10, u64::MAX as int) {
            Some(n) => n,
            None => PACE_US as int,
        },
        None => PACE_US as int,
    }
}

/// The pace in microseconds, from what the environment says.
pub fn pace_us(v: &Option<String>) -> (r: u64)
    ensures
        r == pace_of(config::opt_view(*v)),
{
    match v {
        Some(s) => match text::parse_number(text::chars_of(s.as_str()).as_slice(), 10, u64::MAX) {
            Some(n) => n,
            None => PACE_US,
        },
        None => PACE_US,
    }
}

/// The time between two heartbeats of a cabled session.
pub const REASSERT_NS: u64 = 2_000_000_000;

/// What one raw report sets off, up to the bridge.
pub struct Intake {
    /// The jack engaged or disengaged.
    pub jack_change: Option<bool>,
    /// Reports to write to the pad.
    pub writes: Vec<Vec<u8>>,
    pub fire: ChordFire,
    /// The event of a toggled PS mode.
    pub event: Option<NotifyEvent>,
    /// The report without what the chords swallow; none where it goes no
    /// further.
    pub report: Option<Vec<u8>>,
}

/// What becomes of a report behind the bridge.
pub enum ForwardStep {
    /// Nothing goes out; park the second pad at neutral, if told so.
    Drop(bool),
    /// Nothing goes out: the last report was too recent.
    Hold(Vec<u8>),
    /// Goes to the virtual pad.
    Send(Vec<u8>),
}

/// What becomes of a report behind the bridge, by its bytes.
pub ghost enum ForwardShape {
    Drop(bool),
    Hold(Seq<u8>),
    Send(Seq<u8>),
}

impl View for ForwardStep {
    type V = ForwardShape;

    open spec fn view(&self) -> ForwardShape {
        match *self {
            ForwardStep::Drop(park) => ForwardShape::Drop(park),
            ForwardStep::Hold(h) => ForwardShape::Hold(h@),
            ForwardStep::Send(h) => ForwardShape::Send(h@),
        }
    }
}

/// What decides on a report behind the bridge.
pub ghost struct Moment {
    pub now: u64,
    /// An overlay holds the input.
    pub paused: bool,
    /// Gameplay input is blocked.
    pub gate: bool,
    /// The sticks are shaped.
    pub curve: Option<StickCurve>,
}

impl RelayState {
    pub open spec fn ok(self) -> bool {
        &&& self.p.layout.ok()
        &&& self.jack.ok()
        &&& self.chords.ok()
        &&& self.eofs <= 51
    }

    /// A fresh relay at the time `now`; `plugged` is what was published of the
    /// jack so far.
    pub fn new(p: RelayParams, chords: ChordState, ps_swallow: bool, plugged: bool, now: u64) -> (r:
        RelayState)
        requires
            p.layout.ok(),
            chords.ok(),
        ensures
            r.ok(),
            r.p == p,
            r.chords == chords,
            r.ps_swallow == ps_swallow,
            r.plugged == plugged,
            r.jack == (JackDetect { level: 0, high_at: now, latched: false }),
            r.reassert_at == now,
            r.usb_seq == 0,
            !r.pause_break,
            !r.gate_break,
            r.eofs == 0,
            r.last_fwd == (if now >= 1_000_000_000 {
                now - 1_000_000_000
            } else {
                now as int
            }),
    {
        RelayState {
            p,
            jack: JackDetect::new(now),
            plugged,
            reassert_at: now,
            usb_seq: 0,
            chords,
            ps_swallow,
            pause_break: false,
            gate_break: false,
            eofs: 0,
            last_fwd: if now >= 1_000_000_000 {
                now - 1_000_000_000
            } else {
                now
            },
        }
    }

    /// The configuration was read again.
    pub fn reload(&mut self, chords: ChordState, ps_swallow: bool)
        requires
            old(self).ok(),
            chords.ok(),
        ensures
            final(self).ok(),
            *final(self) == (RelayState { chords, ps_swallow, ..*old(self) }),
    {
        self.chords = chords;
        self.ps_swallow = ps_swallow;
    }

    /// The pad's node was read and had nothing: after fifty times in a row it
    /// is given up. Returns whether it is.
    pub fn on_eof(&mut self) -> (r: bool)
        requires
            old(self).ok(),
        ensures
            final(self).ok(),
            final(self).eofs == (if old(self).eofs <= 50 {
                old(self).eofs + 1
            } else {
                51
            }),
            *final(self) == (RelayState { eofs: final(self).eofs, ..*old(self) }),
            r == (old(self).eofs >= 50),
    {
        if self.eofs <= 50 {
            self.eofs = self.eofs + 1;
        }
        self.eofs > 50
    }

    /// Whether the heartbeat of a cabled session is due.
    pub open spec fn reassert_due(self, now: u64) -> bool {
        !self.p.l2cap && chords::elapsed(now, self.reassert_at) >= REASSERT_NS
    }

    /// What a raw report has the pad told: the path where the jack changed,
    /// and the heartbeat where it is due. (A direct session has the writer for
    /// both.)
    pub open spec fn pad_writes(self, raw: Seq<u8>, now: u64) -> Seq<Seq<u8>> {
        let report = payload(raw, self.p.l2cap);
        let jack = jack_after(self.jack, report, now);
        let plugged = if jack_byte(report) is Some {
            jack.latched
        } else {
            self.plugged
        };
        let engage = if jack.latched != self.jack.latched && !self.p.l2cap {
            seq![sink::engage_shape(jack.latched)]
        } else {
            Seq::empty()
        };
        if self.reassert_due(now) {
            engage.push(sink::reassert_shape(plugged))
        } else {
            engage
        }
    }

    fn sense(&mut self, report: &[u8], now: u64) -> (r: (Option<bool>, Vec<Vec<u8>>))
        requires
            old(self).ok(),
        ensures
            final(self).ok(),
            final(self).jack == jack_after(old(self).jack, report@, now),
            final(self).plugged == (if jack_byte(report@) is Some {
                final(self).jack.latched
            } else {
                old(self).plugged
            }),
            final(self).reassert_at == (if old(self).reassert_due(now) {
                now
            } else {
                old(self).reassert_at
            }),
            *final(self) == (RelayState {
                jack: final(self).jack,
                plugged: final(self).plugged,
                reassert_at: final(self).reassert_at,
                ..*old(self)
            }),
            r.0 == (if final(self).jack.latched != old(self).jack.latched {
                Some(final(self).jack.latched)
            } else {
                None
            }),
            ({
                let engage = if r.0 is Some && !old(self).p.l2cap {
                    seq![sink::engage_shape(final(self).jack.latched)]
                } else {
                    Seq::empty()
                };
                sink::reports(r.1@) == (if old(self).reassert_due(now) {
                    engage.push(sink::reassert_shape(final(self).plugged))
                } else {
                    engage
                })
            }),
    {
        let mut change: Option<bool> = None;
        let mut writes: Vec<Vec<u8>> = Vec::new();
        assert(sink::reports(writes@) =~= Seq::empty());
        match jack_of(report) {
            Some(b) => {
                if self.jack.step(b & 0x01 != 0, now) {
                    change = Some(self.jack.latched);
                    if !self.p.l2cap {
                        let engage: [u8; 48] = sink::usb_engage_report(self.jack.latched);
                        writes.push(bytes::copy_of(engage.as_slice()));
                        assert(sink::reports(writes@) =~= seq![
                            sink::engage_shape(self.jack.latched),
                        ]);
                    }
                }
                self.plugged = self.jack.latched;
            },
            None => {},
        }
        if !self.p.l2cap && now >= self.reassert_at && now - self.reassert_at >= REASSERT_NS {
            self.reassert_at = now;
            let beat: [u8; 48] = sink::usb_reassert_report(self.plugged);
            let ghost before = sink::reports(writes@);
            writes.push(bytes::copy_of(beat.as_slice()));
            assert(sink::reports(writes@) =~= before.push(sink::reassert_shape(self.plugged)));
        }
        (change, writes)
    }

    /// Takes one raw report of the pad.
    pub fn intake(&mut self, raw: &[u8], now: u64) -> (r: Intake)
        requires
            old(self).ok(),
        ensures
            final(self).ok(),
            final(self).p == old(self).p,
            final(self).eofs == 0,
            final(self).pause_break == old(self).pause_break,
            final(self).gate_break == old(self).gate_break,
            final(self).last_fwd == old(self).last_fwd,
            ({
                let report = payload(raw@, old(self).p.l2cap);
                &&& final(self).jack == jack_after(old(self).jack, report, now)
                &&& final(self).plugged == (if jack_byte(report) is Some {
                    final(self).jack.latched
                } else {
                    old(self).plugged
                })
                &&& r.jack_change == (if final(self).jack.latched != old(self).jack.latched {
                    Some(final(self).jack.latched)
                } else {
                    None
                })
            }),
            final(self).reassert_at == (if old(self).reassert_due(now) {
                now
            } else {
                old(self).reassert_at
            }),
            sink::reports(r.writes@) == old(self).pad_writes(raw@, now),
            match shown(old(self).p, old(self).usb_seq, raw@) {
                None => {
                    &&& r.report is None
                    &&& r.fire.toggle is None
                    &&& r.fire.runs@.len() == 0
                    &&& r.event is None
                    &&& final(self).chords == old(self).chords
                    &&& final(self).ps_swallow == old(self).ps_swallow
                    &&& final(self).usb_seq == old(self).usb_seq
                },
                Some(seen) => {
                    let l = old(self).p.layout;
                    let buttons = chords::has_buttons(seen, l);
                    &&& r.report is Some
                    &&& (r.report->0)@ == final(self).chords.stripped(seen, l)
                    &&& buttons ==> {
                        &&& final(self).chords.fed_from(old(self).chords, seen, l, now)
                        &&& config::opt_view(r.fire.toggle) == old(self).chords.effect(
                            old(self).chords.bindings@.len() as int,
                            seen,
                            l,
                        ).toggle
                        &&& chords::runs_view(r.fire.runs@) == old(self).chords.runs(seen, l, now)
                    }
                    &&& !buttons ==> {
                        &&& final(self).chords == old(self).chords
                        &&& r.fire.toggle is None
                        &&& r.fire.runs@.len() == 0
                    }
                    &&& final(self).ps_swallow == (old(self).ps_swallow != (r.fire.toggle is Some))
                    &&& chords::event_view(r.event) == (match r.fire.toggle {
                        Some(name) => chords::event_for(
                            final(self).chords.notify,
                            name@,
                            "ps:toggle"@,
                            true,
                            0,
                            if final(self).ps_swallow {
                                "PS mode: swallow"@
                            } else {
                                "PS mode: pass"@
                            },
                        ),
                        None => None,
                    })
                    &&& final(self).usb_seq == (if in_usb_view(
                        old(self).p,
                        payload(raw@, old(self).p.l2cap),
                    ) {
                        (old(self).usb_seq + 1) % 256
                    } else {
                        old(self).usb_seq as int
                    })
                },
            },
    {
        self.eofs = 0;
        let mut report: Vec<u8> = if self.p.l2cap && raw.len() > 0 && raw[0] == 0xA1 {
            bytes::slice_vec(raw, 1, raw.len())
        } else {
            bytes::copy_of(raw)
        };
        let (jack_change, writes) = self.sense(report.as_slice(), now);
        if self.p.l2cap && !control(report.as_slice()) {
            return Intake {
                jack_change,
                writes,
                fire: ChordFire { toggle: None, runs: Vec::new() },
                event: None,
                report: None,
            };
        }
        if self.p.usb_view && report.len() >= 65 && report[0] == 0x31 {
            self.usb_seq = self.usb_seq.wrapping_add(1);
            report = usb_report(report.as_slice(), self.usb_seq, self.p.swap_ox);
        }
        let layout: InputLayout = self.p.layout;
        let fire: ChordFire = self.chords.feed(report.as_slice(), &layout, now);
        let mut event: Option<NotifyEvent> = None;
        match &fire.toggle {
            Some(name) => {
                self.ps_swallow = !self.ps_swallow;
                event = self.chords.notify_ps_toggle(name.as_str(), self.ps_swallow);
            },
            None => {},
        }
        self.chords.strip(report.as_mut_slice(), &layout);
        Intake { jack_change, writes, fire, event, report: Some(report) }
    }

    /// A report without the PS bit, where that is hidden.
    pub open spec fn unseen(self, report: Seq<u8>) -> Seq<u8> {
        let at = self.p.layout.btn0 + 2;
        if self.ps_swallow && report.len() > at {
            report.update(at, report[at] & 0xFE)
        } else {
            report
        }
    }

    /// A report as blocking and stick shaping leave it.
    pub open spec fn adjusted(self, report: Seq<u8>, gate: bool, curve: Option<StickCurve>) -> Seq<
        u8,
    > {
        let l = self.p.layout;
        let held = gate || (self.gate_break && proxy::live(report, l));
        let g = if held {
            proxy::gated(report, l)
        } else {
            report
        };
        let z = if !gate && self.p.deadzone {
            proxy::deadzoned(g, l)
        } else {
            g
        };
        if !gate && curve is Some {
            proxy::shaped(z, l, (curve->0).map@)
        } else {
            z
        }
    }

    /// Whether the overlay keeps a report from the virtual pad: while it holds
    /// the input, and from there until every button is up.
    pub open spec fn kept_back(self, report: Seq<u8>, m: Moment) -> bool {
        m.paused || (self.pause_break && proxy::live(self.unseen(report), self.p.layout))
    }

    /// Whether a report comes too soon behind the last one.
    pub open spec fn early(self, m: Moment) -> bool {
        self.p.l2cap && chords::elapsed(m.now, self.last_fwd) < self.p.pace_ns
    }

    /// What becomes of a report behind the bridge.
    pub open spec fn step_of(self, report: Seq<u8>, m: Moment) -> ForwardShape {
        let out = self.adjusted(self.unseen(report), m.gate, m.curve);
        if self.kept_back(report, m) {
            ForwardShape::Drop(m.paused && !self.pause_break)
        } else if self.early(m) {
            ForwardShape::Hold(out)
        } else {
            ForwardShape::Send(out)
        }
    }

    /// The relay's memory behind a report.
    pub open spec fn after(self, report: Seq<u8>, m: Moment) -> RelayState {
        if m.paused {
            RelayState { pause_break: true, ..self }
        } else if self.kept_back(report, m) {
            self
        } else {
            RelayState {
                pause_break: false,
                gate_break: m.gate || (self.gate_break && proxy::live(
                    self.unseen(report),
                    self.p.layout,
                )),
                last_fwd: if self.p.l2cap && !self.early(m) {
                    m.now
                } else {
                    self.last_fwd
                },
                ..self
            }
        }
    }

    /// The relay's memory behind several reports.
    pub open spec fn after_all(self, reports: Seq<(Seq<u8>, Moment)>) -> RelayState
        decreases reports.len(),
    {
        if reports.len() == 0 {
            self
        } else {
            let before = self.after_all(reports.drop_last());
            before.after(reports.last().0, reports.last().1)
        }
    }

    /// Takes a report behind the bridge. `paused`: an overlay holds the input.
    /// `gate`: gameplay input is blocked. `curve`: the sticks are shaped.
    pub fn forward(
        &mut self,
        report: Vec<u8>,
        now: u64,
        paused: bool,
        gate: bool,
        curve: &Option<StickCurve>,
    ) -> (r: ForwardStep)
        requires
            old(self).ok(),
            curve is Some ==> (curve->0).ok(),
        ensures
            final(self).ok(),
            r@ == old(self).step_of(report@, (Moment { now, paused, gate, curve: *curve })),
            *final(self) == old(self).after(
                report@,
                (Moment { now, paused, gate, curve: *curve }),
            ),
    {
        let layout: InputLayout = self.p.layout;
        let mut out: Vec<u8> = report;
        if out.len() > layout.btn0 + 2 {
            if self.ps_swallow {
                let b: u8 = out[layout.btn0 + 2];
                out.set(layout.btn0 + 2, b & 0xFE);
            }
        }
        if paused {
            let park: bool = !self.pause_break;
            self.pause_break = true;
            return ForwardStep::Drop(park);
        }
        if self.pause_break {
            if proxy::buttons_live(out.as_slice(), &layout) {
                return ForwardStep::Drop(false);
            }
            self.pause_break = false;
        }
        if gate {
            self.gate_break = true;
            proxy::gate_input(out.as_mut_slice(), &layout);
        } else {
            if self.gate_break {
                if proxy::buttons_live(out.as_slice(), &layout) {
                    proxy::gate_input(out.as_mut_slice(), &layout);
                } else {
                    self.gate_break = false;
                }
            }
            if self.p.deadzone {
                proxy::radial_deadzone(out.as_mut_slice(), &layout);
            }
            match curve {
                Some(c) => {
                    proxy::scale_sticks(out.as_mut_slice(), &layout, c);
                },
                None => {},
            }
        }
        if self.p.l2cap {
            let since: u64 = if now >= self.last_fwd {
                now - self.last_fwd
            } else {
                0
            };
            if since < self.p.pace_ns {
                return ForwardStep::Hold(out);
            }
            self.last_fwd = now;
        }
        ForwardStep::Send(out)
    }
}

/// While an overlay holds the input, nothing reaches the virtual pad.
pub proof fn nothing_passes_while_paused(st: RelayState, report: Seq<u8>, m: Moment)
    requires
        m.paused,
    ensures
        st.step_of(report, m) is Drop,
        st.after(report, m).pause_break,
{
}

/// A press that closes the overlay never reaches the game: once the overlay
/// held the input, nothing passes until a report has every button up.
pub proof fn closing_press_never_reaches_the_game(st: RelayState, reports: Seq<(Seq<u8>, Moment)>)
    requires
        st.pause_break,
        forall|i: int|
            0 <= i < reports.len() ==> proxy::live(
                st.unseen((#[trigger] reports[i]).0),
                st.p.layout,
            ),
    ensures
        st.after_all(reports) == st,
        forall|i: int|
            0 <= i < reports.len() ==> st.after_all(#[trigger] reports.subrange(0, i)).step_of(
                reports[i].0,
                reports[i].1,
            ) is Drop,
    decreases reports.len(),
{
    if reports.len() > 0 {
        let before = reports.drop_last();
        assert forall|i: int| 0 <= i < before.len() implies proxy::live(
            st.unseen((#[trigger] before[i]).0),
            st.p.layout,
        ) by {
            assert(reports[i] == before[i]);
        }
        closing_press_never_reaches_the_game(st, before);
        assert(reports[reports.len() - 1] == reports.last());
        assert(st.after_all(reports) == st);
        assert forall|i: int| 0 <= i < reports.len() implies st.after_all(
            #[trigger] reports.subrange(0, i),
        ).step_of(reports[i].0, reports[i].1) is Drop by {
            if i < before.len() {
                assert(before.subrange(0, i) =~= reports.subrange(0, i));
                assert(before[i] == reports[i]);
            } else {
                assert(reports.subrange(0, i) =~= before);
            }
        }
    }
}

/// The report that leaves, where one does.
pub open spec fn outgoing(step: ForwardShape) -> Option<Seq<u8>> {
    match step {
        ForwardShape::Drop(_) => None,
        ForwardShape::Hold(h) => Some(h),
        ForwardShape::Send(h) => Some(h),
    }
}

/// A native report passes untouched: outside the cabled view, with nothing to
/// swallow, to hide, to block or to shape, what leaves is what the pad sent.
pub proof fn native_reports_pass_untouched(st: RelayState, raw: Seq<u8>, m: Moment)
    requires
        st.ok(),
        !st.p.usb_view,
        st.p.l2cap ==> is_control(payload(raw, st.p.l2cap)),
        st.chords.swallow@ == seq![0u8, 0, 0],
        st.chords.swallow_trig@ == seq![false, false],
        !st.chords.swallow_hat,
        !st.ps_swallow,
        !st.pause_break,
        !st.gate_break,
        !m.paused,
        !m.gate,
        !st.p.deadzone,
        m.curve is None,
    ensures
        shown(st.p, st.usb_seq, raw) == Some(payload(raw, st.p.l2cap)),
        st.chords.stripped(payload(raw, st.p.l2cap), st.p.layout) == payload(raw, st.p.l2cap),
        outgoing(st.step_of(payload(raw, st.p.l2cap), m)) == Some(payload(raw, st.p.l2cap)),
{
    let report = payload(raw, st.p.l2cap);
    let l = st.p.layout;
    if chords::has_buttons(report, l) {
        let a = report[l.btn0 as int];
        let b = report[l.btn0 + 1];
        let c = report[l.btn0 + 2];
        assert(a & !0u8 == a && b & !0u8 == b && c & !0u8 == c) by (bit_vector);
    }
    assert(st.chords.stripped(report, l) =~= report);
}

/// While gameplay input is blocked, and from there until every button is up,
/// what leaves is at rest: no button, no direction of the hat and no trigger,
/// and the sticks centred, or where the curve has the centre once input is no
/// longer blocked.
pub proof fn gated_reports_are_at_rest(st: RelayState, report: Seq<u8>, m: Moment)
    requires
        st.ok(),
        m.gate || (st.gate_break && proxy::live(st.unseen(report), st.p.layout)),
        m.curve is Some ==> (m.curve->0).ok(),
        report.len() >= st.p.layout.btn0 + 3,
    ensures
        match outgoing(st.step_of(report, m)) {
            Some(out) => {
                let l = st.p.layout;
                let centre = if !m.gate && m.curve is Some {
                    (m.curve->0).map@[0x80]
                } else {
                    0x80
                };
                &&& out.len() == report.len()
                &&& out[l.btn0 as int] == 0x08
                &&& out[l.btn0 + 1] == 0
                &&& out[l.btn0 + 2] == 0
                &&& forall|i: int| proxy::is_axis(l, i) ==> #[trigger] out[i] == centre
                &&& forall|i: int|
                    proxy::is_trigger(l, i) && i < report.len() ==> #[trigger] out[i] == 0
                &&& !proxy::live(out, l)
            },
            None => true,
        },
        st.step_of(report, m) !is Drop ==> st.after(report, m).gate_break,
{
    let l = st.p.layout;
    let g = proxy::gated(st.unseen(report), l);
    proxy::gated_reports_are_not_live(st.unseen(report), l);
    proxy::deadzone_is_idempotent(g, l);
    assert(proxy::deadzoned(g, l) =~= g);
    assert(0x08u8 & 0xF0 == 0) by (bit_vector);
}

/// While the PS button is hidden, it is up in every report that leaves.
pub proof fn hidden_ps_never_leaves(st: RelayState, report: Seq<u8>, m: Moment)
    requires
        st.ok(),
        st.ps_swallow,
        m.curve is Some ==> (m.curve->0).ok(),
    ensures
        match outgoing(st.step_of(report, m)) {
            Some(out) => out.len() == report.len() && (out.len() > st.p.layout.btn0 + 2
                ==> out[st.p.layout.btn0 + 2] & 0x01 == 0),
            None => true,
        },
{
    let at = st.p.layout.btn0 + 2;
    if report.len() > at {
        let b = report[at];
        assert((b & 0xFE) & 0x01 == 0 && 0u8 & 0x01 == 0) by (bit_vector);
    }
}

/// Over a direct link a report leaves only when its time has come, and the
/// next one then waits for the same while again.
pub proof fn sends_are_paced(st: RelayState, report: Seq<u8>, m: Moment)
    requires
        st.p.l2cap,
    ensures
        chords::elapsed(m.now, st.last_fwd) < st.p.pace_ns ==> st.step_of(report, m) !is Send
            && st.after(report, m).last_fwd == st.last_fwd,
        st.step_of(report, m) is Send ==> chords::elapsed(m.now, st.last_fwd) >= st.p.pace_ns
            && st.after(report, m).last_fwd == m.now,
        st.after(report, m).p == st.p,
{
}

// ---------------------------------------------------------------- outputs

/// What becomes of a kernel output.
pub enum OutputStep {
    /// Write this to the pad.
    Write(Vec<u8>),
    /// The audio writer sends it.
    Queued,
    Dropped,
}

/// A cabled output with its path bits set by the jack.
pub open spec fn path_kept(data: Seq<u8>, transport: Transport, plugged: bool) -> Seq<u8> {
    if transport == Transport::Usb && (data.len() == 48 || data.len() == 63) && data[0] == 0x02 {
        data.update(7, (data[7] & 0xCF) | sink::path_bits(plugged))
    } else {
        data
    }
}

/// Whether an output is a DualShock 4's.
pub open spec fn ds4_output(p: RelayParams, data: Seq<u8>) -> bool {
    p.l2cap && p.product == PRODUCT_DS4 && data.len() == 78 && data[0] == 0x11
}

/// The part of an output that the audio writer takes: a Bluetooth state, or
/// the state of a cabled output in a direct session.
pub open spec fn for_writer(p: RelayParams, data: Seq<u8>) -> Option<Seq<u8>> {
    if p.transport == Transport::Bluetooth && data.len() == 78 && data[0] == 0x31 {
        Some(data)
    } else if p.l2cap && ((data.len() >= 48 && data[0] == 0x02) || (data.len() == 48 && data[0]
        == 0x05)) {
        Some(data.subrange(0, 48))
    } else {
        None
    }
}

/// A Bluetooth state report.
pub open spec fn bt_state(data: Seq<u8>) -> bool {
    data.len() == 78 && data[0] == 0x31
}

impl RelayState {
    /// Takes one output of the kernel.
    pub fn on_output(&self, relays: &mut SinkRelays, data: &[u8]) -> (r: OutputStep)
        requires
            old(relays).ok(),
        ensures
            final(relays).ok(),
            final(relays).same_but_queue(*old(relays)),
            self.p.transport == Transport::Bluetooth && data@.len() == 78 && data@[0] == 0x31
                && old(relays).out_live ==> r is Queued && sink::reports(
                final(relays).out_q@,
            ).last() == data@,
            self.p.l2cap && data@.len() >= 48 && data@[0] == 0x02 && old(relays).out_live ==> r
                is Queued && sink::reports(final(relays).out_q@).last() == data@.subrange(0, 48),
            ({
                let take = for_writer(self.p, data@);
                if ds4_output(self.p, data@) {
                    &&& r matches OutputStep::Write(w) && w@ == flush::prefixed(data@)
                    &&& final(relays).out_q@ == old(relays).out_q@
                } else if take is Some && old(relays).out_live {
                    &&& r == OutputStep::Queued
                    &&& sink::reports(final(relays).out_q@) == sink::pushed(
                        sink::reports(old(relays).out_q@),
                        take->0,
                        sink::OUT_Q_CAP as int,
                    )
                } else if self.p.l2cap {
                    &&& r == OutputStep::Dropped
                    &&& sink::reports(final(relays).out_q@) == sink::reports(old(relays).out_q@)
                } else {
                    &&& r matches OutputStep::Write(w) && w@ == path_kept(
                        data@,
                        self.p.transport,
                        self.plugged,
                    )
                    &&& sink::reports(final(relays).out_q@) == sink::reports(old(relays).out_q@)
                }
            }),
    {
        if self.p.l2cap && self.p.product == PRODUCT_DS4 && data.len() == 78 && data[0] == 0x11 {
            return OutputStep::Write(flush::with_prefix(data));
        }
        let bt: bool = self.p.transport == Transport::Bluetooth && data.len() == 78 && data[0]
            == 0x31;
        let usb: bool = self.p.l2cap && ((data.len() >= 48 && data[0] == 0x02) || (data.len() == 48
            && data[0] == 0x05));
        if bt && sink::enqueue_output(relays, data) {
            return OutputStep::Queued;
        }
        if !bt && usb && sink::enqueue_output(relays, vstd::slice::slice_subrange(data, 0, 48)) {
            return OutputStep::Queued;
        }
        if self.p.l2cap {
            return OutputStep::Dropped;
        }
        let mut w: Vec<u8> = bytes::copy_of(data);
        if self.p.transport == Transport::Usb && (w.len() == 48 || w.len() == 63) && w[0] == 0x02 {
            let path: u8 = if self.plugged {
                0x00
            } else {
                0x30
            };
            let b: u8 = w[7];
            w.set(7, (b & 0xCF) | path);
        }
        OutputStep::Write(w)
    }
}

// ---------------------------------------------------------------- feature requests

/// A report with the virtual pad's address in it, last octet first.
pub open spec fn with_mac(data: Seq<u8>, mac: Seq<u8>) -> Seq<u8> {
    bytes::overlay(data, 1, seq![mac[5], mac[4], mac[3], mac[2], mac[1], mac[0]])
}

/// Whether a report holds the pad's address.
pub open spec fn holds_mac(rnum: u8, data: Seq<u8>) -> bool {
    (rnum == 0x09 || rnum == 0x0b) && data.len() >= 7
}

/// A cached feature report as the kernel gets it: with the virtual address,
/// and the CRC restamped; in the cabled view without a CRC.
pub open spec fn served(data: Seq<u8>, rnum: u8, mac: Seq<u8>, usb_view: bool) -> Seq<u8> {
    let own = if holds_mac(rnum, data) {
        if usb_view {
            with_mac(data, mac)
        } else {
            proxy::crc_fixed(0xA3, with_mac(data, mac))
        }
    } else {
        data
    };
    if usb_view && own.len() > 4 {
        own.subrange(0, own.len() - 4) + bytes::zeros(4)
    } else {
        own
    }
}

/// A feature report of a hidraw pad as the kernel gets it: with the virtual
/// address, and over Bluetooth the CRC restamped.
pub open spec fn served_hidraw(data: Seq<u8>, rnum: u8, mac: Seq<u8>, transport: Transport) -> Seq<
    u8,
> {
    if holds_mac(rnum, data) {
        if transport == Transport::Bluetooth {
            proxy::crc_fixed(0xA3, with_mac(data, mac))
        } else {
            with_mac(data, mac)
        }
    } else {
        data
    }
}

fn put_mac(data: &mut Vec<u8>, mac: &[u8; 6])
    requires
        old(data)@.len() >= 7,
    ensures
        final(data)@ == with_mac(old(data)@, mac@),
{
    let rev: [u8; 6] = [mac[5], mac[4], mac[3], mac[2], mac[1], mac[0]];
    assert(rev@ =~= seq![mac@[5], mac@[4], mac@[3], mac@[2], mac@[1], mac@[0]]);
    bytes::lay_over(data.as_mut_slice(), 1, rev.as_slice());
}

/// A kernel that sees the native view finds the CRC of what is served in
/// order, and the virtual pad's address in it, as far as the CRC leaves room;
/// a hidraw pad over Bluetooth is served the same way.
pub proof fn served_address_passes_the_kernel(data: Seq<u8>, rnum: u8, mac: Seq<u8>)
    requires
        holds_mac(rnum, data),
        mac.len() == 6,
    ensures
        crc::crc_ok(0xA3, served(data, rnum, mac, false)),
        served(data, rnum, mac, false).len() == data.len(),
        forall|i: int|
            0 <= i < 6 && i + 1 < data.len() - 4 ==> #[trigger] served(data, rnum, mac, false)[i
                + 1] == mac[5 - i],
        served_hidraw(data, rnum, mac, Transport::Bluetooth) == served(data, rnum, mac, false),
{
    let m = with_mac(data, mac);
    assert(m.len() == data.len());
    proxy::fixed_crc_passes(0xA3, m);
    let s = served(data, rnum, mac, false);
    assert forall|i: int| 0 <= i < 6 && i + 1 < data.len() - 4 implies #[trigger] s[i + 1] == mac[5
        - i] by {
        assert(s.subrange(0, s.len() - 4)[i + 1] == m.subrange(0, m.len() - 4)[i + 1]);
    }
}

/// What becomes of a feature request.
pub enum FeatureStep {
    Ignore,
    /// Send this reply.
    Reply(Vec<u8>),
    /// Ask the pad over the control channel for report `1` of request `0`, and
    /// tell `on_fetched`.
    Fetch(u32, u8),
    /// Ask the hidraw node for report `1`, of length `2`, of request `0`, and
    /// tell `on_feature`.
    Ioctl(u32, u8, u64),
}

impl RelayState {
    /// A cached feature report as the kernel gets it.
    pub fn serve(&self, feat: &[u8], rnum: u8) -> (r: Vec<u8>)
        ensures
            r@ == served(feat@, rnum, self.p.virtual_mac@, self.p.usb_view),
    {
        let mut data: Vec<u8> = bytes::copy_of(feat);
        if (rnum == 0x09 || rnum == 0x0b) && data.len() >= 7 {
            put_mac(&mut data, &self.p.virtual_mac);
            if !self.p.usb_view {
                proxy::fix_bt_feature_crc_kernel(data.as_mut_slice());
            }
        }
        let n: usize = data.len();
        if self.p.usb_view && n > 4 {
            let ghost own = data@;
            data.set(n - 4, 0);
            data.set(n - 3, 0);
            data.set(n - 2, 0);
            data.set(n - 1, 0);
            assert(data@ =~= own.subrange(0, own.len() - 4) + bytes::zeros(4));
        }
        data
    }

    /// Takes a feature request of the kernel. A direct session serves it from
    /// its cache, else asks the pad, if the control channel is there; a hidraw
    /// session asks the node for what the descriptor has.
    pub fn on_get(
        &self,
        features: &HashMap<u8, Vec<u8>>,
        lengths: &HashMap<u8, u64>,
        request: &[u8],
        has_ctrl: bool,
    ) -> (r: FeatureStep)
        ensures
            match ipc::req_of(request@) {
                None => r is Ignore,
                Some((id, rnum)) => if self.p.l2cap {
                    if features@.contains_key(rnum) {
                        r matches FeatureStep::Reply(w) && w@ == ipc::get_reply_payload(
                            id,
                            0,
                            served(
                                features@[rnum]@,
                                rnum,
                                self.p.virtual_mac@,
                                self.p.usb_view,
                            ),
                        )
                    } else if has_ctrl {
                        r == FeatureStep::Fetch(id, rnum)
                    } else {
                        r matches FeatureStep::Reply(w) && w@ == ipc::get_reply_payload(
                            id,
                            22,
                            Seq::empty(),
                        )
                    }
                } else if lengths@.contains_key(rnum) {
                    r == FeatureStep::Ioctl(id, rnum, lengths@[rnum])
                } else {
                    r matches FeatureStep::Reply(w) && w@ == ipc::get_reply_payload(
                        id,
                        22,
                        Seq::empty(),
                    )
                },
            },
    {
        broadcast use vstd::std_specs::hash::group_hash_axioms;

        match ipc::dec_req(request) {
            None => FeatureStep::Ignore,
            Some((id, rnum)) => {
                if self.p.l2cap {
                    match features.get(&rnum) {
                        Some(feat) => {
                            let data: Vec<u8> = self.serve(feat.as_slice(), rnum);
                            FeatureStep::Reply(ipc::enc_get_reply(id, 0, data.as_slice()))
                        },
                        None => {
                            if has_ctrl {
                                FeatureStep::Fetch(id, rnum)
                            } else {
                                FeatureStep::Reply(refusal(id))
                            }
                        },
                    }
                } else {
                    match lengths.get(&rnum) {
                        Some(len) => FeatureStep::Ioctl(id, rnum, *len),
                        None => FeatureStep::Reply(refusal(id)),
                    }
                }
            },
        }
    }

    /// The pad answered over the control channel, or did not. The answer is
    /// cached. Returns the reply.
    pub fn on_fetched(
        &self,
        features: &mut HashMap<u8, Vec<u8>>,
        id: u32,
        rnum: u8,
        answer: Option<Vec<u8>>,
    ) -> (r: Vec<u8>)
        ensures
            match answer {
                Some(data) => {
                    &&& r@ == ipc::get_reply_payload(
                        id,
                        0,
                        served(data@, rnum, self.p.virtual_mac@, self.p.usb_view),
                    )
                    &&& l2cap::features_view(final(features)@) == l2cap::features_view(
                        old(features)@,
                    ).insert(rnum, data@)
                },
                None => {
                    &&& r@ == ipc::get_reply_payload(id, 22, Seq::empty())
                    &&& final(features)@ == old(features)@
                },
            },
    {
        broadcast use vstd::std_specs::hash::group_hash_axioms;

        match answer {
            Some(data) => {
                let own: Vec<u8> = self.serve(data.as_slice(), rnum);
                let ghost before = features@;
                let ghost shown = data@;
                features.insert(rnum, data);
                assert(l2cap::features_view(features@) =~= l2cap::features_view(before).insert(
                    rnum,
                    shown,
                ));
                ipc::enc_get_reply(id, 0, own.as_slice())
            },
            None => refusal(id),
        }
    }

    /// The hidraw node answered, or failed with an error number. Returns the
    /// reply.
    pub fn on_feature(&self, id: u32, rnum: u8, answer: Result<Vec<u8>, u16>) -> (r: Vec<u8>)
        ensures
            r@ == (match answer {
                Ok(data) => ipc::get_reply_payload(
                    id,
                    0,
                    served_hidraw(data@, rnum, self.p.virtual_mac@, self.p.transport),
                ),
                Err(e) => ipc::get_reply_payload(id, e, Seq::empty()),
            }),
    {
        match answer {
            Ok(data) => {
                let mut own: Vec<u8> = data;
                if (rnum == 0x09 || rnum == 0x0b) && own.len() >= 7 {
                    put_mac(&mut own, &self.p.virtual_mac);
                    if self.p.transport == Transport::Bluetooth {
                        proxy::fix_bt_feature_crc_kernel(own.as_mut_slice());
                    }
                }
                ipc::enc_get_reply(id, 0, own.as_slice())
            },
            Err(e) => {
                let none: Vec<u8> = Vec::new();
                ipc::enc_get_reply(id, e, none.as_slice())
            },
        }
    }
}

fn refusal(id: u32) -> (r: Vec<u8>)
    ensures
        r@ == ipc::get_reply_payload(id, 22, Seq::empty()),
{
    let none: Vec<u8> = Vec::new();
    ipc::enc_get_reply(id, errno::einval(), none.as_slice())
}

/// What becomes of a feature write.
pub enum SetStep {
    Ignore,
    /// Send this ack.
    Ack(Vec<u8>),
    /// Write the byte 0x53 and then `1` to the control channel, and ack request
    /// `0` by how it went.
    Ctrl(u32, Vec<u8>),
    /// Write `1` to the pad, and ack request `0` by how it went.
    Write(u32, Vec<u8>),
}

impl RelayState {
    /// Takes a feature write of the kernel. Bluetooth states go to the audio
    /// writer where there is one; a direct session sends the rest over the
    /// control channel, with the CRC restamped (`swallow`: acks it and drops
    /// it); a hidraw session writes it to the pad.
    pub fn on_set(&self, relays: &mut SinkRelays, request: &[u8], swallow: bool) -> (r: SetStep)
        requires
            old(relays).ok(),
        ensures
            final(relays).ok(),
            final(relays).same_but_queue(*old(relays)),
            match ipc::set_req_of(request@) {
                None => r is Ignore && final(relays).out_q@ == old(relays).out_q@,
                Some((id, rnum, data)) => {
                    let queued = bt_state(data) && (self.p.l2cap || self.p.transport
                        == Transport::Bluetooth) && old(relays).out_live;
                    &&& sink::reports(final(relays).out_q@) == (if queued {
                        sink::pushed(
                            sink::reports(old(relays).out_q@),
                            data,
                            sink::OUT_Q_CAP as int,
                        )
                    } else {
                        sink::reports(old(relays).out_q@)
                    })
                    &&& if queued || (self.p.l2cap && swallow) {
                        r matches SetStep::Ack(w) && w@ == ipc::ack_payload(id, 0)
                    } else if self.p.l2cap {
                        r matches SetStep::Ctrl(i, w) && i == id && w@ == proxy::crc_fixed(
                            0x53,
                            data,
                        )
                    } else {
                        r matches SetStep::Write(i, w) && i == id && w@ == data
                    }
                },
            },
    {
        match ipc::dec_set_req(request) {
            None => SetStep::Ignore,
            Some((id, _, data)) => {
                let state: bool = data.len() == 78 && data[0] == 0x31;
                if state && (self.p.l2cap || self.p.transport == Transport::Bluetooth)
                    && sink::enqueue_output(relays, data.as_slice()) {
                    return SetStep::Ack(ipc::enc_ack(id, 0));
                }
                if self.p.l2cap {
                    if swallow {
                        return SetStep::Ack(ipc::enc_ack(id, 0));
                    }
                    let mut body: Vec<u8> = data;
                    proxy::fix_bt_feature_crc(body.as_mut_slice());
                    SetStep::Ctrl(id, body)
                } else {
                    SetStep::Write(id, data)
                }
            },
        }
    }
}

/// The ack of a feature write that was passed on.
pub fn set_ack(id: u32, done: bool) -> (r: Vec<u8>)
    ensures
        r@ == ipc::ack_payload(
            id,
            if done {
                0
            } else {
                5
            },
        ),
{
    ipc::enc_ack(
        id,
        if done {
            0
        } else {
            errno::eio()
        },
    )
}

// ---------------------------------------------------------------- the second pad

/// What becomes of a frame of the second pad's holder.
pub enum XiStep {
    Nothing,
    /// Write this to the real pad.
    Write(Vec<u8>),
    /// Send this frame back.
    Reply(u8, Vec<u8>),
    /// A rumble that nothing can play.
    Unplayed,
}

impl RelayState {
    /// Takes a frame of the second pad's holder: rumble goes to the audio
    /// writer, or to a cabled DualSense; feature requests are refused, feature
    /// writes acked.
    pub fn on_xi_frame(&self, relays: &mut SinkRelays, tag: u8, data: &[u8]) -> (r: XiStep)
        requires
            old(relays).ok(),
        ensures
            final(relays).ok(),
            final(relays).same_but_queue(*old(relays)),
            ({
                let motors = xinput::rumble_in(data@);
                let queued = tag == ipc::TAG_OUTPUT && motors is Some && old(relays).out_live;
                &&& sink::reports(final(relays).out_q@) == (if queued {
                    sink::pushed(
                        sink::reports(old(relays).out_q@),
                        sink::rumble_output(old(relays).l2cap, (motors->0).0, (motors->0).1),
                        sink::OUT_Q_CAP as int,
                    )
                } else {
                    sink::reports(old(relays).out_q@)
                })
                &&& if tag == ipc::TAG_OUTPUT {
                    if motors is None || queued {
                        r is Nothing
                    } else if self.p.transport == Transport::Usb && self.p.product
                        == PRODUCT_DUALSENSE {
                        r matches XiStep::Write(w) && w@ == xinput::rumble_packet(
                            (motors->0).0,
                            (motors->0).1,
                        )
                    } else {
                        r is Unplayed
                    }
                } else if tag == ipc::TAG_GET_REQ && ipc::req_of(data@) is Some {
                    r matches XiStep::Reply(t, w) && t == ipc::TAG_GET_REPLY && w@
                        == ipc::get_reply_payload((ipc::req_of(data@)->0).0, 22, Seq::empty())
                } else if tag == ipc::TAG_SET_REQ && ipc::set_req_of(data@) is Some {
                    r matches XiStep::Reply(t, w) && t == ipc::TAG_SET_ACK && w@
                        == ipc::ack_payload((ipc::set_req_of(data@)->0).0, 0)
                } else {
                    r is Nothing
                }
            }),
    {
        if tag == ipc::TAG_OUTPUT {
            match xinput::decode_rumble(data) {
                Some((strong, weak)) => {
                    if sink::rumble(relays, strong, weak) {
                        XiStep::Nothing
                    } else if self.p.transport == Transport::Usb && self.p.product
                        == PRODUCT_DUALSENSE {
                        let rpt: [u8; 48] = xinput::rumble_report(strong, weak);
                        XiStep::Write(bytes::copy_of(rpt.as_slice()))
                    } else {
                        XiStep::Unplayed
                    }
                },
                None => XiStep::Nothing,
            }
        } else if tag == ipc::TAG_GET_REQ {
            match ipc::dec_req(data) {
                Some((id, _)) => XiStep::Reply(ipc::TAG_GET_REPLY, refusal(id)),
                None => XiStep::Nothing,
            }
        } else if tag == ipc::TAG_SET_REQ {
            match ipc::dec_set_req(data) {
                Some((id, _, _)) => XiStep::Reply(ipc::TAG_SET_ACK, ipc::enc_ack(id, 0)),
                None => XiStep::Nothing,
            }
        } else {
            XiStep::Nothing
        }
    }
}

// ---------------------------------------------------------------- the links

/// What is known of the links after a wait. A link that is gone may still have
/// something to read.
#[derive(Clone, Copy, PartialEq, Eq, Debug, Structural)]
pub struct Ready {
    pub pad: bool,
    pub pad_gone: bool,
    pub holder: bool,
    pub holder_gone: bool,
    /// The control channel.
    pub ctrl: bool,
    pub ctrl_gone: bool,
    /// The second pad's holder has something, or is gone.
    pub second: bool,
}

/// One thing to do after a wait.
#[derive(Clone, Copy, PartialEq, Eq, Debug, Structural)]
pub enum Job {
    Pad,
    Holder,
    Second,
    Ctrl,
    /// The session ends with this code.
    End(i32),
}

/// A job where it is due.
pub open spec fn due(when: bool, job: Job) -> Seq<Job> {
    if when {
        seq![job]
    } else {
        Seq::empty()
    }
}

/// What to do after a wait, in turn: what the pad and the holder sent still
/// counts where they are gone, and nothing follows the end.
pub open spec fn jobs_of(r: Ready) -> Seq<Job> {
    due(r.pad, Job::Pad) + due(r.holder, Job::Holder) + if r.holder_gone {
        seq![Job::End(session::RELAY_HOLDER_LOST)]
    } else {
        due(r.second, Job::Second) + if r.ctrl_gone {
            seq![Job::End(session::RELAY_PAD_LOST)]
        } else {
            due(r.ctrl, Job::Ctrl) + due(r.pad_gone, Job::End(session::RELAY_PAD_LOST))
        }
    }
}

/// What to do after a wait, in turn.
pub fn jobs(r: &Ready) -> (v: Vec<Job>)
    ensures
        v@ == jobs_of(*r),
{
    let mut v: Vec<Job> = Vec::new();
    if r.pad {
        v.push(Job::Pad);
    }
    if r.holder {
        v.push(Job::Holder);
    }
    if r.holder_gone {
        v.push(Job::End(session::RELAY_HOLDER_LOST));
    } else {
        if r.second {
            v.push(Job::Second);
        }
        if r.ctrl_gone {
            v.push(Job::End(session::RELAY_PAD_LOST));
        } else {
            if r.ctrl {
                v.push(Job::Ctrl);
            }
            if r.pad_gone {
                v.push(Job::End(session::RELAY_PAD_LOST));
            }
        }
    }
    assert(v@ =~= jobs_of(*r));
    v
}

/// A session with a link that is gone ends in the same turn, and as one whose
/// holder is gone only where it is.
pub proof fn lost_links_end_the_session(r: Ready)
    ensures
        (r.pad_gone || r.holder_gone || r.ctrl_gone) <==> jobs_of(r).len() > 0
            && jobs_of(r).last() is End,
        jobs_of(r).len() > 0 && jobs_of(r).last() is End ==> (jobs_of(r).last() == Job::End(
            session::RELAY_HOLDER_LOST,
        ) <==> r.holder_gone),
{
    let all = jobs_of(r);
    let first = due(r.pad, Job::Pad) + due(r.holder, Job::Holder);
    let third = first + due(r.second, Job::Second);
    if r.holder_gone {
        assert(all =~= first.push(Job::End(session::RELAY_HOLDER_LOST)));
    } else if r.ctrl_gone {
        assert(all =~= third.push(Job::End(session::RELAY_PAD_LOST)));
    } else if r.pad_gone {
        assert(all =~= (third + due(r.ctrl, Job::Ctrl)).push(
            Job::End(session::RELAY_PAD_LOST),
        ));
    } else if r.ctrl {
        assert(all =~= third.push(Job::Ctrl));
    } else if r.second {
        assert(all =~= first.push(Job::Second));
    } else if r.holder {
        assert(all =~= due(r.pad, Job::Pad).push(Job::Holder));
    } else {
        assert(all =~= due(r.pad, Job::Pad));
    }
}

// ---------------------------------------------------------------- control channel

/// Takes a frame of the control channel: a feature reply, prompted or not, is
/// cached. Returns its report id.
pub fn on_ctrl_frame(features: &mut HashMap<u8, Vec<u8>>, frame: &[u8]) -> (r: Option<u8>)
    ensures
        ({
            let reply = frame@.len() >= 2 && frame@[0] == 0xA3;
            &&& r == (if reply {
                Some(frame@[1])
            } else {
                None
            })
            &&& l2cap::features_view(final(features)@) == (if reply {
                l2cap::features_view(old(features)@).insert(
                    frame@[1],
                    frame@.subrange(1, frame@.len() as int),
                )
            } else {
                l2cap::features_view(old(features)@)
            })
        }),
{
    broadcast use vstd::std_specs::hash::group_hash_axioms;

    if frame.len() >= 2 && frame[0] == 0xA3 {
        let id: u8 = frame[1];
        let rep: Vec<u8> = bytes::slice_vec(frame, 1, frame.len());
        let ghost before = features@;
        let ghost shown = rep@;
        features.insert(id, rep);
        assert(l2cap::features_view(features@) =~= l2cap::features_view(before).insert(id, shown));
        Some(id)
    } else {
        None
    }
}

/// A feature that was cached from the control channel is what a later request
/// is served from.
pub proof fn cached_feature_is_served(
    before: Map<u8, Seq<u8>>,
    frame: Seq<u8>,
    after: Map<u8, Seq<u8>>,
)
    requires
        frame.len() >= 2,
        frame[0] == 0xA3,
        after == before.insert(frame[1], frame.subrange(1, frame.len() as int)),
    ensures
        after.contains_key(frame[1]),
        after[frame[1]][0] == frame[1],
        after[frame[1]].len() == frame.len() - 1,
{
}

/// The jack is read from bit 0 of byte 55 of a Bluetooth report, and of byte
/// 54, the same byte in the cabled view, of a cabled one; any other frame says
/// nothing of it.
pub proof fn jack_is_read_where_the_pad_tells(
    j: JackDetect,
    report: Seq<u8>,
    now: u64,
    seq: u8,
    swap: bool,
)
    ensures
        report.len() >= 56 && report[0] == 0x31 ==> jack_after(j, report, now) == jack_step(
            j,
            report[55] & 0x01 != 0,
            now,
        ),
        report.len() >= 55 && report[0] == 0x01 ==> jack_after(j, report, now) == jack_step(
            j,
            report[54] & 0x01 != 0,
            now,
        ),
        report.len() < 55 || (report[0] != 0x31 && report[0] != 0x01) ==> jack_after(j, report, now)
            == j,
        report.len() >= 65 && report[0] == 0x31 ==> jack_after(j, usb_of(report, seq, swap), now)
            == jack_after(j, report, now),
{
    if report.len() >= 65 {
        view_bits(report[55]);
    }
}

/// The bits of a button byte under the swap, and of the power byte.
proof fn view_bits(b: u8)
    by (bit_vector)
    ensures
        (((b & 0x9F) | ((b & 0x20) << 1) | ((b & 0x40) >> 1)) & 0x20 != 0) == (b & 0x40 != 0),
        (((b & 0x9F) | ((b & 0x20) << 1) | ((b & 0x40) >> 1)) & 0x40 != 0) == (b & 0x20 != 0),
        ((b & 0x9F) | ((b & 0x20) << 1) | ((b & 0x40) >> 1)) & 0x9F == b & 0x9F,
        (b | 0x08) & 0x08 != 0,
        (b | 0x08) & 0xF7 == b & 0xF7,
        (b | 0x08) & 0x01 == b & 0x01,
{
}

/// The two touch points of the cabled view stand for themselves: each comes
/// through whole while it is touched, and reads 80 00 00 00 while it is not,
/// whatever the other one does.
pub proof fn touch_points_come_through_one_by_one(bt: Seq<u8>, seq: u8, swap: bool, at: int)
    requires
        bt.len() >= 65,
        at == 0x21 || at == 0x25,
    ensures
        ({
            let usb = usb_of(bt, seq, swap);
            &&& bt[at + 1] & 0x80 == 0 ==> {
                &&& usb[at] == bt[at + 1]
                &&& usb[at + 1] == bt[at + 2]
                &&& usb[at + 2] == bt[at + 3]
                &&& usb[at + 3] == bt[at + 4]
            }
            &&& bt[at + 1] & 0x80 != 0 ==> {
                &&& usb[at] == 0x80
                &&& usb[at + 1] == 0
                &&& usb[at + 2] == 0
                &&& usb[at + 3] == 0
            }
        }),
{
}

/// The cabled view, beside its touch points: its own id and sequence number;
/// cross and circle exchanged where that is asked for, and nothing else of
/// their byte; external power reported; one reserved byte cleared; every other
/// byte that of the Bluetooth report one further on.
pub proof fn cabled_view_keeps_every_byte(bt: Seq<u8>, seq: u8, swap: bool, i: int)
    requires
        bt.len() >= 65,
        0 <= i < 64,
    ensures
        ({
            let usb = usb_of(bt, seq, swap);
            &&& usb.len() == 64
            &&& usb[0] == 0x01
            &&& usb[7] == seq
            &&& !swap ==> usb[8] == bt[9]
            &&& swap ==> {
                &&& (usb[8] & 0x20 != 0 <==> bt[9] & 0x40 != 0)
                &&& (usb[8] & 0x40 != 0 <==> bt[9] & 0x20 != 0)
                &&& usb[8] & 0x9F == bt[9] & 0x9F
            }
            &&& usb[0x29] == 0
            &&& usb[0x36] & 0x08 != 0 && usb[0x36] & 0xF7 == bt[0x37] & 0xF7
            &&& i != 0 && i != 7 && i != 8 && !(0x21 <= i <= 0x29) && i != 0x36 ==> usb[i] == bt[i
                + 1]
        }),
{
    view_bits(bt[9]);
    view_bits(bt[0x37]);
}

/// Sticks, triggers and buttons stand where the layouts say, in the cabled
/// view and in the Bluetooth report alike, and a DualShock 4 of a direct
/// session has a layout of its own.
pub proof fn layouts_find_the_same_controls(bt: Seq<u8>, seq: u8, product: u32, k: int)
    requires
        bt.len() >= 65,
        product != 0x05c4,
    ensures
        ({
            let u = session_layout(true, product, true, Transport::Bluetooth);
            let b = session_layout(true, product, false, Transport::Bluetooth);
            let usb = usb_of(bt, seq, false);
            &&& u.report_id == 0x01 && b.report_id == 0x31
            &&& 0 <= k < 4 ==> usb[u.stick0 + k] == bt[b.stick0 + k]
            &&& 0 <= k < 2 ==> usb[u.trig0 + k] == bt[b.trig0 + k]
            &&& 0 <= k < 3 ==> usb[u.btn0 + k] == bt[b.btn0 + k]
            &&& u.stick0 == 1 && u.trig0 == 5 && u.btn0 == 8
            &&& session_layout(false, product, true, Transport::Bluetooth) == u
            &&& session_layout(false, product, false, Transport::Bluetooth) == b
            &&& session_layout(false, product, false, Transport::Usb) == u
        }),
        forall|v: bool, t: Transport|
            #![trigger session_layout(true, 0x05c4, v, t)]
            session_layout(true, 0x05c4, v, t) == (InputLayout {
                stick0: 3,
                btn0: 7,
                trig0: 10,
                report_id: 0x11,
            }),
{
}

/// A direct session strips the HIDP byte 0xA1 and nothing else; a hidraw one
/// strips nothing.
pub proof fn only_the_hidp_byte_is_stripped(report: Seq<u8>)
    ensures
        payload(seq![0xA1u8] + report, true) == report,
        payload(seq![0xA1u8] + report, false) == seq![0xA1u8] + report,
        payload(report, false) == report,
        report.len() > 0 && report[0] != 0xA1 ==> payload(report, true) == report,
{
    assert((seq![0xA1u8] + report).subrange(1, 1 + report.len() as int) =~= report);
}

/// What the virtual pad gets to see. Over a direct link that is a DualSense's
/// control report and a DualShock 4's, and never a frame that carries sound or
/// is cut short; over a hidraw link everything. In the cabled view a long
/// enough Bluetooth report is turned into a cabled one with the next sequence
/// number; everything else is shown as it is.
pub proof fn control_reports_are_shown(p: RelayParams, usb_seq: u8, report: Seq<u8>)
    requires
        report.len() > 0,
        report[0] != 0xA1,
    ensures
        ({
            let wire = if p.l2cap {
                seq![0xA1u8] + report
            } else {
                report
            };
            let seen = shown(p, usb_seq, wire);
            let next = if usb_seq == 255 {
                0u8
            } else {
                (usb_seq + 1) as u8
            };
            let pad = report.len() >= 65 && report[0] == 0x31;
            let control = pad && report[1] & 0x0F == 0x01;
            let ds4 = report.len() == 78 && report[0] == 0x11;
            &&& p.l2cap && !control && !ds4 ==> seen is None
            &&& (!p.l2cap || control || ds4) && pad && p.usb_view ==> seen == Some(
                usb_of(report, next, p.swap_ox),
            )
            &&& (!p.l2cap || control || ds4) && !(pad && p.usb_view) ==> seen == Some(report)
            &&& p.l2cap ==> shown(p, usb_seq, report) == seen
        }),
{
    only_the_hidp_byte_is_stripped(report);
}

/// Hiding PS clears its bit and changes nothing else of a report.
pub proof fn hiding_ps_changes_nothing_else(st: RelayState, report: Seq<u8>)
    ensures
        st.unseen(report).len() == report.len(),
        !st.ps_swallow ==> st.unseen(report) == report,
        forall|i: int|
            0 <= i < report.len() && i != st.p.layout.btn0 + 2 ==> #[trigger] st.unseen(report)[i]
                == report[i],
        st.ps_swallow && report.len() > st.p.layout.btn0 + 2 ==> {
            let at = st.p.layout.btn0 + 2;
            &&& st.unseen(report)[at] & 0x01 == 0
            &&& st.unseen(report)[at] & 0xFE == report[at] & 0xFE
        },
{
    if report.len() > st.p.layout.btn0 + 2 {
        hidden_bit(report[st.p.layout.btn0 + 2]);
    }
}

/// A byte without its lowest bit.
proof fn hidden_bit(b: u8)
    by (bit_vector)
    ensures
        (b & 0xFE) & 0x01 == 0,
        (b & 0xFE) & 0xFE == b & 0xFE,
{
}

/// What decides the way of a report: the overlay keeps it back, and parks the
/// second pad with the first report that it keeps; released, it lets the first
/// report through that has every button up. Blocking ends the same way. A
/// hidraw link is never paced.
pub proof fn holding_back_ends_with_the_buttons_up(st: RelayState, report: Seq<u8>, m: Moment)
    ensures
        m.paused ==> st.step_of(report, m) == ForwardShape::Drop(!st.pause_break),
        !m.paused && !st.pause_break ==> st.step_of(report, m) !is Drop,
        !m.paused && !proxy::live(st.unseen(report), st.p.layout) ==> {
            &&& st.step_of(report, m) !is Drop
            &&& !st.after(report, m).pause_break
            &&& st.after(report, m).gate_break == m.gate
        },
        !m.paused && st.pause_break && proxy::live(st.unseen(report), st.p.layout) ==> {
            &&& st.step_of(report, m) == ForwardShape::Drop(false)
            &&& st.after(report, m).pause_break
        },
        !m.paused && !m.gate && !st.gate_break ==> !st.after(report, m).gate_break,
        !st.p.l2cap ==> st.step_of(report, m) !is Hold,
        st.after(report, m).chords == st.chords,
        st.after(report, m).ps_swallow == st.ps_swallow,
        st.after(report, m).jack == st.jack,
        st.after(report, m).usb_seq == st.usb_seq,
{
}

/// Where nothing is blocked, the report that leaves is the one that came in,
/// without PS where that is hidden, with the deadzone where that is on, and
/// with the sticks shaped where a curve is given; a blocked one keeps neither
/// deadzone nor curve.
pub proof fn shaping_applies_where_it_is_on(st: RelayState, report: Seq<u8>, m: Moment)
    requires
        !m.paused,
        !st.pause_break,
    ensures
        ({
            let l = st.p.layout;
            let seen = st.unseen(report);
            let out = outgoing(st.step_of(report, m));
            &&& m.gate ==> out == Some(proxy::gated(seen, l))
            &&& !m.gate && !st.gate_break && !st.p.deadzone && m.curve is None ==> out == Some(seen)
            &&& !m.gate && !st.gate_break && st.p.deadzone && m.curve is None ==> out == Some(
                proxy::deadzoned(seen, l),
            )
            &&& !m.gate && !st.gate_break && !st.p.deadzone && m.curve is Some ==> out == Some(
                proxy::shaped(seen, l, (m.curve->0).map@),
            )
            &&& !m.gate && !st.gate_break && st.p.deadzone && m.curve is Some ==> out == Some(
                proxy::shaped(proxy::deadzoned(seen, l), l, (m.curve->0).map@),
            )
        }),
{
}

/// The pad is told of the path when the jack changes, and every two seconds
/// again; over a direct link neither, since the writer does it there.
pub proof fn path_is_told_on_change_and_in_turn(st: RelayState, raw: Seq<u8>, now: u64)
    requires
        st.ok(),
        raw.len() >= 65,
        raw[0] == 0x31 || raw[0] == 0x01,
        now >= st.reassert_at,
    ensures
        st.p.l2cap ==> st.pad_writes(raw, now).len() == 0,
        !st.p.l2cap ==> ({
            let high = raw[if raw[0] == 0x31 {
                55int
            } else {
                54
            }] & 0x01 != 0;
            let jack = jack_step(st.jack, high, now).latched;
            let changed = jack != st.jack.latched;
            let beat = now - st.reassert_at >= 2_000_000_000;
            let w = st.pad_writes(raw, now);
            &&& w.len() == (if changed {
                1int
            } else {
                0
            }) + (if beat {
                1int
            } else {
                0
            })
            &&& changed ==> w[0] == sink::engage_shape(jack)
            &&& beat ==> w.last() == sink::reassert_shape(jack)
        }),
{
}

/// A cabled output keeps everything but the two path bits of byte 7, which
/// are set for the speaker and clear for the jack; other outputs keep
/// everything.
pub proof fn path_bits_follow_the_jack(data: Seq<u8>, transport: Transport, plugged: bool)
    ensures
        ({
            let out = path_kept(data, transport, plugged);
            let cabled = transport == Transport::Usb && data.len() > 0 && data[0] == 0x02 && (
            data.len() == 48 || data.len() == 63);
            &&& out.len() == data.len()
            &&& !cabled ==> out == data
            &&& forall|i: int| 0 <= i < data.len() && i != 7 ==> out[i] == data[i]
            &&& cabled ==> out[7] & 0x30 == (if plugged {
                0u8
            } else {
                0x30
            }) && out[7] & 0xCF == data[7] & 0xCF
        }),
{
    if data.len() > 7 {
        sink::setting_bits(0, 0, data[7]);
    }
}

/// No state that a game sends over Bluetooth is lost: a 78-byte 0x31 output
/// goes to the writer whole, in a direct session and in a hidraw one; in a
/// direct session the first 48 bytes of a cabled output do, and the writer
/// finds the same state in what it gets. Nothing else goes to the writer, and
/// only a DualShock 4's own output goes past it.
pub proof fn states_reach_the_writer(p: RelayParams, data: Seq<u8>)
    requires
        p.l2cap ==> p.transport == Transport::Bluetooth,
    ensures
        p.transport == Transport::Bluetooth && data.len() == 78 && data[0] == 0x31 ==> for_writer(
            p,
            data,
        ) == Some(data) && !ds4_output(p, data),
        p.l2cap && data.len() >= 48 && data[0] == 0x02 ==> for_writer(p, data) == Some(
            data.subrange(0, 48),
        ) && !ds4_output(p, data),
        p.l2cap && data.len() == 48 && data[0] == 0x05 ==> for_writer(p, data) == Some(data)
            && !ds4_output(p, data),
        p.l2cap && flush::kernel_state(data) is Some ==> for_writer(p, data) is Some
            && flush::kernel_state(for_writer(p, data)->0) == flush::kernel_state(data)
            && !ds4_output(p, data),
        for_writer(p, data) is Some ==> p.transport == Transport::Bluetooth
            && flush::kernel_state(for_writer(p, data)->0) is Some,
        ds4_output(p, data) <==> p.l2cap && p.product == 0x05c4 && data.len() == 78 && data[0]
            == 0x11,
{
    if data.len() == 48 {
        assert(data.subrange(0, 48) =~= data);
    }
}

/// A feature write that carries a Bluetooth state is one, and nothing else is.
pub proof fn feature_states_are_told_apart(data: Seq<u8>)
    ensures
        bt_state(data) <==> data.len() == 78 && data[0] == 0x31,
        bt_state(data) ==> flush::kernel_state(data) is Some,
{
}

/// What a feature request is answered, byte by byte: the address reports 0x09
/// and 0x0b carry the virtual address, last octet first, behind their id; the
/// cabled view ends in four zeros, the CRC's place; everything else is what
/// the pad has. A report of another kind is untouched in the native view.
pub proof fn served_reports_keep_the_rest(
    data: Seq<u8>,
    rnum: u8,
    mac: Seq<u8>,
    usb_view: bool,
    i: int,
)
    requires
        mac.len() == 6,
        0 <= i < data.len(),
    ensures
        ({
            let out = served(data, rnum, mac, usb_view);
            let own = (rnum == 0x09 || rnum == 0x0b) && data.len() >= 7;
            &&& out.len() == data.len()
            &&& !usb_view && !own ==> out == data
            &&& i < data.len() - 4 ==> out[i] == (if own && 1 <= i < 7 {
                mac[6 - i]
            } else {
                data[i]
            })
            &&& usb_view && data.len() > 4 && i >= data.len() - 4 ==> out[i] == 0
            &&& usb_view && data.len() <= 4 ==> out == data
        }),
        ({
            let out = served_hidraw(data, rnum, mac, Transport::Usb);
            let own = (rnum == 0x09 || rnum == 0x0b) && data.len() >= 7;
            &&& out.len() == data.len()
            &&& out[i] == (if own && 1 <= i < 7 {
                mac[6 - i]
            } else {
                data[i]
            })
        }),
        rnum != 0x09 && rnum != 0x0b ==> served_hidraw(data, rnum, mac, Transport::Bluetooth)
            == data,
{
}

/// What is ready is served, each once and in this order: the pad, the holder,
/// the second pad's holder, the control channel; a lost holder ends the
/// session before the last two, a lost control channel before the last.
pub proof fn ready_links_are_served_in_turn(r: Ready)
    ensures
        ({
            let v = jobs_of(r);
            let a = if r.pad {
                1int
            } else {
                0
            };
            let b = a + (if r.holder {
                1int
            } else {
                0
            });
            let c = b + (if r.second && !r.holder_gone {
                1int
            } else {
                0
            });
            let d = c + (if r.ctrl && !r.holder_gone && !r.ctrl_gone {
                1int
            } else {
                0
            });
            let end = r.holder_gone || r.ctrl_gone || r.pad_gone;
            &&& v.len() == d + (if end {
                1int
            } else {
                0
            })
            &&& r.pad ==> v[0] == Job::Pad
            &&& r.holder ==> v[a] == Job::Holder
            &&& r.second && !r.holder_gone ==> v[b] == Job::Second
            &&& r.ctrl && !r.holder_gone && !r.ctrl_gone ==> v[c] == Job::Ctrl
            &&& end ==> v[d] == Job::End(if r.holder_gone {
                3
            } else {
                1
            })
        }),
{
    let all = jobs_of(r);
    let two = due(r.pad, Job::Pad) + due(r.holder, Job::Holder);
    let three = two + due(r.second, Job::Second);
    let four = three + due(r.ctrl, Job::Ctrl);
    if r.holder_gone {
        assert(all =~= two.push(Job::End(session::RELAY_HOLDER_LOST)));
    } else if r.ctrl_gone {
        assert(all =~= three.push(Job::End(session::RELAY_PAD_LOST)));
    } else {
        assert(all =~= four + due(r.pad_gone, Job::End(session::RELAY_PAD_LOST)));
    }
}

/// The pace of a direct session is what the environment says, where that is a
/// number, and 12 ms else.
pub proof fn pace_is_a_number_or_twelve(n: nat, s: Seq<char>)
    ensures
        pace_of(None) == 12_000,
        n <= u64::MAX ==> pace_of(Some(text::decimal(n))) == n,
        text::bounded_number(s, 10, u64::MAX as int) is None ==> pace_of(Some(s)) == 12_000,
{
    text::printed_numbers_read_back(n, u64::MAX as int);
}

} // verus!
