//! Kernel outputs on their way to the pad: tracked while audio streams, relayed
//! while it does not, all under one sequence number.

use vstd::prelude::*;

use crate::audio;
use crate::bytes;
use crate::crc;
use crate::sink;

verus! {

/// What the writer tracks of the pad.
pub struct OutState {
    /// The sequence number of all reports on the interrupt channel.
    pub seq: u8,
    /// The state of a hidraw session.
    pub state: [u8; 47],
    /// The state of a direct session.
    pub state63: [u8; 63],
    /// The state that the pad was last told in a direct session.
    pub last47: [u8; 47],
}

/// An `OutState` by its values.
pub ghost struct OutShape {
    pub seq: u8,
    pub state: Seq<u8>,
    pub state63: Seq<u8>,
    pub last47: Seq<u8>,
}

impl View for OutState {
    type V = OutShape;

    open spec fn view(&self) -> OutShape {
        OutShape {
            seq: self.seq,
            state: self.state@,
            state63: self.state63@,
            last47: self.last47@,
        }
    }
}

/// How kernel outputs are to be treated.
#[derive(Clone, Copy)]
pub struct FlushParams {
    pub hp_volume: u8,
    pub output: bool,
    pub jack_path: bool,
    /// Audio is streaming.
    pub streaming: bool,
    /// State rides in the audio reports.
    pub combined: bool,
    /// A direct session.
    pub l2cap: bool,
}

/// The next sequence number.
pub open spec fn next_seq(seq: u8) -> u8 {
    ((seq + 1) % 16) as u8
}

/// The state in a kernel output: a Bluetooth 0x31, or a cabled 0x02 or 0x05.
pub open spec fn kernel_state(rpt: Seq<u8>) -> Option<Seq<u8>> {
    if rpt.len() == 78 && rpt[0] == 0x31 {
        Some(rpt.subrange(3, 50))
    } else if rpt.len() == 48 && (rpt[0] == 0x02 || rpt[0] == 0x05) {
        Some(rpt.subrange(1, 48))
    } else {
        None
    }
}

/// The tracked state with a kernel state laid over it, and the audio settings
/// over that.
pub open spec fn overlaid63(state63: Seq<u8>, st: Seq<u8>, p: FlushParams) -> Seq<u8> {
    sink::merged63(st + state63.subrange(47, 63), p.hp_volume, p.output, p.jack_path)
}

/// A report on the wire of a direct session.
pub open spec fn prefixed(report: Seq<u8>) -> Seq<u8> {
    seq![0xA2u8] + report
}

/// The tracked state after a kernel output.
pub open spec fn absorbed(s: OutShape, rpt: Seq<u8>, p: FlushParams) -> OutShape {
    match kernel_state(rpt) {
        Some(st) => if p.l2cap {
            let n = overlaid63(s.state63, st, p);
            if p.streaming || n.subrange(0, 47) == s.last47 {
                OutShape { state63: n, ..s }
            } else {
                OutShape { state63: n, seq: next_seq(s.seq), last47: n.subrange(0, 47), ..s }
            }
        } else if p.streaming {
            OutShape { state: sink::merged47(st, p.hp_volume, p.output, false), ..s }
        } else {
            OutShape { seq: next_seq(s.seq), ..s }
        },
        None => if p.l2cap {
            s
        } else {
            OutShape { seq: next_seq(s.seq), ..s }
        },
    }
}

/// What is written to the pad for a kernel output. While audio streams a state
/// rides in it and nothing is written. While it does not, a direct session
/// relays a state that the pad does not have yet, and a hidraw session relays
/// everything under the shared sequence number. Reports of other shapes are
/// always relayed.
pub open spec fn relayed(s: OutShape, rpt: Seq<u8>, p: FlushParams) -> Option<Seq<u8>> {
    match kernel_state(rpt) {
        Some(st) => if p.streaming {
            None
        } else if p.l2cap {
            let n = overlaid63(s.state63, st, p);
            if n.subrange(0, 47) == s.last47 {
                None
            } else {
                Some(prefixed(audio::state_shape(s.seq, n.subrange(0, 47))))
            }
        } else {
            Some(sink::restamped_output(rpt, s.seq))
        },
        None => if p.l2cap {
            Some(prefixed(rpt))
        } else {
            Some(sink::restamped_output(rpt, s.seq))
        },
    }
}

/// Whether a kernel output is held back as the rumble to relay at the end of
/// the flush: a hidraw session with audio-only reports, and a motor moves.
pub open spec fn held_back(rpt: Seq<u8>, p: FlushParams) -> bool {
    kernel_state(rpt) is Some && p.streaming && !p.l2cap && !p.combined && (kernel_state(
        rpt,
    )->0)[0] & 0x03 != 0
}

fn take47(s: &[u8], at: usize) -> (r: [u8; 47])
    requires
        at <= 3,
        at + 47 <= s@.len(),
    ensures
        r@ == s@.subrange(at as int, at + 47),
{
    let mut r: [u8; 47] = [0; 47];
    let mut i: usize = 0;
    while i < 47
        invariant
            i <= 47,
            at <= 3,
            at + 47 <= s@.len(),
            forall|j: int| 0 <= j < i ==> r@[j] == s@[at + j],
        decreases 47 - i,
    {
        r[i] = s[at + i];
        i = i + 1;
    }
    assert(r@ =~= s@.subrange(at as int, at + 47));
    r
}

fn state_in(rpt: &[u8]) -> (r: Option<[u8; 47]>)
    ensures
        match r {
            Some(st) => kernel_state(rpt@) == Some(st@),
            None => kernel_state(rpt@) is None,
        },
{
    if rpt.len() == 78 && rpt[0] == 0x31 {
        Some(take47(rpt, 3))
    } else if rpt.len() == 48 && (rpt[0] == 0x02 || rpt[0] == 0x05) {
        Some(take47(rpt, 1))
    } else {
        None
    }
}

fn same47(a: &[u8; 47], b: &[u8; 47]) -> (r: bool)
    ensures
        r == (a@ == b@),
{
    bytes::same_bytes(a.as_slice(), b.as_slice())
}

/// A report behind the HIDP byte.
pub fn with_prefix(report: &[u8]) -> (r: Vec<u8>)
    ensures
        r@ == prefixed(report@),
{
    let mut w: Vec<u8> = Vec::new();
    w.push(0xA2);
    bytes::append(&mut w, report);
    assert(w@ =~= prefixed(report@));
    w
}

impl OutState {
    pub open spec fn ok(self) -> bool {
        self.seq < 16
    }

    /// Counts the sequence number up. Returns the one to use.
    pub fn take_seq(&mut self) -> (r: u8)
        requires
            old(self).ok(),
        ensures
            final(self).ok(),
            r == old(self).seq,
            final(self)@ == (OutShape { seq: next_seq(old(self).seq), ..old(self)@ }),
    {
        let s: u8 = self.seq;
        self.seq = (s + 1) % 16;
        s
    }

    fn overlay(&mut self, st: &[u8; 47], p: &FlushParams)
        ensures
            final(self)@ == (OutShape {
                state63: overlaid63(old(self)@.state63, st@, *p),
                ..old(self)@
            }),
    {
        let ghost start = self.state63@;
        let mut i: usize = 0;
        while i < 47
            invariant
                i <= 47,
                start.len() == 63,
                self.seq == old(self).seq,
                self.state == old(self).state,
                self.last47 == old(self).last47,
                forall|j: int|
                    0 <= j < 63 ==> #[trigger] self.state63@[j] == (if j < i {
                        st@[j]
                    } else {
                        start[j]
                    }),
            decreases 47 - i,
        {
            self.state63[i] = st[i];
            i = i + 1;
        }
        assert(self.state63@ =~= st@ + start.subrange(47, 63));
        sink::sink_merge63(&mut self.state63, p.hp_volume, p.output, p.jack_path);
    }

    /// The first 47 bytes of the tracked state of a direct session.
    pub fn head47(&self) -> (r: [u8; 47])
        ensures
            r@ == self.state63@.subrange(0, 47),
    {
        take47(self.state63.as_slice(), 0)
    }

    /// Takes one kernel output. Returns what is to be written to the pad, and
    /// holds a rumble back in `pending`: the latest one wins.
    pub fn absorb(&mut self, rpt: Vec<u8>, p: &FlushParams, pending: &mut Option<Vec<u8>>) -> (r:
        Option<Vec<u8>>)
        requires
            old(self).ok(),
        ensures
            final(self).ok(),
            final(self)@ == absorbed(old(self)@, rpt@, *p),
            match r {
                Some(w) => relayed(old(self)@, rpt@, *p) == Some(w@),
                None => relayed(old(self)@, rpt@, *p) is None,
            },
            held_back(rpt@, *p) ==> *final(pending) == Some(rpt),
            !held_back(rpt@, *p) ==> *final(pending) == *old(pending),
    {
        match state_in(rpt.as_slice()) {
            Some(st) => {
                if p.streaming {
                    if p.l2cap {
                        self.overlay(&st, p);
                    } else {
                        self.state = st;
                        sink::merge_audio_state(&mut self.state, p.hp_volume, p.output, false);
                        if !p.combined && st[0] & 0x03 != 0 {
                            *pending = Some(rpt);
                        }
                    }
                    None
                } else if p.l2cap {
                    self.overlay(&st, p);
                    let head: [u8; 47] = self.head47();
                    if same47(&head, &self.last47) {
                        None
                    } else {
                        let seq: u8 = self.take_seq();
                        let report: Vec<u8> = audio::state_report(seq, &head);
                        self.last47 = head;
                        Some(with_prefix(report.as_slice()))
                    }
                } else {
                    let mut w: Vec<u8> = rpt;
                    let seq: u8 = self.take_seq();
                    sink::restamp_kernel_output(w.as_mut_slice(), seq);
                    Some(w)
                }
            },
            None => {
                if p.l2cap {
                    Some(with_prefix(rpt.as_slice()))
                } else {
                    let mut w: Vec<u8> = rpt;
                    let seq: u8 = self.take_seq();
                    sink::restamp_kernel_output(w.as_mut_slice(), seq);
                    Some(w)
                }
            },
        }
    }

    /// Ends a flush: the rumble that was held back goes out, once.
    pub fn finish(&mut self, pending: Option<Vec<u8>>) -> (r: Option<Vec<u8>>)
        requires
            old(self).ok(),
        ensures
            final(self).ok(),
            match pending {
                Some(rpt) => {
                    &&& r is Some
                    &&& (r->0)@ == sink::restamped_output(rpt@, old(self).seq)
                    &&& final(self)@ == (OutShape {
                        seq: next_seq(old(self).seq),
                        ..old(self)@
                    })
                },
                None => r is None && final(self)@ == old(self)@,
            },
    {
        match pending {
            Some(rpt) => {
                let mut w: Vec<u8> = rpt;
                let seq: u8 = self.take_seq();
                sink::restamp_kernel_output(w.as_mut_slice(), seq);
                Some(w)
            },
            None => None,
        }
    }
}

// ---------------------------------------------------------------- laws

/// In a direct session without audio a state goes out once: the same kernel
/// output again writes nothing and changes nothing.
pub proof fn unchanged_state_is_not_relayed_again(s: OutShape, rpt: Seq<u8>, p: FlushParams)
    requires
        s.state63.len() == 63,
        s.last47.len() == 47,
        p.l2cap,
        !p.streaming,
        kernel_state(rpt) is Some,
    ensures
        relayed(absorbed(s, rpt, p), rpt, p) is None,
        absorbed(absorbed(s, rpt, p), rpt, p) == absorbed(s, rpt, p),
{
    let st = kernel_state(rpt)->0;
    let once = absorbed(s, rpt, p);
    let n = overlaid63(s.state63, st, p);
    assert(n.len() == 63);
    let base = st + s.state63.subrange(47, 63);
    assert(base.len() == 63);
    assert(n.subrange(47, 63) =~= s.state63.subrange(47, 63));
    assert(overlaid63(once.state63, st, p) == n);
    assert(once.last47 == n.subrange(0, 47));
}

/// Whatever is relayed of a Bluetooth kernel output passes the pad's check and
/// carries the shared sequence number.
pub proof fn relayed_reports_pass(rpt: Seq<u8>, seq: u8)
    requires
        rpt.len() == 78,
        rpt[0] == 0x31,
    ensures
        crc::crc_ok(0xA2, sink::restamped_output(rpt, seq)),
        sink::restamped_output(rpt, seq)[1] == seq << 4,
        sink::restamped_output(rpt, seq).subrange(2, 74) == rpt.subrange(2, 74),
{
    let marked = rpt.update(1, seq << 4);
    crc::sealed_passes(0xA2, marked.subrange(0, 74));
    assert(sink::restamped_output(rpt, seq).subrange(2, 74) =~= rpt.subrange(2, 74));
}

/// Reports that a flush absorbs in turn.
pub open spec fn absorbed_all(s: OutShape, q: Seq<Seq<u8>>, p: FlushParams) -> OutShape
    decreases q.len(),
{
    if q.len() == 0 {
        s
    } else {
        absorbed(absorbed_all(s, q.drop_last(), p), q.last(), p)
    }
}

/// The rumble that a flush holds back: the last one of the queue.
pub open spec fn last_rumble(q: Seq<Seq<u8>>, p: FlushParams) -> Option<Seq<u8>>
    decreases q.len(),
{
    if q.len() == 0 {
        None
    } else if held_back(q.last(), p) {
        Some(q.last())
    } else {
        last_rumble(q.drop_last(), p)
    }
}

/// What a flush writes before its end.
pub open spec fn relayed_all(s: OutShape, q: Seq<Seq<u8>>, p: FlushParams) -> Seq<Seq<u8>>
    decreases q.len(),
{
    if q.len() == 0 {
        Seq::empty()
    } else {
        let before = relayed_all(s, q.drop_last(), p);
        match relayed(absorbed_all(s, q.drop_last(), p), q.last(), p) {
            Some(w) => before.push(w),
            None => before,
        }
    }
}

/// Everything that a flush writes.
pub open spec fn flushed(s: OutShape, q: Seq<Seq<u8>>, p: FlushParams) -> Seq<Seq<u8>> {
    match last_rumble(q, p) {
        Some(rpt) => relayed_all(s, q, p).push(
            sink::restamped_output(rpt, absorbed_all(s, q, p).seq),
        ),
        None => relayed_all(s, q, p),
    }
}

/// Flushes a queue of kernel outputs. Returns what is to be written to the
/// pad, in turn.
pub fn flush_kernel_outputs(out: &mut OutState, queue: Vec<Vec<u8>>, p: &FlushParams) -> (r: Vec<
    Vec<u8>,
>)
    requires
        old(out).ok(),
    ensures
        final(out).ok(),
        sink::reports(r@) == flushed(old(out)@, sink::reports(queue@), *p),
        final(out)@ == ({
            let s = absorbed_all(old(out)@, sink::reports(queue@), *p);
            if last_rumble(sink::reports(queue@), *p) is Some {
                OutShape { seq: next_seq(s.seq), ..s }
            } else {
                s
            }
        }),
{
    let ghost start = out@;
    let ghost all = sink::reports(queue@);
    let mut wires: Vec<Vec<u8>> = Vec::new();
    let mut pending: Option<Vec<u8>> = None;
    let mut i: usize = 0;
    let n: usize = queue.len();
    assert(all.subrange(0, 0) =~= Seq::empty());
    assert(sink::reports(wires@) =~= Seq::empty());
    while i < n
        invariant
            i <= n,
            n == queue@.len(),
            all == sink::reports(queue@),
            out.ok(),
            out@ == absorbed_all(start, all.subrange(0, i as int), *p),
            sink::reports(wires@) == relayed_all(start, all.subrange(0, i as int), *p),
            opt_view(pending) == last_rumble(all.subrange(0, i as int), *p),
        decreases n - i,
    {
        assert(all.subrange(0, i + 1).drop_last() =~= all.subrange(0, i as int));
        assert(all[i as int] == queue@[i as int]@);
        let rpt: Vec<u8> = bytes::copy_of(queue[i].as_slice());
        let ghost before = sink::reports(wires@);
        match out.absorb(rpt, p, &mut pending) {
            Some(w) => {
                let ghost shown = w@;
                wires.push(w);
                assert(sink::reports(wires@) =~= before.push(shown));
            },
            None => {},
        }
        i = i + 1;
    }
    assert(all.subrange(0, all.len() as int) =~= all);
    let ghost before = sink::reports(wires@);
    match out.finish(pending) {
        Some(w) => {
            let ghost shown = w@;
            wires.push(w);
            assert(sink::reports(wires@) =~= before.push(shown));
        },
        None => {},
    }
    wires
}

/// An optional report by its bytes.
pub open spec fn opt_view(o: Option<Vec<u8>>) -> Option<Seq<u8>> {
    match o {
        Some(v) => Some(v@),
        None => None,
    }
}

/// While audio-only reports stream, a flush of kernel states relays one rumble
/// at most: the latest.
pub proof fn rumble_is_coalesced(s: OutShape, q: Seq<Seq<u8>>, p: FlushParams)
    requires
        p.streaming,
        !p.l2cap,
        forall|i: int| 0 <= i < q.len() ==> kernel_state(#[trigger] q[i]) is Some,
    ensures
        relayed_all(s, q, p).len() == 0,
        flushed(s, q, p).len() <= 1,
    decreases q.len(),
{
    if q.len() > 0 {
        let front = q.drop_last();
        assert forall|i: int| 0 <= i < front.len() implies kernel_state(
            #[trigger] front[i],
        ) is Some by {
            assert(front[i] == q[i]);
        }
        rumble_is_coalesced(s, front, p);
        assert(q[q.len() - 1] == q.last());
    }
}

/// Where a game's state stands in what the kernel writes: from byte 3 of a
/// 78-byte 0x31, from byte 1 of a 48-byte 0x02 or 0x05, and nowhere else.
pub proof fn state_is_found_at_its_place(rpt: Seq<u8>, i: int)
    requires
        0 <= i < 47,
    ensures
        rpt.len() == 78 && rpt[0] == 0x31 ==> kernel_state(rpt) is Some && (kernel_state(
            rpt,
        )->0).len() == 47 && (kernel_state(rpt)->0)[i] == rpt[3 + i],
        rpt.len() == 48 && (rpt[0] == 0x02 || rpt[0] == 0x05) ==> kernel_state(rpt) is Some && (
        kernel_state(rpt)->0).len() == 47 && (kernel_state(rpt)->0)[i] == rpt[1 + i],
        kernel_state(rpt) is Some <==> rpt.len() == 78 && rpt[0] == 0x31 || rpt.len() == 48 && (
        rpt[0] == 0x02 || rpt[0] == 0x05),
{
}

/// Whether a byte of the state carries an audio setting; the others are the
/// game's.
pub open spec fn audio_byte(i: int) -> bool {
    i == 0 || i == 1 || i == 4 || i == 5 || i == 7 || i == 37
}

/// A direct session tracks the game's state: every byte of it but the audio
/// settings, behind it what was tracked before, and the path that is in use.
pub proof fn tracked_state_is_the_games(s: OutShape, rpt: Seq<u8>, p: FlushParams, i: int)
    requires
        s.state63.len() == 63,
        p.l2cap,
        kernel_state(rpt) is Some,
        0 <= i < 63,
    ensures
        ({
            let st = kernel_state(rpt)->0;
            let n = absorbed(s, rpt, p).state63;
            &&& n.len() == 63
            &&& i < 47 && !audio_byte(i) ==> n[i] == st[i]
            &&& i >= 47 ==> n[i] == s.state63[i]
            &&& n[0] & 0x0F == st[0] & 0x0F
            &&& n[1] & 0x7F == st[1] & 0x7F
            &&& n[7] & 0x30 == (if p.jack_path {
                0u8
            } else {
                0x30
            })
            &&& n[7] & 0xCF == st[7] & 0xCF
            &&& absorbed(s, rpt, p).state == s.state
        }),
{
    let st = kernel_state(rpt)->0;
    let all = st + s.state63.subrange(47, 63);
    sink::direct_state_says_one_path(all, p.hp_volume, p.output, p.jack_path, i);
    game_flags(all[0], sink::merged63(all, p.hp_volume, p.output, p.jack_path)[0]);
}

/// Bits that two masks keep.
proof fn game_flags(a: u8, m: u8)
    by (bit_vector)
    ensures
        m & 0xCF == a & 0xCF ==> m & 0x0F == a & 0x0F,
        m & 0xDF == a & 0xDF ==> m & 0x0F == a & 0x0F,
{
}

/// While no audio streams, a direct session sends the pad what it tracks, in a
/// state report behind the HIDP byte, unless the pad has it already; while
/// audio streams it sends none, since the state rides in the next frame.
pub proof fn new_states_are_sent(s: OutShape, rpt: Seq<u8>, p: FlushParams, i: int)
    requires
        s.state63.len() == 63,
        s.last47.len() == 47,
        s.seq < 16,
        p.l2cap,
        kernel_state(rpt) is Some,
        0 <= i < 47,
    ensures
        ({
            let n = absorbed(s, rpt, p);
            let out = relayed(s, rpt, p);
            &&& p.streaming ==> out is None && n.seq == s.seq && n.last47 == s.last47
            &&& !p.streaming && n.state63.subrange(0, 47) == s.last47 ==> out is None && n.seq
                == s.seq
            &&& !p.streaming && n.state63.subrange(0, 47) != s.last47 ==> {
                &&& out is Some
                &&& (out->0).len() == 79
                &&& (out->0)[0] == 0xA2
                &&& (out->0)[1] == 0x31
                &&& (out->0)[2] >> 4 == s.seq
                &&& (out->0)[4 + i] == n.state63[i]
                &&& n.last47[i] == n.state63[i]
                &&& n.seq == (s.seq + 1) % 16
            }
        }),
{
    let st = kernel_state(rpt)->0;
    let n = overlaid63(s.state63, st, p);
    audio::state_reads_back(s.seq, n.subrange(0, 47), i);
}

/// A hidraw session without audio passes a state on under the shared sequence
/// number, byte for byte; while audio streams it keeps the game's part of the
/// state for the next frame instead.
pub proof fn hidraw_states_pass_or_ride(s: OutShape, rpt: Seq<u8>, p: FlushParams, i: int)
    requires
        !p.l2cap,
        s.seq < 16,
        kernel_state(rpt) is Some,
        0 <= i < 47,
    ensures
        ({
            let st = kernel_state(rpt)->0;
            let n = absorbed(s, rpt, p);
            let out = relayed(s, rpt, p);
            &&& !p.streaming ==> {
                &&& out is Some
                &&& (out->0).len() == rpt.len()
                &&& kernel_state(out->0) is Some && (kernel_state(out->0)->0)[i] == st[i]
                &&& n.seq == (s.seq + 1) % 16
                &&& n.state == s.state
            }
            &&& p.streaming ==> {
                &&& out is None
                &&& n.seq == s.seq
                &&& n.state.len() == 47
                &&& !audio_byte(i) ==> n.state[i] == st[i]
                &&& n.state[0] & 0x0F == st[0] & 0x0F
                &&& n.state[7] & 0x30 == 0x30
            }
            &&& n.state63 == s.state63
        }),
{
    let st = kernel_state(rpt)->0;
    sink::hidraw_state_says_one_path(st, p.hp_volume, p.output, false, i);
    if rpt.len() == 78 {
        sink::restamping_keeps_the_state(rpt, s.seq, 3 + i);
        sink::restamping_keeps_the_state(rpt, s.seq, 0);
    }
}

/// A report that holds no state is passed on whatever streams: as it is behind
/// the HIDP byte in a direct session, as it is in a hidraw one.
pub proof fn other_reports_are_passed_on(s: OutShape, rpt: Seq<u8>, p: FlushParams)
    requires
        kernel_state(rpt) is None,
    ensures
        p.l2cap ==> relayed(s, rpt, p) == Some(seq![0xA2u8] + rpt) && absorbed(s, rpt, p) == s,
        !p.l2cap ==> relayed(s, rpt, p) == Some(rpt),
        !held_back(rpt, p),
{
}

/// Only the motors of a hidraw session whose audio reports carry no state are
/// held back, and only while audio streams.
pub proof fn only_motors_are_held_back(rpt: Seq<u8>, p: FlushParams)
    ensures
        held_back(rpt, p) ==> p.streaming && !p.l2cap && !p.combined,
        rpt.len() == 78 && rpt[0] == 0x31 && p.streaming && !p.l2cap && !p.combined ==> (held_back(
            rpt,
            p,
        ) <==> rpt[3] & 0x03 != 0),
        rpt.len() == 48 && rpt[0] == 0x02 && p.streaming && !p.l2cap && !p.combined ==> (held_back(
            rpt,
            p,
        ) <==> rpt[1] & 0x03 != 0),
{
}

/// A flush goes through its queue in turn, each report on what the ones before
/// it left, and ends with the latest rumble that was held back.
pub proof fn flushes_go_in_turn(s: OutShape, q: Seq<Seq<u8>>, rpt: Seq<u8>, p: FlushParams)
    ensures
        absorbed_all(s, Seq::empty(), p) == s,
        relayed_all(s, Seq::empty(), p).len() == 0,
        last_rumble(Seq::empty(), p) is None,
        absorbed_all(s, q.push(rpt), p) == absorbed(absorbed_all(s, q, p), rpt, p),
        relayed(absorbed_all(s, q, p), rpt, p) is None ==> relayed_all(s, q.push(rpt), p)
            == relayed_all(s, q, p),
        relayed(absorbed_all(s, q, p), rpt, p) is Some ==> relayed_all(s, q.push(rpt), p)
            == relayed_all(s, q, p).push(relayed(absorbed_all(s, q, p), rpt, p)->0),
        last_rumble(q.push(rpt), p) == (if held_back(rpt, p) {
            Some(rpt)
        } else {
            last_rumble(q, p)
        }),
        last_rumble(q, p) is None ==> flushed(s, q, p) == relayed_all(s, q, p),
        last_rumble(q, p) is Some ==> flushed(s, q, p).len() == relayed_all(s, q, p).len() + 1
            && flushed(s, q, p).last() == sink::restamped_output(
            last_rumble(q, p)->0,
            absorbed_all(s, q, p).seq,
        ),
{
    assert(q.push(rpt).drop_last() =~= q);
}

} // verus!
