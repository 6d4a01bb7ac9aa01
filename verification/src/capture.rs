//! The audio graph's buffers: reading captured frames, cutting them into
//! frames for the writer, and playing forwarded music.
//!
//! Samples are carried by their bits.

use std::collections::HashMap;
use std::collections::VecDeque;

use vstd::prelude::*;

use crate::bytes;
use crate::sink;
use crate::sink::FWD_CAP;
use crate::sink::MODE_FORWARD;
use crate::sink::RING_CAP;
use crate::uhid;

verus! {

/// Samples of a frame over the four channels.
pub const FRAME_LEN: usize = 1920;

/// Bytes of one captured instant: four samples of four bytes.
pub const QUAD_BYTES: usize = 16;

/// One instant of the four channels: music in front, haptics in the rear.
#[derive(Clone, Copy, PartialEq, Eq, Debug, Structural)]
pub struct Quad {
    pub fl: u32,
    pub fr: u32,
    pub rl: u32,
    pub rr: u32,
}

// ---------------------------------------------------------------- reading a buffer

/// Where the captured instants start in a buffer of `len` bytes.
pub open spec fn region_start(len: int, off: int) -> int {
    let last = len / 16 / 16 * 16;
    if off <= last {
        off
    } else {
        last
    }
}

/// How many whole instants a buffer holds: what the graph filled, what there
/// is room for behind the start, and what fits its capacity.
pub open spec fn region_count(len: int, off: int, size: int, capacity: int) -> int {
    let room = (len - region_start(len, off)) / 16;
    let filled = if size / 16 <= room {
        size / 16
    } else {
        room
    };
    if filled <= capacity / 16 {
        filled
    } else {
        capacity / 16
    }
}

/// The instant whose bytes start at `at`.
pub open spec fn quad_at(b: Seq<u8>, at: int) -> Quad {
    Quad {
        fl: bytes::from_le32(b, at) as u32,
        fr: bytes::from_le32(b, at + 4) as u32,
        rl: bytes::from_le32(b, at + 8) as u32,
        rr: bytes::from_le32(b, at + 12) as u32,
    }
}

/// The captured instants of a buffer, where the graph filled `size` bytes from
/// `off` on.
pub fn quads(buf: &[u8], off: usize, size: usize, capacity: usize) -> (r: Vec<Quad>)
    ensures
        r@ == Seq::new(
            region_count(buf@.len() as int, off as int, size as int, capacity as int) as nat,
            |i: int| quad_at(buf@, region_start(buf@.len() as int, off as int) + 16 * i),
        ),
{
    let len: usize = buf.len();
    let last: usize = len / 16 / 16 * 16;
    let start: usize = if off <= last {
        off
    } else {
        last
    };
    let room: usize = (len - start) / 16;
    let filled: usize = if size / 16 <= room {
        size / 16
    } else {
        room
    };
    let count: usize = if filled <= capacity / 16 {
        filled
    } else {
        capacity / 16
    };
    let mut out: Vec<Quad> = Vec::new();
    let mut i: usize = 0;
    while i < count
        invariant
            i <= count,
            start + 16 * count <= len,
            len == buf@.len(),
            out@ == Seq::new(i as nat, |k: int| quad_at(buf@, start + 16 * k)),
        decreases count - i,
    {
        let at: usize = start + 16 * i;
        let q: Quad = Quad {
            fl: uhid::read_u32(buf, at),
            fr: uhid::read_u32(buf, at + 4),
            rl: uhid::read_u32(buf, at + 8),
            rr: uhid::read_u32(buf, at + 12),
        };
        assert(q == quad_at(buf@, start + 16 * i));
        out.push(q);
        assert(out@ =~= Seq::new((i + 1) as nat, |k: int| quad_at(buf@, start + 16 * k)));
        i = i + 1;
    }
    out
}

// ---------------------------------------------------------------- bounded queues

/// A queue with more items, one after the other, the oldest dropped where it
/// is full.
pub open spec fn pushed_all<T>(q: Seq<T>, items: Seq<T>, cap: int) -> Seq<T>
    decreases items.len(),
{
    if items.len() == 0 {
        q
    } else {
        sink::pushed(pushed_all(q, items.drop_last(), cap), items.last(), cap)
    }
}

/// A bounded queue holds the newest items: what was in it and what came, cut
/// to the last `cap`.
pub proof fn bounded_queue_holds_the_newest<T>(q: Seq<T>, items: Seq<T>, cap: int)
    requires
        0 < cap,
        q.len() <= cap,
    ensures
        pushed_all(q, items, cap) == (if q.len() + items.len() <= cap {
            q + items
        } else {
            (q + items).subrange(q.len() + items.len() - cap, (q + items).len() as int)
        }),
    decreases items.len(),
{
    if items.len() == 0 {
        assert(q + items =~= q);
    } else {
        bounded_queue_holds_the_newest(q, items.drop_last(), cap);
        assert(items.drop_last().push(items.last()) =~= items);
        assert((q + items.drop_last()).push(items.last()) =~= q + items);
        let before = pushed_all(q, items.drop_last(), cap);
        let want = if q.len() + items.len() <= cap {
            q + items
        } else {
            (q + items).subrange(q.len() + items.len() - cap, (q + items).len() as int)
        };
        assert(sink::pushed(before, items.last(), cap) =~= want);
    }
}

// ---------------------------------------------------------------- frames

/// The samples of the instants, in turn.
pub open spec fn samples(q: Seq<Quad>) -> Seq<u32>
    decreases q.len(),
{
    if q.len() == 0 {
        Seq::empty()
    } else {
        samples(q.drop_last()) + seq![q.last().fl, q.last().fr, q.last().rl, q.last().rr]
    }
}

/// The whole frames of the samples.
pub open spec fn frames_in(s: Seq<u32>) -> Seq<Seq<u32>> {
    Seq::new(s.len() / 1920, |i: int| s.subrange(1920 * i, 1920 * i + 1920))
}

/// The samples behind the last whole frame.
pub open spec fn rest_of(s: Seq<u32>) -> Seq<u32> {
    s.subrange(s.len() as int / 1920 * 1920, s.len() as int)
}

/// Frames one behind the other.
pub open spec fn glued(frames: Seq<Seq<u32>>) -> Seq<u32>
    decreases frames.len(),
{
    if frames.len() == 0 {
        Seq::empty()
    } else {
        glued(frames.drop_last()) + frames.last()
    }
}

/// Cutting into frames loses no sample and keeps their order: the frames and
/// the rest make up what came.
pub proof fn frames_hold_the_samples_in_order(s: Seq<u32>)
    ensures
        glued(frames_in(s)) + rest_of(s) == s,
{
    let n = s.len() as int / 1920;
    glued_is_a_prefix(s, n);
    assert(frames_in(s).subrange(0, n) =~= frames_in(s));
    assert(s.subrange(0, 1920 * n) + rest_of(s) =~= s);
}

proof fn glued_is_a_prefix(s: Seq<u32>, n: int)
    requires
        0 <= n <= s.len() as int / 1920,
    ensures
        glued(frames_in(s).subrange(0, n)) == s.subrange(0, 1920 * n),
    decreases n,
{
    let f = frames_in(s).subrange(0, n);
    if n > 0 {
        glued_is_a_prefix(s, n - 1);
        assert(f.drop_last() =~= frames_in(s).subrange(0, n - 1));
        assert(s.subrange(0, 1920 * (n - 1)) + f.last() =~= s.subrange(0, 1920 * n));
    } else {
        assert(f =~= Seq::empty());
        assert(s.subrange(0, 0) =~= Seq::empty());
    }
}

/// Frames by their samples.
pub open spec fn ring_view(q: Seq<Vec<u32>>) -> Seq<Seq<u32>> {
    q.map_values(|f: Vec<u32>| f@)
}

/// Cuts captured instants into frames.
pub struct Capture {
    /// Samples of the frame that is not whole yet.
    pub acc: Vec<u32>,
}

impl Capture {
    pub open spec fn ok(self) -> bool {
        self.acc@.len() < 1920
    }

    pub fn new() -> (r: Capture)
        ensures
            r.ok(),
            r.acc@.len() == 0,
    {
        Capture { acc: Vec::new() }
    }

    fn take_in(&mut self, q: &Vec<Quad>)
        ensures
            final(self).acc@ == old(self).acc@ + samples(q@),
    {
        let ghost before = self.acc@;
        let mut i: usize = 0;
        assert(q@.subrange(0, 0) =~= Seq::empty());
        assert(before + Seq::<u32>::empty() =~= before);
        while i < q.len()
            invariant
                i <= q@.len(),
                self.acc@ == before + samples(q@.subrange(0, i as int)),
            decreases q@.len() - i,
        {
            let ghost so_far = self.acc@;
            assert(q@.subrange(0, i + 1).drop_last() =~= q@.subrange(0, i as int));
            let v: Quad = q[i];
            self.acc.push(v.fl);
            self.acc.push(v.fr);
            self.acc.push(v.rl);
            self.acc.push(v.rr);
            assert(self.acc@ =~= so_far + seq![v.fl, v.fr, v.rl, v.rr]);
            assert(self.acc@ =~= before + samples(q@.subrange(0, i + 1)));
            i = i + 1;
        }
        assert(q@.subrange(0, q@.len() as int) =~= q@);
    }

    /// Takes captured instants in, and hands whole frames to the ring, which
    /// keeps the newest. Returns how many frames the ring dropped.
    pub fn absorb(&mut self, q: &Vec<Quad>, ring: &mut VecDeque<Vec<u32>>) -> (dropped: u64)
        requires
            old(self).ok(),
            old(ring)@.len() <= RING_CAP,
        ensures
            final(self).ok(),
            final(self).acc@ == rest_of(old(self).acc@ + samples(q@)),
            final(ring)@.len() <= RING_CAP,
            ring_view(final(ring)@) == pushed_all(
                ring_view(old(ring)@),
                frames_in(old(self).acc@ + samples(q@)),
                RING_CAP as int,
            ),
            dropped == dropped_by(
                old(ring)@.len() as int,
                frames_in(old(self).acc@ + samples(q@)).len() as int,
            ),
    {
        self.take_in(q);
        let ghost s = self.acc@;
        let ghost had = ring@;
        let n: usize = self.acc.len() / FRAME_LEN;
        let mut dropped: u64 = 0;
        let mut i: usize = 0;
        assert(frames_in(s).subrange(0, 0) =~= Seq::empty());
        while i < n
            invariant
                i <= n,
                n == s.len() / 1920,
                s.len() <= usize::MAX,
                self.acc@ == s,
                had.len() <= RING_CAP,
                ring@.len() <= RING_CAP,
                ring@.len() == (if had.len() + i <= RING_CAP {
                    had.len() + i
                } else {
                    RING_CAP as int
                }),
                ring_view(ring@) == pushed_all(
                    ring_view(had),
                    frames_in(s).subrange(0, i as int),
                    RING_CAP as int,
                ),
                dropped == dropped_by(had.len() as int, i as int),
            decreases n - i,
        {
            let ghost f = frames_in(s);
            assert(f.subrange(0, i + 1).drop_last() =~= f.subrange(0, i as int));
            assert(1920 * i + 1920 <= s.len());
            let from: usize = FRAME_LEN * i;
            let frame: Vec<u32> = cut(&self.acc, from);
            let ghost shape = frame@;
            assert(shape == f.subrange(0, i + 1).last());
            let ghost before = ring@;
            let full: bool = sink::push_newest(ring, frame, RING_CAP);
            proof {
                assert(ring_view(ring@) =~= sink::pushed(
                    ring_view(before),
                    shape,
                    RING_CAP as int,
                ));
            }
            if full {
                dropped = dropped + 1;
            }
            i = i + 1;
        }
        assert(frames_in(s).subrange(0, n as int) =~= frames_in(s));
        let mut rest: Vec<u32> = Vec::new();
        let end: usize = self.acc.len();
        let mut k: usize = FRAME_LEN * n;
        while k < end
            invariant
                1920 * n <= k <= end,
                end == s.len(),
                self.acc@ == s,
                rest@ == s.subrange(1920 * n as int, k as int),
            decreases end - k,
        {
            rest.push(self.acc[k]);
            assert(rest@ =~= s.subrange(1920 * n as int, k + 1));
            k = k + 1;
        }
        assert(rest@ =~= rest_of(s));
        self.acc = rest;
        dropped
    }
}

/// How many frames a ring drops that holds `had` and gets `n` more.
pub open spec fn dropped_by(had: int, n: int) -> int {
    if had + n > RING_CAP {
        had + n - RING_CAP
    } else {
        0
    }
}

fn cut(s: &Vec<u32>, from: usize) -> (r: Vec<u32>)
    requires
        from + 1920 <= s@.len(),
    ensures
        r@ == s@.subrange(from as int, from + 1920),
{
    let mut out: Vec<u32> = Vec::new();
    let end: usize = s.len();
    let mut k: usize = 0;
    while k < FRAME_LEN
        invariant
            k <= 1920,
            from + 1920 <= end,
            end == s@.len(),
            out@ == s@.subrange(from as int, from + k),
        decreases 1920 - k,
    {
        out.push(s[from + k]);
        assert(out@ =~= s@.subrange(from as int, from + k + 1));
        k = k + 1;
    }
    out
}

// ---------------------------------------------------------------- forwarding

/// The front samples of the instants: the music.
pub open spec fn fronts(q: Seq<Quad>) -> Seq<(u32, u32)> {
    q.map_values(|v: Quad| (v.fl, v.fr))
}

/// Hands the music to the forwarding ring while the mode asks for it.
pub fn forward(mode: u8, q: &Vec<Quad>, ring: &mut VecDeque<(u32, u32)>)
    requires
        old(ring)@.len() <= FWD_CAP,
    ensures
        final(ring)@.len() <= FWD_CAP,
        final(ring)@ == (if mode == MODE_FORWARD {
            pushed_all(old(ring)@, fronts(q@), FWD_CAP as int)
        } else {
            old(ring)@
        }),
{
    if mode != MODE_FORWARD {
        return;
    }
    let ghost had = ring@;
    let mut i: usize = 0;
    assert(fronts(q@).subrange(0, 0) =~= Seq::empty());
    while i < q.len()
        invariant
            i <= q@.len(),
            ring@.len() <= FWD_CAP,
            ring@ == pushed_all(had, fronts(q@).subrange(0, i as int), FWD_CAP as int),
        decreases q@.len() - i,
    {
        assert(fronts(q@).subrange(0, i + 1).drop_last() =~= fronts(q@).subrange(0, i as int));
        let v: Quad = q[i];
        let _ = sink::push_newest(ring, (v.fl, v.fr), FWD_CAP);
        i = i + 1;
    }
    assert(fronts(q@).subrange(0, q@.len() as int) =~= fronts(q@));
}

/// The bytes that play the pairs.
pub open spec fn played(pairs: Seq<(u32, u32)>) -> Seq<u8>
    decreases pairs.len(),
{
    if pairs.len() == 0 {
        Seq::empty()
    } else {
        played(pairs.drop_last()) + bytes::le32(pairs.last().0 as int) + bytes::le32(
            pairs.last().1 as int,
        )
    }
}

proof fn played_len(pairs: Seq<(u32, u32)>)
    ensures
        played(pairs).len() == 8 * pairs.len(),
    decreases pairs.len(),
{
    if pairs.len() > 0 {
        played_len(pairs.drop_last());
    }
}

/// How many pairs a buffer of `len` bytes plays of `waiting` ones.
pub open spec fn play_count(len: int, waiting: int) -> int {
    if waiting <= len / 8 {
        waiting
    } else {
        len / 8
    }
}

/// Fills a playback buffer from the forwarding ring. Where the ring runs dry
/// the remainder is silent. Returns how many bytes of music there are.
pub fn play(ring: &mut VecDeque<(u32, u32)>, buf: &mut [u8]) -> (size: usize)
    ensures
        ({
            let len = old(buf)@.len() as int;
            let n = play_count(len, old(ring)@.len() as int);
            &&& size == 8 * n
            &&& final(ring)@ == old(ring)@.subrange(n, old(ring)@.len() as int)
            &&& final(buf)@ == played(old(ring)@.subrange(0, n)) + (if n == len / 8 {
                old(buf)@.subrange(8 * n, len)
            } else {
                bytes::zeros((len - 8 * n) as nat)
            })
        }),
{
    let ghost start = ring@;
    let ghost was = buf@;
    let len: usize = buf.len();
    let room: usize = len / 8;
    let mut out: Vec<u8> = Vec::new();
    let mut n: usize = 0;
    assert(start.subrange(0, start.len() as int) =~= start);
    assert(start.subrange(0, 0) =~= Seq::empty());
    while n < room && ring.len() > 0
        invariant
            n <= room,
            n <= start.len(),
            room == len / 8,
            ring@ == start.subrange(n as int, start.len() as int),
            out@ == played(start.subrange(0, n as int)),
        decreases room - n,
    {
        assert(start.subrange(0, n + 1).drop_last() =~= start.subrange(0, n as int));
        let p: Option<(u32, u32)> = ring.pop_front();
        match p {
            Some(v) => {
                assert(v == start[n as int]);
                bytes::append_u32(&mut out, v.0);
                bytes::append_u32(&mut out, v.1);
            },
            None => {},
        }
        n = n + 1;
        assert(ring@ =~= start.subrange(n as int, start.len() as int));
    }
    proof {
        played_len(start.subrange(0, n as int));
    }
    let size: usize = out.len();
    assert(size == 8 * n);
    if n < room {
        bytes::append_zeros(&mut out, len - size);
    }
    bytes::lay_over(buf, 0, out.as_slice());
    assert(buf@ =~= played(start.subrange(0, n as int)) + (if n == room {
        was.subrange(8 * n as int, len as int)
    } else {
        bytes::zeros((len - 8 * n) as nat)
    }));
    size
}

/// What the forwarding thread does next.
#[derive(Clone, Copy, PartialEq, Eq, Debug, Structural)]
pub enum ForwardNext {
    /// End.
    Leave,
    /// Look again in a quarter of a second.
    Idle,
    /// Look for a sink to play to.
    Play,
}

/// What the forwarding thread does next: it plays only while the mode asks
/// for it and the sink's format stands.
pub fn forward_next(stopping: bool, mode: u8, negotiated: bool) -> (r: ForwardNext)
    ensures
        r == (if stopping {
            ForwardNext::Leave
        } else if mode != MODE_FORWARD || !negotiated {
            ForwardNext::Idle
        } else {
            ForwardNext::Play
        }),
{
    if stopping {
        ForwardNext::Leave
    } else if mode != MODE_FORWARD || !negotiated {
        ForwardNext::Idle
    } else {
        ForwardNext::Play
    }
}

/// Whether a playback stream goes on.
pub fn forward_goes_on(stopping: bool, errored: bool, mode: u8) -> (r: bool)
    ensures
        r == (!stopping && !errored && mode == MODE_FORWARD),
{
    !stopping && !errored && mode == MODE_FORWARD
}

/// How a playback stream ended.
#[derive(Clone, Copy, PartialEq, Eq, Debug, Structural)]
pub enum ForwardEnd {
    /// The sink stops: for good.
    Stopped,
    /// To be tried again.
    Failed,
}

/// How a playback stream ended. Only a stop that nothing else explains is for
/// good.
pub fn forward_end(mode: u8, errored: bool, stopping: bool) -> (r: ForwardEnd)
    ensures
        r == (if mode == MODE_FORWARD && !errored && stopping {
            ForwardEnd::Stopped
        } else {
            ForwardEnd::Failed
        }),
{
    if mode == MODE_FORWARD && !errored && stopping {
        ForwardEnd::Stopped
    } else {
        ForwardEnd::Failed
    }
}

// ---------------------------------------------------------------- keeping the link awake

/// The feature reports that are read now and then on a hidraw link, so that it
/// does not nap: those of the three that the pad has, with the room that each
/// needs.
pub open spec fn poll_sizes(flens: Map<u8, u64>) -> Seq<(u8, u64)> {
    poll_size(flens, 0x09) + poll_size(flens, 0x20) + poll_size(flens, 0x05)
}

/// The room that a feature report needs, where the pad has it.
pub open spec fn poll_size(flens: Map<u8, u64>, id: u8) -> Seq<(u8, u64)> {
    if flens.contains_key(id) {
        seq![(id, (flens[id] + 1) as u64)]
    } else {
        Seq::empty()
    }
}

/// The feature reports that are read now and then; none over a direct link.
pub fn polled(flens: &HashMap<u8, u64>, l2cap: bool) -> (r: Vec<(u8, u64)>)
    requires
        forall|id: u8| flens@.contains_key(id) ==> #[trigger] flens@[id] < u64::MAX,
    ensures
        r@ == (if l2cap {
            Seq::empty()
        } else {
            poll_sizes(flens@)
        }),
{
    let mut out: Vec<(u8, u64)> = Vec::new();
    if !l2cap {
        append_poll(&mut out, flens, 0x09);
        append_poll(&mut out, flens, 0x20);
        append_poll(&mut out, flens, 0x05);
    }
    out
}

fn append_poll(out: &mut Vec<(u8, u64)>, flens: &HashMap<u8, u64>, id: u8)
    requires
        flens@.contains_key(id) ==> flens@[id] < u64::MAX,
    ensures
        final(out)@ == old(out)@ + poll_size(flens@, id),
{
    broadcast use vstd::std_specs::hash::group_hash_axioms;

    match flens.get(&id) {
        Some(n) => {
            out.push((id, *n + 1));
            assert(out@ =~= old(out)@ + poll_size(flens@, id));
        },
        None => {
            assert(out@ =~= old(out)@ + poll_size(flens@, id));
        },
    }
}

/// What is read of a buffer lies inside it, inside what was filled and inside
/// the capacity, and no whole instant that does is left out.
pub proof fn whole_instants_are_read(len: int, off: int, size: int, capacity: int)
    requires
        0 <= len,
        0 <= off,
        0 <= size,
        0 <= capacity,
    ensures
        ({
            let start = region_start(len, off);
            let n = region_count(len, off, size, capacity);
            &&& 0 <= start <= off
            &&& off <= len / 256 * 16 ==> start == off
            &&& n >= 0
            &&& start + 16 * n <= len
            &&& 16 * n <= size
            &&& 16 * n <= capacity
            &&& start + 16 * (n + 1) > len || 16 * (n + 1) > size || 16 * (n + 1) > capacity
        }),
{
    assert(len / 16 / 16 == len / 256);
}

/// An instant is front left, front right, rear left and rear right, four bytes
/// each, least significant first.
pub proof fn channels_stand_in_order(b: Seq<u8>, at: int)
    requires
        0 <= at,
        at + 16 <= b.len(),
    ensures
        ({
            let q = quad_at(b, at);
            &&& q.fl == b[at] + 256 * b[at + 1] + 65536 * b[at + 2] + 16777216 * b[at + 3]
            &&& q.fr == b[at + 4] + 256 * b[at + 5] + 65536 * b[at + 6] + 16777216 * b[at + 7]
            &&& q.rl == b[at + 8] + 256 * b[at + 9] + 65536 * b[at + 10] + 16777216 * b[at + 11]
            &&& q.rr == b[at + 12] + 256 * b[at + 13] + 65536 * b[at + 14] + 16777216 * b[at + 15]
        }),
{
}

/// The samples of the instants follow each other, four to an instant; the
/// music is the front pair of each.
pub proof fn samples_follow_each_other(q: Seq<Quad>, i: int)
    requires
        0 <= i < q.len(),
    ensures
        samples(q).len() == 4 * q.len(),
        samples(q)[4 * i] == q[i].fl,
        samples(q)[4 * i + 1] == q[i].fr,
        samples(q)[4 * i + 2] == q[i].rl,
        samples(q)[4 * i + 3] == q[i].rr,
        fronts(q).len() == q.len(),
        fronts(q)[i] == (q[i].fl, q[i].fr),
    decreases q.len(),
{
    reveal_with_fuel(samples, 2);
    let before = q.drop_last();
    if before.len() > 0 {
        samples_follow_each_other(before, if i < before.len() {
            i
        } else {
            0
        });
    }
}

/// A frame is 1920 samples, 480 instants; what does not fill one waits.
pub proof fn frames_are_whole(s: Seq<u32>, i: int)
    requires
        0 <= i < frames_in(s).len(),
    ensures
        frames_in(s).len() == s.len() as int / 1920,
        frames_in(s)[i].len() == 1920,
        rest_of(s).len() < 1920,
        rest_of(s).len() == s.len() % 1920,
{
}

/// A ring of 64 frames drops what it cannot hold, and counts it.
pub proof fn dropped_frames_are_counted(had: int, n: int)
    requires
        0 <= had <= 64,
        0 <= n,
    ensures
        had + n <= 64 ==> dropped_by(had, n) == 0,
        had + n > 64 ==> dropped_by(had, n) == had + n - 64,
{
}

/// Music is played as it came: each pair takes eight bytes, the left sample
/// first, least significant byte first.
pub proof fn pairs_play_left_first(pairs: Seq<(u32, u32)>, i: int)
    requires
        0 <= i < pairs.len(),
    ensures
        ({
            let b = played(pairs);
            let at = 8 * i;
            &&& b.len() == 8 * pairs.len()
            &&& b[at] + 256 * b[at + 1] + 65536 * b[at + 2] + 16777216 * b[at + 3] == pairs[i].0
            &&& b[at + 4] + 256 * b[at + 5] + 65536 * b[at + 6] + 16777216 * b[at + 7] == pairs[i].1
        }),
    decreases pairs.len(),
{
    let before = pairs.drop_last();
    let b = played(pairs);
    played_len(before);
    played_len(pairs);
    if i < before.len() {
        pairs_play_left_first(before, i);
        assert(forall|k: int| 0 <= k < 8 * before.len() ==> b[k] == played(before)[k]);
    } else {
        bytes::le32_round_trip(pairs[i].0 as int);
        bytes::le32_round_trip(pairs[i].1 as int);
        let l = bytes::le32(pairs[i].0 as int);
        let r = bytes::le32(pairs[i].1 as int);
        let at = 8 * i;
        assert(b[at] == l[0] && b[at + 1] == l[1] && b[at + 2] == l[2] && b[at + 3] == l[3]);
        assert(b[at + 4] == r[0] && b[at + 5] == r[1] && b[at + 6] == r[2] && b[at + 7] == r[3]);
    }
}

/// A playback buffer takes as many pairs as wait and fit, eight bytes each.
pub proof fn buffers_take_what_fits(len: int, waiting: int)
    requires
        0 <= len,
        0 <= waiting,
    ensures
        play_count(len, waiting) <= waiting,
        8 * play_count(len, waiting) <= len,
        play_count(len, waiting) == waiting || 8 * (play_count(len, waiting) + 1) > len,
{
}

/// A hidraw link is read for the serial, the firmware and the calibration, in
/// this order, as far as the pad has them, each with room for one byte more
/// than its length.
pub proof fn present_features_are_polled(flens: Map<u8, u64>)
    requires
        flens.contains_key(0x09) ==> flens[0x09] < u64::MAX,
        flens.contains_key(0x20) ==> flens[0x20] < u64::MAX,
        flens.contains_key(0x05) ==> flens[0x05] < u64::MAX,
    ensures
        ({
            let p = poll_sizes(flens);
            let a = if flens.contains_key(0x09) {
                1int
            } else {
                0
            };
            let b = a + (if flens.contains_key(0x20) {
                1int
            } else {
                0
            });
            let c = b + (if flens.contains_key(0x05) {
                1int
            } else {
                0
            });
            &&& p.len() == c
            &&& flens.contains_key(0x09) ==> p[0].0 == 0x09 && p[0].1 == flens[0x09] + 1
            &&& flens.contains_key(0x20) ==> p[a].0 == 0x20 && p[a].1 == flens[0x20] + 1
            &&& flens.contains_key(0x05) ==> p[b].0 == 0x05 && p[b].1 == flens[0x05] + 1
        }),
{
}

/// A ring is what it holds, in order.
pub proof fn rings_are_what_they_hold(q: Seq<Vec<u32>>, i: int)
    requires
        0 <= i < q.len(),
    ensures
        ring_view(q).len() == q.len(),
        ring_view(q)[i] == q[i]@,
{
}

} // verus!
