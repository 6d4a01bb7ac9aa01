//! The audio writer: when it handshakes, keeps the pad awake, streams, goes
//! idle and sleeps, and what each report holds. Resampling and encoding happen
//! outside; times are nanoseconds of one clock.

use vstd::prelude::*;

use crate::audio;
use crate::bytes;
use crate::chords;
use crate::config;
use crate::config::AudioConfig;
use crate::flush;
use crate::flush::FlushParams;
use crate::flush::OutShape;
use crate::flush::OutState;
use crate::l2cap;
use crate::sink;

verus! {

pub const WARM_UP_NS: u64 = 500_000_000;

pub const IDLE_TICK_NS: u64 = 20_000_000;

pub const KEEPALIVE_NS: u64 = 2_000_000_000;

/// A schedule that is further behind than this starts over.
pub const LATE_NS: u64 = 200_000_000;

/// The shortest time between two frames.
pub const MIN_INTERVAL_NS: u64 = 9_000_000;

/// The time between two frames is this much shorter for each frame that the
/// ring holds too much.
pub const STEER_NS: u64 = 3_000;

/// The longest time between two frames that can be configured.
pub const MAX_INTERVAL_US: u64 = 9_000_000_000_000_000;

// ---------------------------------------------------------------- parameters

/// How the writer was configured.
#[derive(Clone, Copy)]
pub struct WriterParams {
    pub bitrate: i32,
    pub bytes_per_frame: usize,
    pub interval_ns: u64,
    pub hp_volume: u8,
    pub force_speaker: bool,
    pub output: bool,
    pub combined: bool,
    pub report_id: u8,
    pub l2cap: bool,
    /// Haptics without audio.
    pub haptics_only: bool,
}

/// The bit rate of the configuration, in the encoder's range.
pub open spec fn clamped_bitrate(b: Option<i32>) -> int {
    let v = match b {
        Some(x) => x as int,
        None => 160_000,
    };
    if v < 6_000 {
        6_000
    } else if v > 510_000 {
        510_000
    } else {
        v
    }
}

/// Whether state, haptics and audio ride in one report.
pub open spec fn is_combined(cfg: AudioConfig, l2cap: bool) -> bool {
    l2cap || config::reads(cfg.report, "0x36"@)
}

impl WriterParams {
    /// What the encoder gives for a frame, and a pace that can be computed.
    pub open spec fn ok(self) -> bool {
        &&& self.bytes_per_frame < 638
        &&& !self.combined ==> self.bytes_per_frame == 200
        &&& self.l2cap ==> self.combined
        &&& self.haptics_only == (!self.output && !self.combined && !self.l2cap)
        &&& self.interval_ns <= 1000 * MAX_INTERVAL_US
    }

    /// The writer's parameters, for a direct session or a hidraw one. Audio
    /// that does not ride in combined reports has a fixed bit rate.
    pub fn new(cfg: &AudioConfig, l2cap: bool) -> (r: WriterParams)
        requires
            cfg.interval_us is Some ==> cfg.interval_us->0 <= MAX_INTERVAL_US,
        ensures
            r.ok(),
            r.combined == is_combined(*cfg, l2cap),
            r.bitrate == (if is_combined(*cfg, l2cap) {
                clamped_bitrate(cfg.bitrate)
            } else {
                160_000
            }),
            r.bytes_per_frame == r.bitrate as int / 800,
            r.interval_ns == 1000 * (match cfg.interval_us {
                Some(v) => v as int,
                None => 10_667,
            }),
            r.hp_volume == (match cfg.volume {
                Some(v) => v,
                None => 0x64,
            }),
            r.force_speaker == (cfg.speaker == Some(true)),
            r.output == cfg.output,
            r.report_id == (if config::reads(cfg.report, "0x36"@) {
                0x36u8
            } else if config::reads(cfg.report, "0x39"@) {
                0x39
            } else {
                0x35
            }),
            r.l2cap == l2cap,
            r.haptics_only == (!cfg.output && !is_combined(*cfg, l2cap) && !l2cap),
    {
        let wanted: i32 = match cfg.bitrate {
            Some(v) => v,
            None => 160_000,
        };
        let clamped: i32 = if wanted < 6_000 {
            6_000
        } else if wanted > 510_000 {
            510_000
        } else {
            wanted
        };
        let is_36: bool = config::is_text(&cfg.report, "0x36");
        let is_39: bool = config::is_text(&cfg.report, "0x39");
        let combined: bool = l2cap || is_36;
        let bitrate: i32 = if combined {
            clamped
        } else {
            160_000
        };
        let interval_us: u64 = match cfg.interval_us {
            Some(v) => v,
            None => 10_667,
        };
        let bits: u32 = bitrate as u32;
        WriterParams {
            bitrate,
            bytes_per_frame: (bits / 800) as usize,
            interval_ns: interval_us * 1000,
            hp_volume: match cfg.volume {
                Some(v) => v,
                None => 0x64,
            },
            force_speaker: match cfg.speaker {
                Some(s) => s,
                None => false,
            },
            output: cfg.output,
            combined,
            report_id: if is_36 {
                0x36
            } else if is_39 {
                0x39
            } else {
                0x35
            },
            l2cap,
            haptics_only: !cfg.output && !combined && !l2cap,
        }
    }
}

// ---------------------------------------------------------------- pacing

/// The later of `due` plus `add` and, where that is far in the past, `now`.
pub open spec fn rescheduled(due: u64, add: int, now: u64) -> int {
    let next = if due + add > u64::MAX {
        u64::MAX as int
    } else {
        due + add
    };
    if next <= now && now - next > LATE_NS {
        now as int
    } else {
        next
    }
}

/// How long to sleep until `due`.
pub open spec fn sleep_for(due: int, now: u64) -> int {
    if due > now {
        due - now
    } else {
        0
    }
}

/// The time to the next frame, steered by the ring's fill.
pub open spec fn steered(interval_ns: int, fill: int) -> int {
    let t = interval_ns - (fill - sink::TARGET_FILL_FRAMES) * STEER_NS;
    if t < MIN_INTERVAL_NS {
        MIN_INTERVAL_NS as int
    } else {
        t
    }
}

fn reschedule(due: u64, add: u64, now: u64) -> (r: u64)
    ensures
        r == rescheduled(due, add as int, now),
{
    let next: u64 = due.saturating_add(add);
    if next <= now && now - next > LATE_NS {
        now
    } else {
        next
    }
}

fn sleep_time(due: u64, now: u64) -> (r: u64)
    ensures
        r == sleep_for(due as int, now),
{
    if due > now {
        due - now
    } else {
        0
    }
}

// ---------------------------------------------------------------- haptics

/// Division that rounds towards zero.
pub open spec fn trunc_div(a: int, b: int) -> int {
    if a >= 0 {
        a / b
    } else {
        -((-a) / b)
    }
}

/// The sum of one channel over a range of sample pairs.
pub open spec fn channel_sum(s: Seq<(i32, i32)>, left: bool, from: int, to: int) -> int
    decreases to - from,
{
    if to <= from {
        0
    } else {
        channel_sum(s, left, from, to - 1) + (if left {
            s[to - 1].0
        } else {
            s[to - 1].1
        })
    }
}

/// The range of pairs that the haptic frame `h` of 32 averages.
pub open spec fn group_start(h: int, n: int) -> int {
    h * n / 32
}

pub open spec fn group_end(h: int, n: int) -> int {
    let end = if (h + 1) * n / 32 > h * n / 32 {
        (h + 1) * n / 32
    } else {
        h * n / 32 + 1
    };
    if end < n {
        end
    } else {
        n
    }
}

/// How many pairs the haptic frame averages; at least one.
pub open spec fn group_size(h: int, n: int) -> int {
    let c = group_end(h, n) - group_start(h, n);
    if c < 1 {
        1
    } else {
        c
    }
}

/// A signed value as a byte, held in its range.
pub open spec fn signed_byte(v: int) -> u8 {
    if v < -128 {
        0x80
    } else if v > 127 {
        0x7F
    } else if v < 0 {
        (v + 256) as u8
    } else {
        v as u8
    }
}

/// One channel of a haptic frame: the average of its pairs, as eight bits.
pub open spec fn haptic_value(s: Seq<(i32, i32)>, left: bool, h: int) -> u8 {
    let n = s.len() as int;
    signed_byte(
        trunc_div(
            trunc_div(
                channel_sum(s, left, group_start(h, n), group_end(h, n)),
                group_size(h, n),
            ),
            256,
        ),
    )
}

/// A frame of haptics: 32 pairs, the left channel first.
pub open spec fn haptic_frame(s: Seq<(i32, i32)>) -> Seq<u8> {
    Seq::new(64, |i: int| haptic_value(s, i % 2 == 0, i / 2))
}

/// Samples of 16 bits.
pub open spec fn in_range(s: Seq<(i32, i32)>) -> bool {
    forall|i: int|
        0 <= i < s.len() ==> -32767 <= (#[trigger] s[i]).0 <= 32767 && -32767 <= s[i].1 <= 32767
}

fn divide(a: i128, b: i128) -> (r: i128)
    requires
        b >= 1,
        -i128::MAX <= a,
    ensures
        r == trunc_div(a as int, b as int),
        -i128::MAX <= r,
{
    if a >= 0 {
        let q: u128 = a as u128 / b as u128;
        assert(q <= a) by (nonlinear_arith)
            requires
                q == a as u128 / b as u128,
                a >= 0,
                b >= 1,
        ;
        q as i128
    } else {
        let m: u128 = (-a) as u128;
        let q: u128 = m / b as u128;
        assert(q <= m) by (nonlinear_arith)
            requires
                q == m / b as u128,
                b >= 1,
        ;
        -(q as i128)
    }
}

fn to_byte(v: i128) -> (r: u8)
    ensures
        r == signed_byte(v as int),
{
    if v < -128 {
        0x80
    } else if v > 127 {
        0x7F
    } else if v < 0 {
        (v + 256) as u8
    } else {
        v as u8
    }
}

/// Averages the rear channel pairs of a frame into 32 haptic pairs of eight
/// bits.
pub fn haptics(pairs: &Vec<(i32, i32)>) -> (r: [u8; 64])
    requires
        in_range(pairs@),
    ensures
        r@ == haptic_frame(pairs@),
{
    let n: usize = pairs.len();
    let mut out: [u8; 64] = [0; 64];
    let mut h: usize = 0;
    while h < 32
        invariant
            h <= 32,
            n == pairs@.len(),
            in_range(pairs@),
            forall|k: int| 0 <= k < 2 * h ==> #[trigger] out@[k] == haptic_frame(pairs@)[k],
        decreases 32 - h,
    {
        let wide: u128 = n as u128;
        let place: u128 = h as u128;
        assert(place * wide <= 32 * wide && (place + 1) * wide <= 32 * wide) by (nonlinear_arith)
            requires
                place < 32,
        ;
        let begin: usize = (place * wide / 32) as usize;
        let raw_end: usize = ((place + 1) * wide / 32) as usize;
        assert(place * wide / 32 <= (place + 1) * wide / 32) by (nonlinear_arith);
        assert(begin < n || n == 0) by (nonlinear_arith)
            requires
                begin == place * wide / 32,
                place < 32,
                wide == n,
        ;
        let end: usize = if n == 0 {
            0
        } else if raw_end > begin {
            raw_end
        } else {
            begin + 1
        };
        assert(begin == group_start(h as int, n as int));
        assert(end == group_end(h as int, n as int));
        let mut lsum: i128 = 0;
        let mut rsum: i128 = 0;
        let mut j: usize = begin;
        if begin < end {
            while j < end
                invariant
                    begin <= j <= end,
                    end <= n,
                    n == pairs@.len(),
                    in_range(pairs@),
                    lsum == channel_sum(pairs@, true, begin as int, j as int),
                    rsum == channel_sum(pairs@, false, begin as int, j as int),
                    -32767 * (j - begin) <= lsum <= 32767 * (j - begin),
                    -32767 * (j - begin) <= rsum <= 32767 * (j - begin),
                decreases end - j,
            {
                let s: (i32, i32) = pairs[j];
                assert(-32767 <= pairs@[j as int].0 <= 32767);
                lsum = lsum + s.0 as i128;
                rsum = rsum + s.1 as i128;
                j = j + 1;
            }
        }
        let count: i128 = if end > begin {
            (end - begin) as i128
        } else {
            1
        };
        assert(count == group_size(h as int, n as int));
        assert(lsum == channel_sum(pairs@, true, begin as int, end as int));
        assert(rsum == channel_sum(pairs@, false, begin as int, end as int));
        let l: i128 = divide(divide(lsum, count), 256);
        let r: i128 = divide(divide(rsum, count), 256);
        assert((2 * h) % 2 == 0 && (2 * h) / 2 == h && (2 * h + 1) % 2 == 1 && (2 * h + 1) / 2
            == h);
        assert(haptic_frame(pairs@)[2 * h] == haptic_value(pairs@, true, h as int));
        assert(haptic_frame(pairs@)[2 * h + 1] == haptic_value(pairs@, false, h as int));
        out[2 * h] = to_byte(l);
        out[2 * h + 1] = to_byte(r);
        h = h + 1;
    }
    assert(out@ =~= haptic_frame(pairs@));
    out
}

// ---------------------------------------------------------------- the writer

/// The writer's memory.
pub struct Writer {
    pub p: WriterParams,
    pub out: OutState,
    /// Sequence number of the microphone reports.
    pub mic_seq: u8,
    pub counter: u8,
    /// Audio is streaming.
    pub primed: bool,
    /// Frames in a row without enough input.
    pub starved: u32,
    /// Frames in a row of silence.
    pub silent: u32,
    /// The path that the pad was last told.
    pub engaged: Option<bool>,
    pub keepalive_at: u64,
    /// When the next frame is due.
    pub next_at: u64,
    pub frames_sent: u64,
}

/// The handshake before audio: a microphone state with the output path, and a
/// microphone report, each behind the HIDP byte.
pub open spec fn handshake(seq: u8, mic_seq: u8, plugged: bool) -> Seq<Seq<u8>> {
    seq![
        seq![0xA2u8],
        audio::state_shape(seq, l2cap::mic_state_shape(plugged)),
        seq![0xA2u8],
        audio::mic_shape(mic_seq, true),
    ]
}

/// A state report behind the HIDP byte.
pub open spec fn lone_state(seq: u8, state: Seq<u8>) -> Seq<Seq<u8>> {
    seq![seq![0xA2u8], audio::state_shape(seq, state)]
}

/// What to do while the stream is not primed.
pub enum PrimeStep {
    /// Sleep for a tick; drop the gathered input, if told so.
    Wait(bool),
    /// Go on; write these chunks first.
    Go(Vec<Vec<u8>>),
}

/// What to do about the gathered input.
pub enum InputStep {
    /// There is enough.
    Enough,
    /// Fill up with silence.
    Pad,
    /// Drop it and go idle.
    Idle,
}

/// What to do about silence.
pub enum SilenceStep {
    /// Send the frame.
    Send,
    /// Drop the input and sleep this long.
    Skip(u64),
}

impl Writer {
    pub open spec fn ok(self) -> bool {
        &&& self.p.ok()
        &&& self.out.ok()
        &&& self.mic_seq < 16
        &&& self.starved <= 31
        &&& self.primed ==> self.starved <= 30
        &&& self.silent < 30
    }

    /// The output path: the jack where a headset is plugged, unless the speaker
    /// is forced.
    pub open spec fn path(self, plugged: bool) -> bool {
        !self.p.force_speaker && plugged
    }

    /// A writer without a pad.
    pub fn new(p: WriterParams) -> (r: Writer)
        requires
            p.ok(),
        ensures
            r.ok(),
            r.p == p,
            r.out@ == (OutShape {
                seq: 0,
                state: sink::merged47(sink::STATE_INIT@, p.hp_volume, p.output, false),
                state63: sink::merged63(
                    l2cap::BT_STATE_INIT@,
                    p.hp_volume,
                    p.output,
                    !p.force_speaker,
                ),
                last47: bytes::zeros(47),
            }),
            r.mic_seq == 0,
            r.counter == 0,
            !r.primed,
            r.starved == 0,
            r.silent == 0,
            r.engaged is None,
            r.keepalive_at == 0,
            r.next_at == 0,
            r.frames_sent == 0,
    {
        let mut state: [u8; 47] = sink::STATE_INIT;
        sink::merge_audio_state(&mut state, p.hp_volume, p.output, false);
        let mut state63: [u8; 63] = l2cap::BT_STATE_INIT;
        sink::sink_merge63(&mut state63, p.hp_volume, p.output, !p.force_speaker);
        let last47: [u8; 47] = [0; 47];
        assert(last47@ =~= bytes::zeros(47));
        Writer {
            p,
            out: OutState { seq: 0, state, state63, last47 },
            mic_seq: 0,
            counter: 0,
            primed: false,
            starved: 0,
            silent: 0,
            engaged: None,
            keepalive_at: 0,
            next_at: 0,
            frames_sent: 0,
        }
    }

    fn shake(&mut self, plugged: bool) -> (r: Vec<Vec<u8>>)
        requires
            old(self).ok(),
        ensures
            sink::reports(r@) == handshake(old(self).out.seq, old(self).mic_seq, plugged),
            final(self).out@ == (OutShape {
                seq: flush::next_seq(old(self).out.seq),
                ..old(self).out@
            }),
            final(self).mic_seq == flush::next_seq(old(self).mic_seq),
            final(self).ok(),
            *final(self) == (Writer {
                out: final(self).out,
                mic_seq: final(self).mic_seq,
                ..*old(self)
            }),
    {
        let seq: u8 = self.out.take_seq();
        let state: [u8; 47] = l2cap::mic_state(plugged);
        let s31: Vec<u8> = audio::state_report(seq, &state);
        let s32: Vec<u8> = audio::mic_report_032(self.mic_seq, true);
        self.mic_seq = (self.mic_seq + 1) % 16;
        let mut chunks: Vec<Vec<u8>> = Vec::new();
        chunks.push(prefix_byte());
        chunks.push(s31);
        chunks.push(prefix_byte());
        chunks.push(s32);
        assert(sink::reports(chunks@) =~= handshake(
            old(self).out.seq,
            old(self).mic_seq,
            plugged,
        ));
        chunks
    }

    /// The report that unlocks the volume of a hidraw session, from the state
    /// that is tracked, so that steady rumble goes on.
    pub open spec fn unlock_shape(self) -> Seq<u8> {
        audio::state_shape(
            self.out.seq,
            sink::merged47(self.out.state@, self.p.hp_volume, self.p.output, true),
        )
    }

    fn unlock(&self) -> (r: Vec<u8>)
        ensures
            r@ == self.unlock_shape(),
    {
        let mut st: [u8; 47] = self.out.state;
        sink::merge_audio_state(&mut st, self.p.hp_volume, self.p.output, true);
        audio::state_report(self.out.seq, &st)
    }

    /// The writer on a fresh link, before it wrote anything: as new, but for
    /// the game's state, which is kept with the audio settings laid over it.
    pub open spec fn relinked(self) -> OutShape {
        OutShape {
            seq: 0,
            state: sink::merged47(self.out.state@, self.p.hp_volume, self.p.output, false),
            state63: sink::merged63(
                self.out.state63@,
                self.p.hp_volume,
                self.p.output,
                !self.p.force_speaker,
            ),
            last47: bytes::zeros(47),
        }
    }

    /// A pad link is there. Returns what is to be written first: the handshake
    /// of a direct session, or the volume unlock of a hidraw one.
    pub fn attach(&mut self, now: u64, plugged: bool) -> (r: Vec<Vec<u8>>)
        requires
            old(self).ok(),
        ensures
            final(self).ok(),
            final(self).p == old(self).p,
            !final(self).primed,
            final(self).starved == 0,
            final(self).silent == 0,
            final(self).counter == 0,
            final(self).engaged is None,
            final(self).frames_sent == 0,
            final(self).keepalive_at == now,
            final(self).next_at == (if now + WARM_UP_NS > u64::MAX {
                u64::MAX as int
            } else {
                now + WARM_UP_NS
            }),
            old(self).p.l2cap ==> {
                &&& sink::reports(r@) == handshake(0, 0, plugged)
                &&& final(self).mic_seq == 1
                &&& final(self).out@ == (OutShape { seq: 1, ..old(self).relinked() })
            },
            !old(self).p.l2cap ==> {
                &&& sink::reports(r@) == seq![final(self).unlock_shape()]
                &&& final(self).mic_seq == 0
                &&& final(self).out@ == old(self).relinked()
            },
    {
        sink::merge_audio_state(&mut self.out.state, self.p.hp_volume, self.p.output, false);
        sink::sink_merge63(
            &mut self.out.state63,
            self.p.hp_volume,
            self.p.output,
            !self.p.force_speaker,
        );
        self.out.last47 = [0; 47];
        assert(self.out.last47@ =~= bytes::zeros(47));
        self.out.seq = 0;
        self.mic_seq = 0;
        self.counter = 0;
        self.next_at = now.saturating_add(WARM_UP_NS);
        self.keepalive_at = now;
        self.engaged = None;
        self.primed = false;
        self.starved = 0;
        self.silent = 0;
        self.frames_sent = 0;
        if self.p.l2cap {
            self.shake(plugged)
        } else {
            let mut chunks: Vec<Vec<u8>> = Vec::new();
            chunks.push(self.unlock());
            assert(sink::reports(chunks@) =~= seq![self.unlock_shape()]);
            chunks
        }
    }

    /// The repeated volume unlock of a hidraw session: every 256 frames.
    pub fn periodic_unlock(&self) -> (r: Option<Vec<u8>>)
        ensures
            r is Some <==> !self.p.l2cap && self.frames_sent > 0 && self.frames_sent % 256 == 0,
            r is Some ==> (r->0)@ == self.unlock_shape(),
    {
        if !self.p.l2cap && self.frames_sent > 0 && self.frames_sent % 256 == 0 {
            Some(self.unlock())
        } else {
            None
        }
    }

    /// The output path: the jack where a headset is plugged, unless the
    /// speaker is forced.
    pub fn jack_path(&self, plugged: bool) -> (r: bool)
        ensures
            r == self.path(plugged),
    {
        if self.p.force_speaker {
            false
        } else {
            plugged
        }
    }

    /// Whether the pad has yet to be told of the output path.
    pub open spec fn engage_due(self, jack_path: bool) -> bool {
        self.p.l2cap && self.engaged != Some(jack_path)
    }

    /// Answers a change of the output path in a direct session.
    pub fn engage(&mut self, jack_path: bool) -> (r: Vec<Vec<u8>>)
        requires
            old(self).ok(),
        ensures
            final(self).ok(),
            ({
                let due = old(self).engage_due(jack_path);
                &&& sink::reports(r@) == (if due {
                    lone_state(old(self).out.seq, l2cap::mic_state_shape(jack_path))
                } else {
                    Seq::empty()
                })
                &&& final(self).engaged == (if due {
                    Some(jack_path)
                } else {
                    old(self).engaged
                })
                &&& final(self).out@ == (if due {
                    OutShape { seq: flush::next_seq(old(self).out.seq), ..old(self).out@ }
                } else {
                    old(self).out@
                })
            }),
            *final(self) == (Writer {
                out: final(self).out,
                engaged: final(self).engaged,
                ..*old(self)
            }),
    {
        let mut chunks: Vec<Vec<u8>> = Vec::new();
        let same: bool = match self.engaged {
            Some(e) => e == jack_path,
            None => false,
        };
        if self.p.l2cap && !same {
            let seq: u8 = self.out.take_seq();
            let state: [u8; 47] = l2cap::mic_state(jack_path);
            chunks.push(prefix_byte());
            chunks.push(audio::state_report(seq, &state));
            assert(sink::reports(chunks@) =~= lone_state(
                seq,
                l2cap::mic_state_shape(jack_path),
            ));
            self.engaged = Some(jack_path);
        } else {
            assert(sink::reports(chunks@) =~= Seq::empty());
        }
        chunks
    }

    /// Whether the keep-alive is due: a direct session, no audio, and two
    /// seconds since the last one.
    pub open spec fn keepalive_due(self, now: u64) -> bool {
        self.p.l2cap && !self.primed && chords::elapsed(now, self.keepalive_at) >= KEEPALIVE_NS
    }

    /// Keeps an idle pad awake: a state report that applies nothing.
    pub fn keepalive(&mut self, now: u64) -> (r: Vec<Vec<u8>>)
        requires
            old(self).ok(),
        ensures
            final(self).ok(),
            ({
                let due = old(self).keepalive_due(now);
                &&& sink::reports(r@) == (if due {
                    lone_state(old(self).out.seq, bytes::zeros(47))
                } else {
                    Seq::empty()
                })
                &&& final(self).keepalive_at == (if due {
                    now
                } else {
                    old(self).keepalive_at
                })
                &&& final(self).out@ == (if due {
                    OutShape { seq: flush::next_seq(old(self).out.seq), ..old(self).out@ }
                } else {
                    old(self).out@
                })
            }),
            *final(self) == (Writer {
                out: final(self).out,
                keepalive_at: final(self).keepalive_at,
                ..*old(self)
            }),
    {
        let mut chunks: Vec<Vec<u8>> = Vec::new();
        let long: bool = now >= self.keepalive_at && now - self.keepalive_at >= KEEPALIVE_NS;
        if self.p.l2cap && !self.primed && long {
            self.keepalive_at = now;
            let seq: u8 = self.out.take_seq();
            let state: [u8; 47] = [0; 47];
            assert(state@ =~= bytes::zeros(47));
            chunks.push(prefix_byte());
            chunks.push(audio::state_report(seq, &state));
            assert(sink::reports(chunks@) =~= lone_state(seq, bytes::zeros(47)));
        } else {
            assert(sink::reports(chunks@) =~= Seq::empty());
        }
        chunks
    }

    /// How kernel outputs are to be treated now.
    pub fn flush_params(&self, jack_path: bool) -> (r: FlushParams)
        ensures
            r == (FlushParams {
                hp_volume: self.p.hp_volume,
                output: self.p.output,
                jack_path,
                streaming: self.primed,
                combined: self.p.combined,
                l2cap: self.p.l2cap,
            }),
    {
        FlushParams {
            hp_volume: self.p.hp_volume,
            output: self.p.output,
            jack_path,
            streaming: self.primed,
            combined: self.p.combined,
            l2cap: self.p.l2cap,
        }
    }

    /// Primes the stream: on real input only. `fill` is what the ring holds
    /// once its backlog is dropped; `silent` says that the input gathered so
    /// far is silence, which counts in a direct session.
    pub fn prime(&mut self, fill: usize, silent: bool, now: u64, plugged: bool) -> (r: PrimeStep)
        requires
            old(self).ok(),
        ensures
            final(self).ok(),
            ({
                let tick = if now + IDLE_TICK_NS > u64::MAX {
                    u64::MAX
                } else {
                    (now + IDLE_TICK_NS) as u64
                };
                if old(self).primed {
                    &&& r matches PrimeStep::Go(c) && c@.len() == 0
                    &&& *final(self) == *old(self)
                } else if fill == 0 {
                    &&& r == PrimeStep::Wait(false)
                    &&& *final(self) == (Writer { starved: 0, next_at: tick, ..*old(self) })
                } else if old(self).p.l2cap && silent {
                    &&& r == PrimeStep::Wait(true)
                    &&& *final(self) == (Writer { next_at: tick, ..*old(self) })
                } else {
                    &&& r is Go
                    &&& sink::reports(r->Go_0@) == (if old(self).p.l2cap {
                        handshake(old(self).out.seq, old(self).mic_seq, plugged)
                    } else {
                        Seq::empty()
                    })
                    &&& final(self).out@ == (if old(self).p.l2cap {
                        OutShape { seq: flush::next_seq(old(self).out.seq), ..old(self).out@ }
                    } else {
                        old(self).out@
                    })
                    &&& final(self).mic_seq == (if old(self).p.l2cap {
                        flush::next_seq(old(self).mic_seq)
                    } else {
                        old(self).mic_seq
                    })
                    &&& *final(self) == (Writer {
                        primed: true,
                        starved: 0,
                        out: final(self).out,
                        mic_seq: final(self).mic_seq,
                        ..*old(self)
                    })
                }
            }),
    {
        if self.primed {
            return PrimeStep::Go(Vec::new());
        }
        if fill == 0 {
            self.starved = 0;
            self.next_at = now.saturating_add(IDLE_TICK_NS);
            return PrimeStep::Wait(false);
        }
        if self.p.l2cap && silent {
            self.next_at = now.saturating_add(IDLE_TICK_NS);
            return PrimeStep::Wait(true);
        }
        self.primed = true;
        self.starved = 0;
        if self.p.l2cap {
            PrimeStep::Go(self.shake(plugged))
        } else {
            let none: Vec<Vec<u8>> = Vec::new();
            assert(sink::reports(none@) =~= Seq::empty());
            PrimeStep::Go(none)
        }
    }

    /// Counts frames without enough input; after thirty of them in a row the
    /// stream goes idle, so that the pad's buffer drains.
    pub fn input(&mut self, enough: bool) -> (r: InputStep)
        requires
            old(self).ok(),
            old(self).primed,
        ensures
            final(self).ok(),
            enough ==> r == InputStep::Enough && *final(self) == (Writer {
                starved: 0,
                ..*old(self)
            }),
            !enough && old(self).starved < 30 ==> r == InputStep::Pad && *final(self) == (Writer {
                starved: (old(self).starved + 1) as u32,
                ..*old(self)
            }),
            !enough && old(self).starved == 30 ==> r == InputStep::Idle && *final(self) == (
            Writer { starved: 31, primed: false, ..*old(self) }),
    {
        if enough {
            self.starved = 0;
            return InputStep::Enough;
        }
        self.starved = self.starved + 1;
        if self.starved > 30 {
            self.primed = false;
            InputStep::Idle
        } else {
            InputStep::Pad
        }
    }

    /// The silence gate of a direct session: a frame of silence is not sent,
    /// and after thirty of them in a row the stream goes idle.
    pub fn silence(&mut self, silent: bool, now: u64) -> (r: SilenceStep)
        requires
            old(self).ok(),
        ensures
            final(self).ok(),
            if old(self).p.l2cap && silent {
                let next = rescheduled(old(self).next_at, old(self).p.interval_ns as int, now) as u64;
                let over = old(self).silent == 29;
                &&& r == SilenceStep::Skip(sleep_for(next as int, now) as u64)
                &&& *final(self) == (Writer {
                    starved: 0,
                    silent: if over {
                        0
                    } else {
                        (old(self).silent + 1) as u32
                    },
                    primed: old(self).primed && !over,
                    next_at: next,
                    ..*old(self)
                })
            } else {
                &&& r == SilenceStep::Send
                &&& *final(self) == (Writer { silent: 0, ..*old(self) })
            },
    {
        if !(self.p.l2cap && silent) {
            self.silent = 0;
            return SilenceStep::Send;
        }
        self.starved = 0;
        self.silent = self.silent + 1;
        if self.silent >= 30 {
            self.primed = false;
            self.silent = 0;
        }
        self.next_at = reschedule(self.next_at, self.p.interval_ns, now);
        SilenceStep::Skip(sleep_time(self.next_at, now))
    }

    /// The report of a frame of haptics without audio.
    pub fn pack_haptics(&mut self, hap: &[u8; 64]) -> (r: Vec<u8>)
        requires
            old(self).ok(),
            old(self).p.haptics_only,
            old(self).frames_sent < u64::MAX,
        ensures
            final(self).ok(),
            r@ == audio::haptics_shape(old(self).out.seq, old(self).counter, hap@),
            final(self).out@ == (OutShape {
                seq: flush::next_seq(old(self).out.seq),
                ..old(self).out@
            }),
            final(self).counter == (old(self).counter + 2) % 256,
            final(self).frames_sent == old(self).frames_sent + 1,
            *final(self) == (Writer {
                out: final(self).out,
                counter: final(self).counter,
                frames_sent: final(self).frames_sent,
                ..*old(self)
            }),
    {
        let seq: u8 = self.out.take_seq();
        let report: Vec<u8> = audio::haptics_report_0x32(seq, self.counter, hap);
        self.counter = self.counter.wrapping_add(2);
        self.frames_sent = self.frames_sent + 1;
        report
    }

    /// The state after an audio frame went out over a path.
    pub open spec fn sent_state(self, jack: bool) -> OutShape {
        let n63 = sink::merged63(self.out.state63@, self.p.hp_volume, self.p.output, jack);
        if self.p.l2cap {
            OutShape {
                seq: flush::next_seq(self.out.seq),
                state: self.out.state@,
                state63: n63,
                last47: n63.subrange(0, 47),
            }
        } else {
            OutShape {
                seq: flush::next_seq(self.out.seq),
                state: sink::merged47(self.out.state@, self.p.hp_volume, self.p.output, jack),
                state63: self.out.state63@,
                last47: self.out.last47@,
            }
        }
    }

    /// The report of an encoded frame: that of a direct session behind the
    /// HIDP byte, a combined one, or an audio-only one.
    pub open spec fn sent_report(self, frame: Seq<u8>, hap: Seq<u8>, jack: bool) -> Seq<u8> {
        let s = self.sent_state(jack);
        if self.p.l2cap {
            flush::prefixed(
                audio::l2cap_shape(
                    self.out.seq,
                    self.counter,
                    s.state63,
                    hap,
                    frame + bytes::zeros((200 - frame.len()) as nat),
                    jack,
                ),
            )
        } else if self.p.combined {
            sink::combined_shape(self.out.seq, self.counter, s.state, hap, frame, jack)
        } else if self.p.report_id == 0x39 {
            audio::frame_shape(0x39, self.out.seq, self.counter, frame, jack, 547)
        } else {
            audio::frame_shape(0x35, self.out.seq, self.counter, frame, jack, 334)
        }
    }

    /// Whether an encoded frame can be sent: it has the size that a constant
    /// bit rate gives.
    pub open spec fn sendable(self, frame: Seq<u8>) -> bool {
        frame.len() > 0 && frame.len() == self.p.bytes_per_frame
    }

    /// The report of an encoded frame. A frame of the wrong size is dropped.
    pub fn pack_audio(&mut self, frame: &[u8], hap: &[u8; 64], jack: bool) -> (r: Option<Vec<u8>>)
        requires
            old(self).ok(),
            !old(self).p.haptics_only,
            old(self).frames_sent < u64::MAX,
            old(self).sendable(frame@) && old(self).p.l2cap ==> frame@.len() <= 200,
            old(self).sendable(frame@) && old(self).p.combined ==> frame@.len() <= 254,
        ensures
            final(self).ok(),
            r is Some <==> old(self).sendable(frame@),
            r is None ==> *final(self) == *old(self),
            r is Some ==> {
                &&& (r->0)@ == old(self).sent_report(frame@, hap@, jack)
                &&& final(self).out@ == old(self).sent_state(jack)
                &&& final(self).counter == (old(self).counter + (if old(self).p.combined {
                    1int
                } else {
                    2
                })) % 256
                &&& final(self).frames_sent == old(self).frames_sent + 1
                &&& *final(self) == (Writer {
                    out: final(self).out,
                    counter: final(self).counter,
                    frames_sent: final(self).frames_sent,
                    ..*old(self)
                })
            },
    {
        if frame.len() == 0 || frame.len() != self.p.bytes_per_frame {
            return None;
        }
        let seq: u8 = self.out.take_seq();
        self.frames_sent = self.frames_sent + 1;
        if self.p.l2cap {
            sink::sink_merge63(
                &mut self.out.state63,
                self.p.hp_volume,
                self.p.output,
                jack,
            );
            let f200: [u8; 200] = fill200(frame);
            let report: Vec<u8> = audio::audio_report_036_bt(
                seq,
                self.counter,
                &self.out.state63,
                hap,
                &f200,
                jack,
            );
            self.counter = self.counter.wrapping_add(1);
            self.out.last47 = self.out.head47();
            Some(flush::with_prefix(report.as_slice()))
        } else {
            sink::merge_audio_state(&mut self.out.state, self.p.hp_volume, self.p.output, jack);
            if self.p.combined {
                let report: Vec<u8> = sink::audio_report_0x36(
                    seq,
                    self.counter,
                    &self.out.state,
                    hap,
                    frame,
                    jack,
                );
                self.counter = self.counter.wrapping_add(1);
                Some(report)
            } else {
                let f200: [u8; 200] = fill200(frame);
                assert(f200@ =~= frame@);
                let report: Vec<u8> = if self.p.report_id == 0x39 {
                    audio::audio_report_0x39(seq, self.counter, &f200, jack)
                } else {
                    audio::audio_report(seq, self.counter, &f200, jack)
                };
                self.counter = self.counter.wrapping_add(2);
                Some(report)
            }
        }
    }

    /// Paces the stream by the ring's fill. Returns how long to sleep.
    pub fn pace(&mut self, fill: usize, now: u64) -> (r: u64)
        requires
            old(self).ok(),
            fill <= sink::RING_CAP,
        ensures
            final(self).ok(),
            ({
                let next = rescheduled(
                    old(self).next_at,
                    steered(old(self).p.interval_ns as int, fill as int),
                    now,
                );
                &&& *final(self) == (Writer { next_at: next as u64, ..*old(self) })
                &&& r == sleep_for(next, now)
            }),
    {
        let n: u64 = fill as u64;
        let target: u64 = sink::TARGET_FILL_FRAMES as u64;
        let base: u64 = self.p.interval_ns;
        let wanted: u64 = if n <= target {
            base + (target - n) * STEER_NS
        } else {
            let less: u64 = (n - target) * STEER_NS;
            if base > less {
                base - less
            } else {
                0
            }
        };
        let add: u64 = if wanted < MIN_INTERVAL_NS {
            MIN_INTERVAL_NS
        } else {
            wanted
        };
        assert(add == steered(base as int, fill as int));
        self.next_at = reschedule(self.next_at, add, now);
        sleep_time(self.next_at, now)
    }
}

/// After a fresh link the first kernel output is relayed, whatever the pad was
/// told over the link before.
pub proof fn first_output_after_a_relink_is_relayed(w: Writer, rpt: Seq<u8>, p: FlushParams)
    requires
        w.ok(),
        p.l2cap,
        !p.streaming,
        flush::kernel_state(rpt) is Some,
    ensures
        flush::relayed(w.relinked(), rpt, p) is Some,
{
    let st = flush::kernel_state(rpt)->0;
    let s = w.relinked();
    let n = flush::overlaid63(s.state63, st, p);
    let a = st[0];
    assert((a | 0x10) & 0xDF != 0 && a | 0x20 != 0) by (bit_vector);
    assert(n.subrange(0, 47)[0] == n[0]);
    assert(s.last47[0] == 0);
}

/// A fresh link keeps what games set: motors, triggers, lights and all else
/// but the audio settings.
pub proof fn game_state_survives_a_relink(w: Writer, i: int)
    requires
        w.ok(),
        0 <= i < 63,
        i != 0,
        i != 1,
        i != 4,
        i != 5,
        i != 7,
        i != 37,
    ensures
        w.relinked().state63[i] == w.out.state63@[i],
        i < 47 ==> w.relinked().state[i] == w.out.state@[i],
{
}

/// The pad is told of a path once: told, it is not due again until the path
/// changes.
pub proof fn path_is_told_once(w: Writer, path: bool)
    ensures
        !(Writer { engaged: Some(path), ..w }).engage_due(path),
        w.p.l2cap ==> (Writer { engaged: Some(path), ..w }).engage_due(!path),
{
}

/// Keep-alives are at least two seconds apart.
pub proof fn keepalives_are_spaced(w: Writer, sent: u64, now: u64)
    requires
        now < sent + 2_000_000_000,
    ensures
        !(Writer { keepalive_at: sent, ..w }).keepalive_due(now),
{
}

/// An idle pad of a direct session is kept awake: two seconds after the last
/// keep-alive the next one is due; a stream needs none, and a hidraw session
/// has none.
pub proof fn idle_pads_are_kept_awake(w: Writer, now: u64)
    ensures
        w.p.l2cap && !w.primed && now >= w.keepalive_at + 2_000_000_000 ==> w.keepalive_due(now),
        w.primed || !w.p.l2cap ==> !w.keepalive_due(now),
{
}

/// Steering: on target the interval is the configured one, a fuller ring never
/// slows the stream down, and no two frames are closer than the shortest time.
pub proof fn steering_follows_the_ring(interval_ns: int, a: int, b: int)
    requires
        a <= b,
    ensures
        steered(interval_ns, a) >= steered(interval_ns, b),
        steered(interval_ns, a) >= 9_000_000,
        interval_ns >= 9_000_000 ==> steered(interval_ns, 4) == interval_ns,
        steered(interval_ns, b) > 9_000_000 ==> steered(interval_ns, a) - steered(interval_ns, b)
            == 3_000 * (b - a),
{
}

fn prefix_byte() -> (r: Vec<u8>)
    ensures
        r@ == seq![0xA2u8],
{
    let mut v: Vec<u8> = Vec::new();
    v.push(0xA2);
    assert(v@ =~= seq![0xA2u8]);
    v
}

fn fill200(frame: &[u8]) -> (r: [u8; 200])
    requires
        frame@.len() <= 200,
    ensures
        r@ == frame@ + bytes::zeros((200 - frame@.len()) as nat),
{
    let mut out: [u8; 200] = [0; 200];
    let mut i: usize = 0;
    while i < frame.len()
        invariant
            i <= frame@.len() <= 200,
            forall|j: int| 0 <= j < i ==> out@[j] == frame@[j],
            forall|j: int| i <= j < 200 ==> out@[j] == 0,
        decreases frame@.len() - i,
    {
        out[i] = frame[i];
        i = i + 1;
    }
    assert(out@ =~= frame@ + bytes::zeros((200 - frame@.len()) as nat));
    out
}

/// The writer's times: half a second until the first frame over a fresh link,
/// 20 ms between two looks at an empty ring, and a configured interval that
/// can be counted in nanoseconds.
pub proof fn times_of_the_writer(interval_us: u64)
    ensures
        WARM_UP_NS == 500_000_000,
        IDLE_TICK_NS == 20_000_000,
        interval_us <= MAX_INTERVAL_US ==> 1000 * interval_us <= u64::MAX,
{
}

/// A schedule keeps its beat while it is late by 200 ms at most, and starts
/// over from now beyond that; the writer sleeps until the time that it names
/// and no longer.
pub proof fn schedule_keeps_its_beat(due: u64, add: int, now: u64)
    requires
        add >= 0,
        due + add <= u64::MAX,
    ensures
        now - (due + add) <= 200_000_000 ==> rescheduled(due, add, now) == due + add,
        now - (due + add) > 200_000_000 ==> rescheduled(due, add, now) == now,
        now + sleep_for(rescheduled(due, add, now), now) >= rescheduled(due, add, now),
        sleep_for(rescheduled(due, add, now), now) > 0 ==> now + sleep_for(
            rescheduled(due, add, now),
            now,
        ) == rescheduled(due, add, now),
        sleep_for(rescheduled(due, add, now), now) >= 0,
{
}

/// The bit rate is the configured one where the encoder takes it, the nearest
/// that it takes where it does not, and 160 kbit/s where none is configured.
pub proof fn bitrate_stays_in_range(b: i32)
    ensures
        6_000 <= clamped_bitrate(Some(b)) <= 510_000,
        6_000 <= b <= 510_000 ==> clamped_bitrate(Some(b)) == b,
        b < 6_000 ==> clamped_bitrate(Some(b)) == 6_000,
        b > 510_000 ==> clamped_bitrate(Some(b)) == 510_000,
        clamped_bitrate(None) == 160_000,
{
}

/// The state in an audio frame of a direct session agrees with the frame's own
/// path, on the wire: the HIDP byte, the head, the state from byte 14 on, the
/// haptics from 79 on, the path mark at 143, the frame from 145 on. On the
/// jack the speaker's volume, its control and the preamplifier are off and the
/// path bits clear; on the speaker they are on and set. The rest of the state
/// is the game's.
pub proof fn audio_state_agrees_with_its_path(
    w: Writer,
    frame: Seq<u8>,
    hap: Seq<u8>,
    jack: bool,
    i: int,
)
    requires
        w.ok(),
        w.p.l2cap,
        frame.len() <= 200,
        hap.len() == 64,
        0 <= i < 200,
    ensures
        ({
            let r = w.sent_report(frame, hap, jack);
            let s = w.out.state63@;
            &&& r.len() == 399
            &&& r[0] == 0xA2
            &&& r[1] == 0x36
            &&& r[2] >> 4 == w.out.seq
            &&& r[11] == w.counter
            &&& jack ==> {
                &&& r[14] & 0x10 != 0 && r[14] & 0x20 == 0
                &&& r[15] & 0x80 == 0
                &&& r[19] == 0
                &&& r[21] & 0x30 == 0
                &&& r[51] == 0
                &&& r[143] == 0x96
            }
            &&& !jack ==> {
                &&& r[14] & 0x20 != 0
                &&& r[15] & 0x80 != 0
                &&& r[19] == (if w.p.output {
                    0x64u8
                } else {
                    0
                })
                &&& r[21] & 0x30 == 0x30
                &&& r[51] == 1
                &&& r[143] == 0x93
            }
            &&& r[18] == (if !w.p.output {
                0u8
            } else if w.p.hp_volume > 0x7F {
                0x7F
            } else {
                w.p.hp_volume
            })
            &&& i < 63 && !flush::audio_byte(i) ==> r[14 + i] == s[i]
            &&& i < 64 ==> r[79 + i] == hap[i]
            &&& r[144] == 200
            &&& r[145 + i] == (if i < frame.len() {
                frame[i]
            } else {
                0
            })
        }),
{
    let s = w.out.state63@;
    let n = sink::merged63(s, w.p.hp_volume, w.p.output, jack);
    assert(w.sent_state(jack).state63 == n);
    let full = frame + bytes::zeros((200 - frame.len()) as nat);
    audio::direct_report_reads_back(w.out.seq, w.counter, n, hap, full, jack, i);
    audio::direct_report_reads_back(w.out.seq, w.counter, n, hap, full, jack, 0);
    audio::direct_report_reads_back(w.out.seq, w.counter, n, hap, full, jack, 1);
    audio::direct_report_reads_back(w.out.seq, w.counter, n, hap, full, jack, 4);
    audio::direct_report_reads_back(w.out.seq, w.counter, n, hap, full, jack, 5);
    audio::direct_report_reads_back(w.out.seq, w.counter, n, hap, full, jack, 7);
    audio::direct_report_reads_back(w.out.seq, w.counter, n, hap, full, jack, 37);
    sink::direct_state_says_one_path(s, w.p.hp_volume, w.p.output, jack, if i < 63 {
        i
    } else {
        0
    });
}

/// A combined report of a hidraw session agrees with its path in the same way:
/// the state from byte 13 on, with the path bits at byte 20, the path mark at
/// 142 and the frame from 144 on.
pub proof fn combined_state_agrees_with_its_path(
    w: Writer,
    frame: Seq<u8>,
    hap: Seq<u8>,
    jack: bool,
    i: int,
)
    requires
        w.ok(),
        !w.p.l2cap,
        w.p.combined,
        frame.len() <= 250,
        hap.len() == 64,
        0 <= i < 250,
    ensures
        ({
            let r = w.sent_report(frame, hap, jack);
            let s = w.out.state@;
            &&& r.len() == 398
            &&& r[0] == 0x36
            &&& r[1] >> 4 == w.out.seq
            &&& r[10] == w.counter
            &&& r[13] & 0xF0 == 0xF0 && r[13] & 0x0F == s[0] & 0x0F
            &&& r[14] & 0x80 != 0
            &&& r[20] & 0x30 == (if jack {
                0u8
            } else {
                0x30
            })
            &&& r[142] == (if jack {
                0x96u8
            } else {
                0x93
            })
            &&& i < 47 && !flush::audio_byte(i) ==> r[13 + i] == s[i]
            &&& i < 64 ==> r[78 + i] == hap[i]
            &&& r[143] == frame.len()
            &&& i < frame.len() ==> r[144 + i] == frame[i]
        }),
{
    let s = w.out.state@;
    let n = sink::merged47(s, w.p.hp_volume, w.p.output, jack);
    sink::combined_report_reads_back(w.out.seq, w.counter, n, hap, frame, jack, i);
    sink::combined_report_reads_back(w.out.seq, w.counter, n, hap, frame, jack, 0);
    sink::combined_report_reads_back(w.out.seq, w.counter, n, hap, frame, jack, 1);
    sink::combined_report_reads_back(w.out.seq, w.counter, n, hap, frame, jack, 7);
    sink::hidraw_state_says_one_path(s, w.p.hp_volume, w.p.output, jack, if i < 47 {
        i
    } else {
        0
    });
}

/// An audio-only report of a hidraw session is of the configured kind, 0x35 of
/// 334 bytes or 0x39 of 547, and carries the path mark and the frame.
pub proof fn audio_only_reports_carry_the_frame(
    w: Writer,
    frame: Seq<u8>,
    hap: Seq<u8>,
    jack: bool,
    i: int,
)
    requires
        w.ok(),
        !w.p.combined,
        frame.len() == 200,
        0 <= i < 200,
    ensures
        ({
            let r = w.sent_report(frame, hap, jack);
            &&& w.p.report_id == 0x39 ==> r[0] == 0x39 && r.len() == 547
            &&& w.p.report_id != 0x39 ==> r[0] == 0x35 && r.len() == 334
            &&& r[1] >> 4 == w.out.seq
            &&& r[9] == w.counter
            &&& r[11] == (if jack {
                0x96u8
            } else {
                0x93
            })
            &&& r[12] == 200
            &&& r[13 + i] == frame[i]
        }),
{
    audio::frame_reads_back(0x39, w.out.seq, w.counter, frame, jack, 547, i);
    audio::frame_reads_back(0x35, w.out.seq, w.counter, frame, jack, 334, i);
}

/// What the writer remembers of a frame is what it sent: the state on the wire
/// of a direct session is the tracked one, and the one that the pad was told;
/// the other session's state stays, and the sequence number counts up.
pub proof fn sent_state_is_remembered(w: Writer, frame: Seq<u8>, hap: Seq<u8>, jack: bool, i: int)
    requires
        w.ok(),
        w.p.combined,
        frame.len() <= 200,
        hap.len() == 64,
        0 <= i < 63,
    ensures
        w.sent_state(jack).seq == (w.out.seq + 1) % 16,
        w.p.l2cap ==> {
            &&& w.sent_report(frame, hap, jack)[14 + i] == w.sent_state(jack).state63[i]
            &&& w.sent_state(jack).last47.len() == 47
            &&& i < 47 ==> w.sent_state(jack).last47[i] == w.sent_state(jack).state63[i]
            &&& w.sent_state(jack).state == w.out.state@
        },
        !w.p.l2cap && i < 47 ==> {
            &&& w.sent_report(frame, hap, jack)[13 + i] == w.sent_state(jack).state[i]
            &&& w.sent_state(jack).state63 == w.out.state63@
        },
{
    let full = frame + bytes::zeros((200 - frame.len()) as nat);
    if w.p.l2cap {
        let n = w.sent_state(jack).state63;
        audio::direct_report_reads_back(w.out.seq, w.counter, n, hap, full, jack, i);
    } else {
        let n = w.sent_state(jack).state;
        sink::combined_report_reads_back(w.out.seq, w.counter, n, hap, frame, jack, i);
    }
}

/// Over a fresh link the sequence starts over, the pad counts as told nothing,
/// and the tracked states have the path that the session starts with: the
/// speaker where it is forced, the jack of a direct session else.
pub proof fn fresh_links_start_over(w: Writer, i: int)
    requires
        w.ok(),
        0 <= i < 47,
    ensures
        ({
            let n = w.relinked();
            &&& n.seq == 0
            &&& n.last47.len() == 47 && n.last47[i] == 0
            &&& n.state63[7] & 0x30 == (if w.p.force_speaker {
                0x30u8
            } else {
                0
            })
            &&& (n.state63[0] & 0x20 != 0 <==> w.p.force_speaker)
            &&& n.state[7] & 0x30 == 0x30
            &&& n.state[0] & 0xF0 == 0xF0
        }),
{
    sink::direct_state_says_one_path(
        w.out.state63@,
        w.p.hp_volume,
        w.p.output,
        !w.p.force_speaker,
        i,
    );
    sink::hidraw_state_says_one_path(w.out.state@, w.p.hp_volume, w.p.output, false, i);
}

/// The volume unlock of a hidraw session is a state report that keeps the
/// game's part of the state, enables all volumes, and takes the jack's path.
pub proof fn unlocking_keeps_the_game(w: Writer, i: int)
    requires
        w.ok(),
        0 <= i < 47,
    ensures
        ({
            let r = w.unlock_shape();
            &&& r.len() == 78
            &&& r[0] == 0x31
            &&& r[1] >> 4 == w.out.seq
            &&& r[3] & 0xF0 == 0xF0 && r[3] & 0x0F == w.out.state@[0] & 0x0F
            &&& r[10] & 0x30 == 0
            &&& !flush::audio_byte(i) ==> r[3 + i] == w.out.state@[i]
        }),
{
    let n = sink::merged47(w.out.state@, w.p.hp_volume, w.p.output, true);
    audio::state_reads_back(w.out.seq, n, i);
    audio::state_reads_back(w.out.seq, n, 0);
    audio::state_reads_back(w.out.seq, n, 7);
    sink::hidraw_state_says_one_path(w.out.state@, w.p.hp_volume, w.p.output, true, i);
}

/// The handshake before audio tells the pad its path and opens the microphone:
/// four chunks, each report behind the HIDP byte, the state's path bits set
/// for the speaker and clear for the jack.
pub proof fn handshake_tells_the_path(seq: u8, mic_seq: u8, plugged: bool)
    requires
        seq < 16,
        mic_seq < 16,
    ensures
        ({
            let h = handshake(seq, mic_seq, plugged);
            &&& h.len() == 4
            &&& h[0] == seq![0xA2u8] && h[2] == seq![0xA2u8]
            &&& h[1].len() == 78 && h[1][0] == 0x31 && h[1][1] >> 4 == seq
            &&& h[1][10] == (if plugged {
                0x09u8
            } else {
                0x39
            })
            &&& h[3].len() == 142 && h[3][0] == 0x32 && h[3][1] >> 4 == mic_seq
            &&& h[3][4] == 0xFF
        }),
{
    audio::state_reads_back(seq, l2cap::mic_state_shape(plugged), 7);
    audio::microphone_opens_and_closes(mic_seq, true, 0);
}

/// A state on its own is one report behind the HIDP byte.
pub proof fn lone_states_are_one_report(seq: u8, state: Seq<u8>, i: int)
    requires
        seq < 16,
        state.len() == 47,
        0 <= i < 47,
    ensures
        lone_state(seq, state).len() == 2,
        lone_state(seq, state)[0] == seq![0xA2u8],
        lone_state(seq, state)[1].len() == 78,
        lone_state(seq, state)[1][0] == 0x31,
        lone_state(seq, state)[1][1] >> 4 == seq,
        lone_state(seq, state)[1][3 + i] == state[i],
{
    audio::state_reads_back(seq, state, i);
}

/// The pad of a direct session is due to be told of a path exactly while it
/// was not told of that one; a hidraw session tells it otherwise.
pub proof fn untold_paths_are_due(w: Writer, path: bool)
    ensures
        w.p.l2cap && w.engaged is None ==> w.engage_due(path),
        w.p.l2cap && w.engaged == Some(!path) ==> w.engage_due(path),
        w.engaged == Some(path) || !w.p.l2cap ==> !w.engage_due(path),
        w.path(true) == !w.p.force_speaker,
        !w.path(false),
{
}

// --------------------------------------------------------- haptics, averaged

/// The groups of a frame of at least 32 pairs follow each other without a gap
/// or an overlap, from the first pair to the last.
pub proof fn groups_cover_the_frame(h: int, n: int)
    requires
        0 <= h < 32,
        n >= 32,
    ensures
        group_start(0, n) == 0,
        group_end(31, n) == n,
        h < 31 ==> group_end(h, n) == group_start(h + 1, n),
        group_start(h, n) < group_end(h, n),
        n == 480 ==> group_start(h, n) == 15 * h && group_size(h, n) == 15,
{
    assert((h + 1) * n == h * n + n) by (nonlinear_arith);
    assert(0 * n == 0) by (nonlinear_arith);
    assert((h + 1) * n <= 32 * n) by (nonlinear_arith)
        requires
            h < 32,
            n >= 32,
    ;
    assert(n == 480 ==> h * n == 480 * h) by (nonlinear_arith);
    assert(h == 31 ==> (h + 1) * n == 32 * n) by (nonlinear_arith);
}

/// A sum of values between two bounds.
proof fn sum_is_bounded(s: Seq<(i32, i32)>, left: bool, from: int, to: int, lo: int, hi: int)
    requires
        0 <= from <= to <= s.len(),
        forall|i: int|
            from <= i < to ==> lo <= (if left {
                (#[trigger] s[i]).0
            } else {
                s[i].1
            }) <= hi,
    ensures
        lo * (to - from) <= channel_sum(s, left, from, to) <= hi * (to - from),
    decreases to - from,
{
    if from < to {
        sum_is_bounded(s, left, from, to - 1, lo, hi);
        assert(lo <= (if left {
            s[to - 1].0
        } else {
            s[to - 1].1
        }) <= hi);
        assert(lo * (to - from) == lo * (to - 1 - from) + lo) by (nonlinear_arith);
        assert(hi * (to - from) == hi * (to - 1 - from) + hi) by (nonlinear_arith);
    } else {
        assert(lo * 0 == 0 && hi * 0 == 0) by (nonlinear_arith);
    }
}

/// A mean of values between two bounds lies between them.
proof fn mean_is_bounded(sum: int, c: int, lo: int, hi: int)
    requires
        c >= 1,
        lo * c <= sum <= hi * c,
    ensures
        lo <= trunc_div(sum, c) <= hi,
{
    if sum >= 0 {
        let q = sum / c;
        assert(q * c <= sum < q * c + c) by (nonlinear_arith)
            requires
                q == sum / c,
                c >= 1,
        ;
        assert(lo <= q <= hi) by (nonlinear_arith)
            requires
                q * c <= sum < q * c + c,
                lo * c <= sum <= hi * c,
                c >= 1,
        ;
    } else {
        let m = -sum;
        let q = m / c;
        assert(q * c <= m < q * c + c) by (nonlinear_arith)
            requires
                q == m / c,
                c >= 1,
        ;
        assert(lo <= -q <= hi) by (nonlinear_arith)
            requires
                q * c <= m < q * c + c,
                m == -sum,
                lo * c <= sum <= hi * c,
                c >= 1,
        ;
    }
}

/// A haptic frame plays what came in: the even bytes are the left channel and
/// the odd ones the right, and each, read as a signed byte, lies between the
/// least and the greatest sample of its own group and channel, scaled to eight
/// bits. So a steady signal is played as it is.
pub proof fn haptics_stay_between_their_samples(
    s: Seq<(i32, i32)>,
    left: bool,
    h: int,
    lo: int,
    hi: int,
)
    requires
        s.len() >= 32,
        0 <= h < 32,
        -32767 <= lo <= hi <= 32767,
        forall|i: int|
            group_start(h, s.len() as int) <= i < group_end(h, s.len() as int) ==> lo <= (
            if left {
                (#[trigger] s[i]).0
            } else {
                s[i].1
            }) <= hi,
    ensures
        ({
            let b = haptic_frame(s)[if left {
                2 * h
            } else {
                2 * h + 1
            }];
            let v = if b >= 128 {
                b - 256
            } else {
                b as int
            };
            let floor = if lo >= 0 {
                lo / 256
            } else {
                -((-lo) / 256)
            };
            let ceiling = if hi >= 0 {
                hi / 256
            } else {
                -((-hi) / 256)
            };
            floor <= v <= ceiling
        }),
{
    let n = s.len() as int;
    let from = group_start(h, n);
    let to = group_end(h, n);
    let c = group_size(h, n);
    groups_cover_the_frame(h, n);
    assert(0 <= from) by (nonlinear_arith)
        requires
            from == h * n / 32,
            h >= 0,
            n >= 32,
    ;
    assert(to <= n);
    assert(c == to - from);
    sum_is_bounded(s, left, from, to, lo, hi);
    mean_is_bounded(channel_sum(s, left, from, to), c, lo, hi);
    let at = if left {
        2 * h
    } else {
        2 * h + 1
    };
    assert(at % 2 == (if left {
        0int
    } else {
        1
    }) && at / 2 == h);
    assert(haptic_frame(s)[at] == haptic_value(s, left, h));
}

/// State, haptics and audio ride in one report in every direct session, and in
/// a hidraw one where the configuration asks for report 0x36.
pub proof fn direct_sessions_combine(cfg: AudioConfig)
    ensures
        is_combined(cfg, true),
        is_combined(cfg, false) <==> cfg.report is Some && (cfg.report->0)@ == "0x36"@,
{
}

/// A frame is sent where the encoder gave the size that it was set to, and
/// dropped where it gave nothing or anything else.
pub proof fn frames_of_the_right_size_are_sent(w: Writer, frame: Seq<u8>)
    ensures
        w.sendable(frame) <==> frame.len() == w.p.bytes_per_frame && w.p.bytes_per_frame != 0,
{
}

/// A value of eight bits with a sign is its byte in two's complement; beyond
/// that it ends at the nearest bound.
pub proof fn signed_bytes_saturate(v: int)
    ensures
        0 <= v <= 127 ==> signed_byte(v) == v,
        -128 <= v < 0 ==> signed_byte(v) == 256 + v,
        v > 127 ==> signed_byte(v) == 127,
        v < -128 ==> signed_byte(v) == 128,
{
}

} // verus!
