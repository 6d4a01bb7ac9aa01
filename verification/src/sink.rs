//! The audio sink's shared state: what the pad is told, the queue of kernel
//! outputs, and the live switches.

use std::collections::VecDeque;

use vstd::prelude::*;

use crate::audio;
use crate::bytes;
use crate::crc;
use crate::text;

verus! {

/// Samples of an audio frame.
pub const FRAME_SAMPLES: usize = 480;

/// Frames that the ring is steered to hold.
pub const TARGET_FILL_FRAMES: usize = 4;

/// Most frames that the ring holds.
pub const RING_CAP: usize = 64;

/// Most reports that wait for the writer.
pub const OUT_Q_CAP: usize = 16;

/// Most sample pairs that wait to be forwarded.
pub const FWD_CAP: usize = 4800;

pub const MODE_PAD: u8 = 0;

pub const MODE_FORWARD: u8 = 1;

pub const MODE_MUTE: u8 = 2;

/// The state that the writer starts from.
pub const STATE_INIT: [u8; 47] = [
    0xFD, 0xF7, 0x00, 0x00, 0x7F, 0x64, 0x08, 0x09, 0x00, 0x0F, 0x00, 0x00, 0x00, 0x00, 0x00, 0x00,
    0x00, 0x00, 0x00, 0x00, 0x00, 0x00, 0x00, 0x00, 0x00, 0x00, 0x00, 0x00, 0x00, 0x00, 0x00, 0x00,
    0x00, 0x00, 0x00, 0x00, 0x00, 0x01, 0x07, 0x00, 0x00, 0x02, 0x01, 0x00, 0xFF, 0xD7, 0x00,
];

// ---------------------------------------------------------------- cabled reports

/// Cabled report that takes the headphone (or the speaker) into use.
pub open spec fn engage_shape(jack: bool) -> Seq<u8> {
    seq![
        0x02u8,
        if jack {
            0xDD
        } else {
            0xED
        },
        if jack {
            0x77
        } else {
            0xF7
        },
        0,
        0,
        0x7F,
        if jack {
            0x00
        } else {
            0x64
        },
        0x08,
        if jack {
            0x09
        } else {
            0x39
        },
        0,
        0x0F,
    ] + bytes::zeros(27) + seq![
        if jack {
            0x00u8
        } else {
            0x01
        },
        0x07,
        0,
        0,
        0x02,
        0x01,
        0,
        0xFF,
        0xD7,
        0,
    ]
}

/// Cabled report on a change of the jack: the initial state, with the
/// headphone volume on and the speaker muted, or the reverse.
pub fn usb_engage_report(jack_path: bool) -> (r: [u8; 48])
    ensures
        r@ == engage_shape(jack_path),
{
    let mut rpt: [u8; 48] = [0; 48];
    rpt[0] = 0x02;
    let base: [u8; 47] = STATE_INIT;
    let mut i: usize = 0;
    while i < 47
        invariant
            i <= 47,
            base == STATE_INIT,
            rpt@[0] == 0x02,
            forall|j: int| 0 <= j < i ==> rpt@[j + 1] == base@[j],
        decreases 47 - i,
    {
        rpt[i + 1] = base[i];
        i = i + 1;
    }
    assert((0xFDu8 | 0x10) & !0x20u8 == 0xDD && 0xF7u8 & !0x80u8 == 0x77 && (0x09u8 & !0x30u8) | 0x00
        == 0x09 && (0xFDu8 | 0x20) & !0x10u8 == 0xED && 0xF7u8 | 0x80 == 0xF7 && (0x09u8 & !0x30u8)
        | 0x30 == 0x39) by (bit_vector);
    if jack_path {
        rpt[1] = (rpt[1] | 0x10) & !0x20u8;
        rpt[2] = rpt[2] & !0x80u8;
        rpt[5] = 0x7F;
        rpt[6] = 0x00;
        rpt[8] = (rpt[8] & !0x30u8) | 0x00;
        rpt[38] = 0x00;
    } else {
        rpt[1] = (rpt[1] | 0x20) & !0x10u8;
        rpt[2] = rpt[2] | 0x80;
        rpt[6] = 0x64;
        rpt[8] = (rpt[8] & !0x30u8) | 0x30;
        rpt[38] = 0x01;
    }
    assert(rpt@ =~= engage_shape(jack_path));
    rpt
}

/// Cabled heartbeat: audio controls, volume and path only.
pub open spec fn reassert_shape(jack: bool) -> Seq<u8> {
    if jack {
        seq![0x02u8, 0x90, 0, 0, 0, 0x7F, 0, 0, 0x09] + bytes::zeros(39)
    } else {
        seq![0x02u8, 0xA0, 0, 0, 0, 0, 0x64, 0, 0x39] + bytes::zeros(39)
    }
}

/// Cabled heartbeat: audio controls, volume and path only, so that rumble and
/// triggers of the game are never touched.
pub fn usb_reassert_report(jack_path: bool) -> (r: [u8; 48])
    ensures
        r@ == reassert_shape(jack_path),
{
    let mut rpt: [u8; 48] = [0; 48];
    rpt[0] = 0x02;
    if jack_path {
        rpt[1] = 0x90;
        rpt[5] = 0x7F;
        rpt[8] = 0x09;
    } else {
        rpt[1] = 0xA0;
        rpt[6] = 0x64;
        rpt[8] = 0x39;
    }
    assert(rpt@ =~= reassert_shape(jack_path));
    rpt
}

// ---------------------------------------------------------------- state merging

/// The headphone volume to send.
pub open spec fn hp_level(hp_volume: u8, output: bool) -> u8 {
    if !output {
        0
    } else if hp_volume < 0x7F {
        hp_volume
    } else {
        0x7F
    }
}

/// The output path bits.
pub open spec fn path_bits(jack: bool) -> u8 {
    if jack {
        0x00
    } else {
        0x30
    }
}

/// A state with the audio settings laid over it: all volumes and controls
/// enabled, volumes (zero where output is off), path and preamplifier.
pub open spec fn merged47(s: Seq<u8>, hp_volume: u8, output: bool, jack: bool) -> Seq<u8> {
    s.update(0, s[0] | 0xF0).update(1, s[1] | 0x80).update(4, hp_level(hp_volume, output)).update(
        5,
        if output {
            0x64
        } else {
            0
        },
    ).update(7, (s[7] & 0xCF) | path_bits(jack)).update(37, 5)
}

fn hp_byte(hp_volume: u8, output: bool) -> (r: u8)
    ensures
        r == hp_level(hp_volume, output),
{
    if !output {
        0
    } else if hp_volume < 0x7F {
        hp_volume
    } else {
        0x7F
    }
}

fn path_byte(jack: bool) -> (r: u8)
    ensures
        r == path_bits(jack),
{
    if jack {
        0x00
    } else {
        0x30
    }
}

/// Lays the audio settings over a state.
pub fn merge_audio_state(state: &mut [u8; 47], hp_volume: u8, output: bool, jack: bool)
    ensures
        final(state)@ == merged47(old(state)@, hp_volume, output, jack),
{
    state[0] = state[0] | 0xF0;
    state[1] = state[1] | 0x80;
    state[4] = hp_byte(hp_volume, output);
    state[5] = if output {
        0x64
    } else {
        0
    };
    state[7] = (state[7] & 0xCF) | path_byte(jack);
    state[37] = 5;
}

/// A state of 63 bytes with volume and path laid over it. Speaker path: its
/// volume and the second audio control on. Jack path: headphone volume on,
/// speaker and second audio control off. Everything else stays.
pub open spec fn merged63(s: Seq<u8>, hp_volume: u8, output: bool, jack: bool) -> Seq<u8> {
    let base = s.update(4, hp_level(hp_volume, output)).update(7, (s[7] & 0xCF) | path_bits(jack));
    if jack {
        base.update(0, (s[0] | 0x10) & 0xDF).update(1, s[1] & 0x7F).update(37, 0).update(5, 0)
    } else {
        base.update(0, s[0] | 0x20).update(1, s[1] | 0x80).update(37, 1).update(
            5,
            if output {
                0x64
            } else {
                0
            },
        )
    }
}

/// Lays volume and path over a state of 63 bytes.
pub fn sink_merge63(state: &mut [u8; 63], hp_volume: u8, output: bool, jack: bool)
    ensures
        final(state)@ == merged63(old(state)@, hp_volume, output, jack),
{
    state[4] = hp_byte(hp_volume, output);
    state[7] = (state[7] & 0xCF) | path_byte(jack);
    if jack {
        state[0] = (state[0] | 0x10) & 0xDF;
        state[1] = state[1] & 0x7F;
        state[37] = 0;
        state[5] = 0;
    } else {
        state[0] = state[0] | 0x20;
        state[1] = state[1] | 0x80;
        state[37] = 1;
        state[5] = if output {
            0x64
        } else {
            0
        };
    }
}

/// Merging twice is merging once, and bytes that carry motors, triggers and
/// lights come through.
pub proof fn merge63_is_idempotent(s: Seq<u8>, hp_volume: u8, output: bool, jack: bool)
    requires
        s.len() == 63,
    ensures
        merged63(merged63(s, hp_volume, output, jack), hp_volume, output, jack) == merged63(
            s,
            hp_volume,
            output,
            jack,
        ),
        forall|i: int|
            0 <= i < 63 && i != 0 && i != 1 && i != 4 && i != 5 && i != 7 && i != 37
                ==> #[trigger] merged63(s, hp_volume, output, jack)[i] == s[i],
{
    let a = s[0];
    let b = s[1];
    let c = s[7];
    assert(((((a | 0x10) & 0xDF) | 0x10) & 0xDF) == ((a | 0x10) & 0xDF) && ((b & 0x7F) & 0x7F) == (b
        & 0x7F) && ((a | 0x20) | 0x20) == (a | 0x20) && ((b | 0x80) | 0x80) == (b | 0x80) && ((((c
        & 0xCF) | 0x00) & 0xCF) | 0x00) == ((c & 0xCF) | 0x00) && ((((c & 0xCF) | 0x30) & 0xCF)
        | 0x30) == ((c & 0xCF) | 0x30)) by (bit_vector);
    assert(merged63(merged63(s, hp_volume, output, jack), hp_volume, output, jack) =~= merged63(
        s,
        hp_volume,
        output,
        jack,
    ));
}

/// Combined 0x36 report (398 bytes) with a state of 47 bytes and an encoded
/// frame of any size that the report holds.
pub open spec fn combined_shape(
    seq: u8,
    counter: u8,
    state: Seq<u8>,
    hap: Seq<u8>,
    frame: Seq<u8>,
    jack: bool,
) -> Seq<u8> {
    crc::restamped(
        0xA2,
        audio::combined_head(seq, 0xFE, counter, 47) + state + bytes::zeros(16) + seq![0x92u8, 64]
            + hap + seq![audio::path_mark(jack), frame.len() as u8] + frame + bytes::zeros(
            (254 - frame.len()) as nat,
        ),
    )
}

/// Combined 0x36 report (398 bytes) with a state of 47 bytes.
pub fn audio_report_0x36(
    seq: u8,
    counter: u8,
    state: &[u8; 47],
    hap: &[u8; 64],
    frame: &[u8],
    jack: bool,
) -> (r: Vec<u8>)
    requires
        frame@.len() <= 254,
    ensures
        r@ == combined_shape(seq, counter, state@, hap@, frame@, jack),
        r@.len() == 398,
{
    let mut b: Vec<u8> = audio::combined_start(seq, 0xFE, counter, 47);
    bytes::append(&mut b, state.as_slice());
    bytes::append_zeros(&mut b, 16);
    let ghost upto = b@;
    b.push(0x92);
    b.push(64);
    assert(b@ =~= upto + seq![0x92u8, 64]);
    bytes::append(&mut b, hap.as_slice());
    let ghost mid = b@;
    b.push(
        if jack {
            0x96
        } else {
            0x93
        },
    );
    b.push(frame.len() as u8);
    assert(b@ =~= mid + seq![audio::path_mark(jack), frame@.len() as u8]);
    bytes::append(&mut b, frame);
    bytes::append_zeros(&mut b, 254 - frame.len());
    audio::put_crc(b.as_mut_slice());
    b
}

/// A kernel report with the shared sequence number; other reports as they are.
pub open spec fn restamped_output(report: Seq<u8>, seq: u8) -> Seq<u8> {
    if report.len() == 78 && report[0] == 0x31 {
        crc::restamped(0xA2, report.update(1, seq << 4))
    } else {
        report
    }
}

/// Stamps a kernel report with the shared sequence number.
pub fn restamp_kernel_output(report: &mut [u8], seq: u8)
    ensures
        final(report)@ == restamped_output(old(report)@, seq),
{
    if report.len() == 78 && report[0] == 0x31 {
        report[1] = seq << 4;
        audio::put_crc(report);
    }
}

// ---------------------------------------------------------------- speaker mode

/// The mode that a text names.
pub open spec fn mode_named(s: Seq<char>) -> Option<u8> {
    if s == "forward"@ {
        Some(MODE_FORWARD)
    } else if s == "mute"@ {
        Some(MODE_MUTE)
    } else if s == "pad"@ {
        Some(MODE_PAD)
    } else {
        None
    }
}

/// The mode of the configuration: what it names, else the pad.
pub open spec fn configured_mode(value: Option<String>) -> u8 {
    match value {
        Some(s) => match mode_named(s@) {
            Some(m) => m,
            None => MODE_PAD,
        },
        None => MODE_PAD,
    }
}

fn named(s: &str) -> (r: Option<u8>)
    ensures
        r == mode_named(s@),
{
    if text::same(s, "forward") {
        Some(MODE_FORWARD)
    } else if text::same(s, "mute") {
        Some(MODE_MUTE)
    } else if text::same(s, "pad") {
        Some(MODE_PAD)
    } else {
        None
    }
}

/// The mode of the configuration; an unknown value means the pad.
pub fn speaker_mode_code(value: &Option<String>) -> (r: u8)
    ensures
        r == configured_mode(*value),
{
    match value {
        Some(s) => match named(s.as_str()) {
            Some(m) => m,
            None => MODE_PAD,
        },
        None => MODE_PAD,
    }
}

/// The mode in effect: what the override file names, else the configuration's.
pub open spec fn effective_mode(cfg: Option<String>, file: Option<String>) -> u8 {
    match file {
        Some(s) => match mode_named(text::trimmed(s@)) {
            Some(m) => m,
            None => configured_mode(cfg),
        },
        None => configured_mode(cfg),
    }
}

/// The mode in effect, from the configuration and the text of the override
/// file. An empty or unknown override is ignored.
pub fn current_mode(cfg: &Option<String>, file: &Option<String>) -> (r: u8)
    ensures
        r == effective_mode(*cfg, *file),
{
    match file {
        Some(s) => {
            let t: Vec<char> = text::trim(text::chars_of(s.as_str()).as_slice());
            let word: String = text::string_of(t.as_slice());
            match named(word.as_str()) {
                Some(m) => m,
                None => speaker_mode_code(cfg),
            }
        },
        None => speaker_mode_code(cfg),
    }
}

pub fn mode_name(mode: u8) -> (r: &'static str)
    ensures
        r@ == (if mode == MODE_FORWARD {
            "forward"@
        } else if mode == MODE_MUTE {
            "mute"@
        } else {
            "pad"@
        }),
{
    if mode == MODE_FORWARD {
        "forward"
    } else if mode == MODE_MUTE {
        "mute"
    } else {
        "pad"
    }
}

/// A mode's name names the mode.
pub proof fn mode_names_round_trip(mode: u8)
    requires
        mode <= MODE_MUTE,
    ensures
        mode_named(
            if mode == MODE_FORWARD {
                "forward"@
            } else if mode == MODE_MUTE {
                "mute"@
            } else {
                "pad"@
            },
        ) == Some(mode),
{
    reveal_strlit("forward");
    reveal_strlit("mute");
    reveal_strlit("pad");
    assert("forward"@.len() == 7 && "mute"@.len() == 4 && "pad"@.len() == 3);
}

/// Path of the override file of the speaker mode, where there is a runtime
/// directory.
pub fn speaker_override_path(runtime_dir: &Option<String>) -> (r: Option<String>)
    ensures
        match *runtime_dir {
            Some(d) => r is Some && (r->0)@ == text::joined(d@, "mdrv-ds-speaker"@),
            None => r is None,
        },
{
    match runtime_dir {
        Some(d) => Some(text::join(d.as_str(), "mdrv-ds-speaker")),
        None => None,
    }
}

/// Path of the override file of the haptic gain, where there is a runtime
/// directory.
pub fn gain_override_path(runtime_dir: &Option<String>) -> (r: Option<String>)
    ensures
        match *runtime_dir {
            Some(d) => r is Some && (r->0)@ == text::joined(d@, "mdrv-ds-gain"@),
            None => r is None,
        },
{
    match runtime_dir {
        Some(d) => Some(text::join(d.as_str(), "mdrv-ds-gain")),
        None => None,
    }
}

// ---------------------------------------------------------------- bounded queues

/// A queue with one more item, the oldest dropped where it is full.
pub open spec fn pushed<T>(q: Seq<T>, item: T, cap: int) -> Seq<T> {
    if q.len() >= cap {
        q.subrange(1, q.len() as int).push(item)
    } else {
        q.push(item)
    }
}

/// Adds an item to a queue that keeps the newest `cap` items. Returns whether
/// an old one was dropped.
pub fn push_newest<T>(q: &mut VecDeque<T>, item: T, cap: usize) -> (dropped: bool)
    requires
        cap >= 1,
        old(q)@.len() <= cap,
    ensures
        final(q)@ == pushed(old(q)@, item, cap as int),
        final(q)@.len() <= cap,
        dropped == (old(q)@.len() == cap),
{
    let full: bool = q.len() >= cap;
    if full {
        let _ = q.pop_front();
    }
    q.push_back(item);
    assert(q@ =~= pushed(old(q)@, item, cap as int));
    full
}

/// Drops the oldest items until at most `keep` are left.
pub fn keep_newest<T>(q: &mut VecDeque<T>, keep: usize)
    ensures
        final(q)@ == (if old(q)@.len() <= keep {
            old(q)@
        } else {
            old(q)@.subrange(old(q)@.len() - keep, old(q)@.len() as int)
        }),
{
    let ghost start = q@;
    let n: usize = q.len();
    assert(start.subrange(0, start.len() as int) =~= start);
    let ghost mut gone: int = 0;
    while q.len() > keep
        invariant
            0 <= gone <= start.len(),
            q@ == start.subrange(gone, start.len() as int),
            gone > 0 ==> q@.len() >= keep,
        decreases q@.len(),
    {
        let _ = q.pop_front();
        proof {
            gone = gone + 1;
        }
        assert(q@ =~= start.subrange(gone, start.len() as int));
    }
}

// ---------------------------------------------------------------- live switches

/// The sink's state that the proxy reaches while it runs. Each of the four
/// switches says whether the proxy still reaches that part of the sink; all of
/// them go off when the sink is stopped.
pub struct SinkRelays {
    pub out_live: bool,
    pub mode_live: bool,
    pub gain_live: bool,
    pub stop_live: bool,
    /// Kernel outputs that wait for the writer.
    pub out_q: VecDeque<Vec<u8>>,
    pub mode: u8,
    /// The haptic gain's bits.
    pub gain: u32,
    /// A pad link is there.
    pub attached: bool,
    /// Counts pad links.
    pub gen: u64,
    /// The pad link is a direct Bluetooth session.
    pub l2cap: bool,
    /// The sink is told to stop.
    pub stopping: bool,
}

/// Reports by their bytes.
pub open spec fn reports(q: Seq<Vec<u8>>) -> Seq<Seq<u8>> {
    q.map_values(|r: Vec<u8>| r@)
}

/// The state that moves the rumble motors and touches nothing else.
pub open spec fn rumble_state(strong: u8, weak: u8) -> Seq<u8> {
    seq![0x03u8, 0, weak, strong] + bytes::zeros(43)
}

/// The report that moves the rumble motors, in the shape that the link takes.
pub open spec fn rumble_output(l2cap: bool, strong: u8, weak: u8) -> Seq<u8> {
    if l2cap {
        seq![0x02u8] + rumble_state(strong, weak)
    } else {
        audio::state_shape(0, rumble_state(strong, weak))
    }
}

impl SinkRelays {
    pub open spec fn ok(self) -> bool {
        self.out_q@.len() <= OUT_Q_CAP
    }

    /// Everything but the queue is the same.
    pub open spec fn same_but_queue(self, other: SinkRelays) -> bool {
        &&& self.out_live == other.out_live
        &&& self.mode_live == other.mode_live
        &&& self.gain_live == other.gain_live
        &&& self.stop_live == other.stop_live
        &&& self.mode == other.mode
        &&& self.gain == other.gain
        &&& self.attached == other.attached
        &&& self.gen == other.gen
        &&& self.l2cap == other.l2cap
        &&& self.stopping == other.stopping
    }

    /// No sink is running.
    pub fn none() -> (r: SinkRelays)
        ensures
            r.ok(),
            !r.out_live,
            !r.mode_live,
            !r.gain_live,
            !r.stop_live,
            !r.attached,
            !r.stopping,
            r.out_q@.len() == 0,
    {
        SinkRelays {
            out_live: false,
            mode_live: false,
            gain_live: false,
            stop_live: false,
            out_q: VecDeque::new(),
            mode: MODE_PAD,
            gain: 0,
            attached: false,
            gen: 0,
            l2cap: false,
            stopping: false,
        }
    }

    /// The state of a sink that just started: with a pad from the start (a
    /// hidraw session), or without one (a direct session, whose pads attach
    /// later).
    pub open spec fn fresh(self, has_pad: bool, mode: u8, gain: u32) -> bool {
        &&& self.ok()
        &&& self.out_live
        &&& self.mode_live
        &&& self.gain_live
        &&& self.stop_live
        &&& self.out_q@.len() == 0
        &&& self.mode == mode
        &&& self.gain == gain
        &&& self.attached == has_pad
        &&& self.gen == (if has_pad {
            1u64
        } else {
            0
        })
        &&& self.l2cap == !has_pad
        &&& !self.stopping
    }

    /// A fresh sink.
    pub fn started(has_pad: bool, mode: u8, gain: u32) -> (r: SinkRelays)
        ensures
            r.fresh(has_pad, mode, gain),
    {
        SinkRelays {
            out_live: true,
            mode_live: true,
            gain_live: true,
            stop_live: true,
            out_q: VecDeque::new(),
            mode,
            gain,
            attached: has_pad,
            gen: if has_pad {
                1
            } else {
                0
            },
            l2cap: !has_pad,
            stopping: false,
        }
    }

    /// Takes the oldest waiting report.
    pub fn next_output(&mut self) -> (r: Option<Vec<u8>>)
        requires
            old(self).ok(),
        ensures
            final(self).ok(),
            final(self).same_but_queue(*old(self)),
            match r {
                Some(rpt) => {
                    &&& old(self).out_q@.len() > 0
                    &&& rpt == old(self).out_q@[0]
                    &&& final(self).out_q@ == old(self).out_q@.subrange(
                        1,
                        old(self).out_q@.len() as int,
                    )
                },
                None => old(self).out_q@.len() == 0 && final(self).out_q@ == old(self).out_q@,
            },
    {
        self.out_q.pop_front()
    }
}

/// Flips the live mode. Returns whether a sink is there to take it.
pub fn set_speaker_mode(relays: &mut SinkRelays, mode: u8) -> (r: bool)
    ensures
        r == old(relays).mode_live,
        final(relays).mode == (if r {
            mode
        } else {
            old(relays).mode
        }),
        *final(relays) == (SinkRelays { mode: final(relays).mode, ..*old(relays) }),
{
    if relays.mode_live {
        relays.mode = mode;
    }
    relays.mode_live
}

/// Sets the live haptic gain, by its bits. Returns whether a sink is there to
/// take it.
pub fn set_haptic_gain(relays: &mut SinkRelays, gain: u32) -> (r: bool)
    ensures
        r == old(relays).gain_live,
        final(relays).gain == (if r {
            gain
        } else {
            old(relays).gain
        }),
        *final(relays) == (SinkRelays { gain: final(relays).gain, ..*old(relays) }),
{
    if relays.gain_live {
        relays.gain = gain;
    }
    relays.gain_live
}

/// A pad link is there, if `linked` (its descriptor could be duplicated).
/// Returns whether the sink took it.
pub fn attach_pad(relays: &mut SinkRelays, linked: bool) -> (r: bool)
    ensures
        r == (old(relays).mode_live && linked),
        final(relays).attached == (old(relays).attached || r),
        final(relays).gen == (if r {
            (old(relays).gen + 1) % 0x1_0000_0000_0000_0000
        } else {
            old(relays).gen as int
        }),
        *final(relays) == (SinkRelays {
            attached: final(relays).attached,
            gen: final(relays).gen,
            ..*old(relays)
        }),
{
    if relays.mode_live && linked {
        relays.attached = true;
        relays.gen = relays.gen.wrapping_add(1);
        true
    } else {
        false
    }
}

/// The pad is gone: the writer pauses, the sink stays.
pub fn detach_pad(relays: &mut SinkRelays) -> (r: bool)
    ensures
        r == old(relays).mode_live,
        final(relays).attached == (old(relays).attached && !r),
        *final(relays) == (SinkRelays { attached: final(relays).attached, ..*old(relays) }),
{
    if relays.mode_live {
        relays.attached = false;
    }
    relays.mode_live
}

/// Stops the sink: it is told so once, and takes no more outputs, modes and
/// gains.
pub fn stop_all(relays: &mut SinkRelays)
    ensures
        *final(relays) == (SinkRelays {
            stopping: old(relays).stopping || old(relays).stop_live,
            stop_live: false,
            out_live: false,
            mode_live: false,
            gain_live: false,
            ..*old(relays)
        }),
{
    if relays.stop_live {
        relays.stopping = true;
    }
    relays.stop_live = false;
    relays.out_live = false;
    relays.mode_live = false;
    relays.gain_live = false;
}

/// A sink as a session holds it.
pub struct Sink {
    /// The handle owns the sink's threads. One that does not leaves the sink
    /// running when it stops.
    pub owner: bool,
}

impl Sink {
    /// A handle on a sink that somebody else owns.
    pub fn stub() -> (r: Sink)
        ensures
            !r.owner,
    {
        Sink { owner: false }
    }

    /// Stops the sink where the handle owns it. Returns whether its threads are
    /// to be joined.
    pub fn stop(&mut self, relays: &mut SinkRelays) -> (r: bool)
        ensures
            r == old(self).owner,
            final(self).owner == old(self).owner,
            *final(relays) == (if old(self).owner {
                SinkRelays {
                    stopping: true,
                    out_live: false,
                    mode_live: false,
                    gain_live: false,
                    stop_live: false,
                    ..*old(relays)
                }
            } else {
                *old(relays)
            }),
    {
        if !self.owner {
            return false;
        }
        relays.stopping = true;
        relays.out_live = false;
        relays.mode_live = false;
        relays.gain_live = false;
        relays.stop_live = false;
        true
    }
}

/// The persistent sink: started once, and handed out as a stub from there on.
pub fn ensure_started(relays: &mut SinkRelays, mode: u8, gain: u32) -> (r: Sink)
    ensures
        r.owner == !old(relays).mode_live,
        old(relays).mode_live ==> *final(relays) == *old(relays),
        !old(relays).mode_live ==> final(relays).fresh(false, mode, gain),
{
    if relays.mode_live {
        return Sink::stub();
    }
    *relays = SinkRelays::started(false, mode, gain);
    Sink { owner: true }
}

/// A sink for one session with a pad.
pub fn start(relays: &mut SinkRelays, mode: u8, gain: u32) -> (r: Sink)
    ensures
        r.owner,
        final(relays).fresh(true, mode, gain),
{
    *relays = SinkRelays::started(true, mode, gain);
    Sink { owner: true }
}

/// Hands a kernel output to the writer, which keeps the newest. Returns whether
/// a sink is there; where none is, the caller writes the report itself.
pub fn enqueue_output(relays: &mut SinkRelays, report: &[u8]) -> (r: bool)
    requires
        old(relays).ok(),
    ensures
        final(relays).ok(),
        final(relays).same_but_queue(*old(relays)),
        r == old(relays).out_live,
        reports(final(relays).out_q@) == (if r {
            pushed(reports(old(relays).out_q@), report@, OUT_Q_CAP as int)
        } else {
            reports(old(relays).out_q@)
        }),
{
    if !relays.out_live {
        return false;
    }
    let ghost before = relays.out_q@;
    let item: Vec<u8> = bytes::copy_of(report);
    push_newest(&mut relays.out_q, item, OUT_Q_CAP);
    assert(reports(relays.out_q@) =~= pushed(reports(before), report@, OUT_Q_CAP as int));
    true
}

/// Hands a rumble of the second pad to the writer. Returns whether a sink is
/// there.
pub fn rumble(relays: &mut SinkRelays, strong: u8, weak: u8) -> (r: bool)
    requires
        old(relays).ok(),
    ensures
        final(relays).ok(),
        final(relays).same_but_queue(*old(relays)),
        r == old(relays).out_live,
        reports(final(relays).out_q@) == (if r {
            pushed(
                reports(old(relays).out_q@),
                rumble_output(old(relays).l2cap, strong, weak),
                OUT_Q_CAP as int,
            )
        } else {
            reports(old(relays).out_q@)
        }),
{
    let mut st: [u8; 47] = [0; 47];
    st[0] = 0x03;
    st[2] = weak;
    st[3] = strong;
    assert(st@ =~= rumble_state(strong, weak));
    let rpt: Vec<u8> = if relays.l2cap {
        let mut v: Vec<u8> = Vec::new();
        v.push(0x02);
        bytes::append(&mut v, st.as_slice());
        assert(v@ =~= seq![0x02u8] + rumble_state(strong, weak));
        v
    } else {
        audio::state_report(0, &st)
    };
    enqueue_output(relays, rpt.as_slice())
}

/// The queue never holds more than its cap, and the report that was handed
/// over last is in it.
pub proof fn newest_output_is_kept(q: Seq<Seq<u8>>, report: Seq<u8>)
    requires
        q.len() <= OUT_Q_CAP,
    ensures
        pushed(q, report, OUT_Q_CAP as int).len() <= OUT_Q_CAP,
        pushed(q, report, OUT_Q_CAP as int).last() == report,
{
}

/// What the audio settings do to the bits of a state's flags and of its path
/// byte.
pub proof fn setting_bits(a: u8, b: u8, c: u8)
    by (bit_vector)
    ensures
        ((a | 0x10) & 0xDF) & 0x10 != 0,
        ((a | 0x10) & 0xDF) & 0x20 == 0,
        ((a | 0x10) & 0xDF) & 0xCF == a & 0xCF,
        (a | 0x20) & 0x20 != 0,
        (a | 0x20) & 0xDF == a & 0xDF,
        (a | 0xF0) & 0xF0 == 0xF0,
        (a | 0xF0) & 0x0F == a & 0x0F,
        (b & 0x7F) & 0x80 == 0,
        (b & 0x7F) & 0x7F == b & 0x7F,
        (b | 0x80) & 0x80 != 0,
        (b | 0x80) & 0x7F == b & 0x7F,
        ((c & 0xCF) | 0x00) & 0x30 == 0,
        ((c & 0xCF) | 0x30) & 0x30 == 0x30,
        ((c & 0xCF) | 0x00) & 0xCF == c & 0xCF,
        ((c & 0xCF) | 0x30) & 0xCF == c & 0xCF,
{
}

/// The state of a direct session says one path throughout. On the jack: the
/// headphone volume is enabled, the speaker's is not and is zero, the second
/// audio control is off, and the path bits are clear. On the speaker: its
/// volume is enabled, 0x64 while output is on, the second audio control and the
/// preamplifier are on, and the path bits are set. The headphone volume is the
/// configured one up to 0x7F, and zero while output is off.
pub proof fn direct_state_says_one_path(s: Seq<u8>, hp_volume: u8, output: bool, jack: bool, i: int)
    requires
        s.len() == 63,
        0 <= i < 63,
    ensures
        ({
            let m = merged63(s, hp_volume, output, jack);
            &&& m.len() == 63
            &&& jack ==> {
                &&& m[0] & 0x10 != 0 && m[0] & 0x20 == 0 && m[0] & 0xCF == s[0] & 0xCF
                &&& m[1] & 0x80 == 0
                &&& m[5] == 0
                &&& m[7] & 0x30 == 0
                &&& m[37] == 0
            }
            &&& !jack ==> {
                &&& m[0] & 0x20 != 0 && m[0] & 0xDF == s[0] & 0xDF
                &&& m[1] & 0x80 != 0
                &&& m[5] == (if output {
                    0x64u8
                } else {
                    0
                })
                &&& m[7] & 0x30 == 0x30
                &&& m[37] == 1
            }
            &&& m[1] & 0x7F == s[1] & 0x7F
            &&& m[7] & 0xCF == s[7] & 0xCF
            &&& !output ==> m[4] == 0
            &&& output && hp_volume <= 0x7F ==> m[4] == hp_volume
            &&& output && hp_volume > 0x7F ==> m[4] == 0x7F
            &&& i != 0 && i != 1 && i != 4 && i != 5 && i != 7 && i != 37 ==> m[i] == s[i]
        }),
{
    setting_bits(s[0], s[1], s[7]);
}

/// The state of a hidraw session enables all volumes and controls, keeps the
/// motors' flags and everything else of the game, and has the path bits set
/// for the speaker and clear for the jack.
pub proof fn hidraw_state_says_one_path(s: Seq<u8>, hp_volume: u8, output: bool, jack: bool, i: int)
    requires
        s.len() == 47,
        0 <= i < 47,
    ensures
        ({
            let m = merged47(s, hp_volume, output, jack);
            &&& m.len() == 47
            &&& m[0] & 0xF0 == 0xF0 && m[0] & 0x0F == s[0] & 0x0F
            &&& m[1] & 0x80 != 0 && m[1] & 0x7F == s[1] & 0x7F
            &&& !output ==> m[4] == 0 && m[5] == 0
            &&& output ==> m[5] == 0x64
            &&& output && hp_volume <= 0x7F ==> m[4] == hp_volume
            &&& output && hp_volume > 0x7F ==> m[4] == 0x7F
            &&& m[7] & 0x30 == (if jack {
                0u8
            } else {
                0x30
            })
            &&& m[7] & 0xCF == s[7] & 0xCF
            &&& m[37] == 5
            &&& i != 0 && i != 1 && i != 4 && i != 5 && i != 7 && i != 37 ==> m[i] == s[i]
        }),
{
    setting_bits(s[0], s[1], s[7]);
}

/// The bits of the fixed cabled reports.
proof fn cabled_bits()
    by (bit_vector)
    ensures
        0xDDu8 & 0x10 != 0,
        0xDDu8 & 0x20 == 0,
        0xEDu8 & 0x10 == 0,
        0xEDu8 & 0x20 != 0,
        0x77u8 & 0x80 == 0,
        0xF7u8 & 0x80 != 0,
        0x09u8 & 0x30 == 0,
        0x39u8 & 0x30 == 0x30,
        0x90u8 & 0x0F == 0,
        0xA0u8 & 0x0F == 0,
        0x90u8 & 0x10 != 0,
        0x90u8 & 0x20 == 0,
        0xA0u8 & 0x20 != 0,
        0xA0u8 & 0x10 == 0,
{
}

/// The cabled report on a change of the jack takes one path into use and the
/// other out of it: flags, volumes, path bits and preamplifier agree, and the
/// motors stay still.
pub proof fn engaging_takes_one_path(jack: bool)
    ensures
        ({
            let r = engage_shape(jack);
            &&& r.len() == 48
            &&& r[0] == 0x02
            &&& r[3] == 0 && r[4] == 0
            &&& (r[1] & 0x10 != 0 <==> jack)
            &&& (r[1] & 0x20 != 0 <==> !jack)
            &&& (r[2] & 0x80 != 0 <==> !jack)
            &&& r[5] == 0x7F
            &&& r[6] == (if jack {
                0u8
            } else {
                0x64
            })
            &&& r[8] & 0x30 == (if jack {
                0u8
            } else {
                0x30
            })
            &&& r[38] == (if jack {
                0u8
            } else {
                1
            })
        }),
{
    cabled_bits();
}

/// The cabled heartbeat repeats the path and its volume, and enables neither
/// motors, triggers nor lights.
pub proof fn heartbeats_touch_audio_only(jack: bool, i: int)
    requires
        0 <= i < 48,
    ensures
        ({
            let r = reassert_shape(jack);
            &&& r.len() == 48
            &&& r[0] == 0x02
            &&& r[1] & 0x0F == 0
            &&& (r[1] & 0x10 != 0 <==> jack)
            &&& (r[1] & 0x20 != 0 <==> !jack)
            &&& r[5] == (if jack {
                0x7Fu8
            } else {
                0
            })
            &&& r[6] == (if jack {
                0u8
            } else {
                0x64
            })
            &&& r[8] & 0x30 == (if jack {
                0u8
            } else {
                0x30
            })
            &&& i != 0 && i != 1 && i != 5 && i != 6 && i != 8 ==> r[i] == 0
        }),
{
    cabled_bits();
}

/// The combined report of a hidraw session, read back: kind 0x36, the sequence
/// number, the counter, 47 bytes of state from byte 13 on, 64 of haptics from
/// 78 on, the path mark at 142, the frame's size and the frame from 144 on.
pub proof fn combined_report_reads_back(
    seq: u8,
    counter: u8,
    state: Seq<u8>,
    hap: Seq<u8>,
    frame: Seq<u8>,
    jack: bool,
    i: int,
)
    requires
        seq < 16,
        state.len() == 47,
        hap.len() == 64,
        frame.len() <= 250,
        0 <= i < 250,
    ensures
        ({
            let r = combined_shape(seq, counter, state, hap, frame, jack);
            &&& r.len() == 398
            &&& crc::crc_ok(0xA2, r)
            &&& r[0] == 0x36
            &&& r[1] >> 4 == seq && r[1] & 0x0F == 0
            &&& r[2] == 0x91 && r[3] == 7 && r[4] == 0xFE
            &&& r[10] == counter
            &&& r[11] == 0x90 && r[12] == 47
            &&& i < 47 ==> r[13 + i] == state[i]
            &&& i < 16 ==> r[60 + i] == 0
            &&& r[76] == 0x92 && r[77] == 64
            &&& i < 64 ==> r[78 + i] == hap[i]
            &&& r[142] == (if jack {
                0x96u8
            } else {
                0x93
            })
            &&& r[143] == frame.len()
            &&& r[144 + i] == (if i < frame.len() {
                frame[i]
            } else {
                0
            })
        }),
{
    audio::upper_nibble(seq);
    let body = audio::combined_head(seq, 0xFE, counter, 47) + state + bytes::zeros(16)
        + seq![0x92u8, 64] + hap + seq![audio::path_mark(jack), frame.len() as u8] + frame
        + bytes::zeros((254 - frame.len()) as nat);
    crc::sealed_passes(0xA2, body.subrange(0, 394));
}

/// A kernel report under the shared sequence number keeps its state; a report
/// of another shape keeps everything.
pub proof fn restamping_keeps_the_state(report: Seq<u8>, seq: u8, i: int)
    requires
        seq < 16,
        0 <= i < report.len(),
    ensures
        report.len() != 78 || report[0] != 0x31 ==> restamped_output(report, seq) == report,
        report.len() == 78 && report[0] == 0x31 ==> ({
            let r = restamped_output(report, seq);
            &&& r.len() == 78
            &&& r[1] >> 4 == seq && r[1] & 0x0F == 0
            &&& i != 1 && i < 74 ==> r[i] == report[i]
        }),
{
    audio::upper_nibble(seq);
}

/// What decides where music goes: an override that names a mode, else a
/// configuration that names one, else the pad.
pub proof fn override_decides_the_mode(cfg: Option<String>, file: Option<String>)
    ensures
        ({
            let own = match cfg {
                Some(c) => if c@ == "forward"@ {
                    1u8
                } else if c@ == "mute"@ {
                    2
                } else {
                    0
                },
                None => 0,
            };
            let m = effective_mode(cfg, file);
            &&& file is None ==> m == own
            &&& file is Some && text::trimmed((file->0)@) == "pad"@ ==> m == 0
            &&& file is Some && text::trimmed((file->0)@) == "forward"@ ==> m == 1
            &&& file is Some && text::trimmed((file->0)@) == "mute"@ ==> m == 2
            &&& file is Some && text::trimmed((file->0)@) != "pad"@ && text::trimmed((file->0)@)
                != "forward"@ && text::trimmed((file->0)@) != "mute"@ ==> m == own
        }),
{
    reveal_strlit("pad");
    reveal_strlit("forward");
    reveal_strlit("mute");
    assert("pad"@.len() == 3 && "forward"@.len() == 7 && "mute"@.len() == 4);
}

/// The queue for the writer keeps the order and the newest sixteen: a report
/// goes behind the others, and only a full queue loses one, its oldest.
pub proof fn full_queues_lose_the_oldest(q: Seq<Seq<u8>>, report: Seq<u8>, i: int)
    requires
        q.len() <= 16,
        0 <= i < q.len(),
    ensures
        ({
            let r = pushed(q, report, OUT_Q_CAP as int);
            &&& r.last() == report
            &&& q.len() < 16 ==> r.len() == q.len() + 1 && r[i] == q[i]
            &&& q.len() == 16 ==> r.len() == 16 && (i > 0 ==> r[i - 1] == q[i])
        }),
{
}

/// A rumble of the second pad, in the shape of either link: the weak motor's
/// value stands in front of the strong one's in the state that the pad gets,
/// both motors are enabled, and nothing else is touched.
pub proof fn rumble_states_move_the_motors_only(l2cap: bool, strong: u8, weak: u8, i: int)
    requires
        0 <= i < 47,
    ensures
        ({
            let r = rumble_output(l2cap, strong, weak);
            let at = if l2cap {
                1int
            } else {
                3
            };
            &&& l2cap ==> r.len() == 48 && r[0] == 0x02
            &&& !l2cap ==> r.len() == 78 && r[0] == 0x31 && crc::crc_ok(0xA2, r)
            &&& r[at] == 0x03
            &&& r[at + 2] == weak
            &&& r[at + 3] == strong
            &&& i != 0 && i != 2 && i != 3 ==> r[at + i] == 0
        }),
{
    audio::state_reads_back(0, rumble_state(strong, weak), i);
    audio::state_reads_back(0, rumble_state(strong, weak), 0);
    audio::state_reads_back(0, rumble_state(strong, weak), 2);
    audio::state_reads_back(0, rumble_state(strong, weak), 3);
}

/// A sink that just started is reached in all four ways, holds nothing, and has
/// the mode and gain that it was given; one with a pad counts its first link
/// and is no direct session, one without waits for the first pad of one.
pub proof fn fresh_sinks_are_live(s: SinkRelays, mode: u8, gain: u32)
    ensures
        s.fresh(true, mode, gain) ==> s.out_live && s.mode_live && s.gain_live && s.stop_live
            && s.attached && s.gen == 1 && !s.l2cap && !s.stopping && s.out_q@.len() == 0 && s.mode
            == mode && s.gain == gain,
        s.fresh(false, mode, gain) ==> s.out_live && s.mode_live && s.gain_live && s.stop_live
            && !s.attached && s.gen == 0 && s.l2cap && !s.stopping && s.out_q@.len() == 0 && s.mode
            == mode && s.gain == gain,
{
}

/// Handing over an output changes the queue alone.
pub proof fn only_the_queue_differs(a: SinkRelays, b: SinkRelays)
    requires
        a.same_but_queue(b),
    ensures
        a == (SinkRelays { out_q: a.out_q, ..b }),
{
}

/// Queued reports keep their order and their bytes.
pub proof fn queues_are_what_they_hold(q: Seq<Vec<u8>>, i: int)
    requires
        0 <= i < q.len(),
    ensures
        reports(q).len() == q.len(),
        reports(q)[i] == q[i]@,
{
}

/// The forwarding ring holds ten frames, the audio ring 64 and is steered to
/// four.
pub proof fn rings_hold_whole_frames()
    ensures
        FWD_CAP == 10 * 480,
        FRAME_SAMPLES == 480,
        RING_CAP == 64,
        TARGET_FILL_FRAMES == 4,
{
}

} // verus!
