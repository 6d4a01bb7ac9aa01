//! Bluetooth audio and state reports, and the test tone's schedule.
//!
//! Every report ends with the CRC-32 of the byte 0xA2 and what precedes it.

use vstd::prelude::*;

use crate::bytes;
use crate::config::AudioConfig;
use crate::crc;

verus! {

/// Size of an encoded 10 ms frame.
pub const OPUS_BYTES: usize = 200;

/// The time between two tone frames, in nanoseconds: 480 samples at 45 kHz.
pub const SEND_INTERVAL_NS: u64 = 10_666_667;

pub const REPORT_0X36_BT: usize = 398;

/// A report from its bytes in front of the CRC.
pub open spec fn signed(body: Seq<u8>) -> Seq<u8> {
    crc::sealed(0xA2, body)
}

/// Replaces the last four bytes of a report by its CRC.
pub fn put_crc(report: &mut [u8])
    requires
        old(report)@.len() >= 4,
    ensures
        final(report)@ == crc::restamped(0xA2, old(report)@),
{
    crc::stamp(0xA2, report);
}

/// A signed report passes the pad's check.
pub proof fn signed_reports_pass(body: Seq<u8>)
    ensures
        crc::crc_ok(0xA2, signed(body)),
        signed(body).len() == body.len() + 4,
{
    crc::sealed_passes(0xA2, body);
}

fn finish(body: Vec<u8>) -> (r: Vec<u8>)
    ensures
        r@ == signed(body@),
{
    let mut r: Vec<u8> = body;
    crc::seal(0xA2, &mut r);
    r
}

// ---------------------------------------------------------------- state reports

/// 0x31 (78 bytes) with an arbitrary state of 47 bytes.
pub open spec fn state_shape(seq: u8, state: Seq<u8>) -> Seq<u8> {
    signed(seq![0x31u8, seq << 4, 0x10] + state + bytes::zeros(24))
}

/// 0x31 (78 bytes) with an arbitrary state.
pub fn state_report(seq: u8, state: &[u8; 47]) -> (r: Vec<u8>)
    ensures
        r@ == state_shape(seq, state@),
        r@.len() == 78,
{
    let mut b: Vec<u8> = Vec::new();
    b.push(0x31);
    b.push(seq << 4);
    b.push(0x10);
    bytes::append(&mut b, state.as_slice());
    bytes::append_zeros(&mut b, 24);
    assert(b@ =~= seq![0x31u8, seq << 4, 0x10] + state@ + bytes::zeros(24));
    finish(b)
}

/// The state that enables the audio volumes.
pub open spec fn volume_state(hp_volume: u8, speaker: bool) -> Seq<u8> {
    seq![
        0xF0u8,
        0x80,
        0,
        0,
        if hp_volume < 0x7F {
            hp_volume
        } else {
            0x7F
        },
        if speaker {
            0x50
        } else {
            0x40
        },
        0x20,
    ] + bytes::zeros(30) + seq![
        if speaker {
            5u8
        } else {
            0
        },
    ] + bytes::zeros(9)
}

/// 0x31 (78 bytes) that enables the audio volumes. Without it the jack stays
/// silent.
pub fn volume_report(seq: u8, hp_volume: u8, speaker: bool) -> (r: Vec<u8>)
    ensures
        r@ == state_shape(seq, volume_state(hp_volume, speaker)),
        r@.len() == 78,
{
    let mut s: [u8; 47] = [0; 47];
    s[0] = 0xF0;
    s[1] = 0x80;
    s[4] = if hp_volume < 0x7F {
        hp_volume
    } else {
        0x7F
    };
    s[5] = if speaker {
        0x50
    } else {
        0x40
    };
    s[6] = 0x20;
    s[37] = if speaker {
        5
    } else {
        0
    };
    assert(s@ =~= volume_state(hp_volume, speaker));
    state_report(seq, &s)
}

// ---------------------------------------------------------------- audio reports

/// The path mark of an audio frame: jack or speaker.
pub open spec fn path_mark(jack: bool) -> u8 {
    if jack {
        0x96
    } else {
        0x93
    }
}

fn path_byte(jack: bool) -> (r: u8)
    ensures
        r == path_mark(jack),
{
    if jack {
        0x96
    } else {
        0x93
    }
}

/// An audio report of one encoded frame, filled up to `len` bytes.
pub open spec fn frame_shape(
    id: u8,
    seq: u8,
    counter: u8,
    frame: Seq<u8>,
    jack: bool,
    len: int,
) -> Seq<u8> {
    signed(
        seq![
            id,
            seq << 4,
            0x91,
            0x07,
            0xFE,
            0,
            0,
            0,
            0,
            counter,
            0,
            path_mark(jack),
            0xC8,
        ] + frame + bytes::zeros((len - 217) as nat),
    )
}

fn frame_report(
    id: u8,
    seq: u8,
    counter: u8,
    frame: &[u8; OPUS_BYTES],
    jack: bool,
    len: usize,
) -> (r: Vec<u8>)
    requires
        len >= 217,
    ensures
        r@ == frame_shape(id, seq, counter, frame@, jack, len as int),
        r@.len() == len,
{
    let mut b: Vec<u8> = Vec::new();
    b.push(id);
    b.push(seq << 4);
    b.push(0x91);
    b.push(0x07);
    b.push(0xFE);
    bytes::append_zeros(&mut b, 4);
    b.push(counter);
    b.push(0);
    b.push(path_byte(jack));
    b.push(0xC8);
    assert(b@ =~= seq![
        id,
        seq << 4,
        0x91,
        0x07,
        0xFE,
        0,
        0,
        0,
        0,
        counter,
        0,
        path_mark(jack),
        0xC8,
    ]);
    bytes::append(&mut b, frame.as_slice());
    bytes::append_zeros(&mut b, len - 217);
    finish(b)
}

/// 0x35 (334 bytes) with one encoded frame.
pub fn audio_report(seq: u8, counter: u8, frame: &[u8; OPUS_BYTES], jack: bool) -> (r: Vec<u8>)
    ensures
        r@ == frame_shape(0x35, seq, counter, frame@, jack, 334),
        r@.len() == 334,
{
    frame_report(0x35, seq, counter, frame, jack, 334)
}

/// 0x39 (547 bytes): the content of 0x35 in a longer report.
pub fn audio_report_0x39(seq: u8, counter: u8, frame: &[u8; OPUS_BYTES], jack: bool) -> (r: Vec<u8>)
    ensures
        r@ == frame_shape(0x39, seq, counter, frame@, jack, 547),
        r@.len() == 547,
{
    frame_report(0x39, seq, counter, frame, jack, 547)
}

/// 0x32 (142 bytes) with one haptics frame and no audio.
pub open spec fn haptics_shape(seq: u8, counter: u8, hap: Seq<u8>) -> Seq<u8> {
    signed(
        seq![0x32u8, seq << 4, 0x91, 0x07, 0xFE, 0, 0, 0, 0, counter, 0, 0x92, 0x40] + hap
            + bytes::zeros(61),
    )
}

/// 0x32 (142 bytes) with one haptics frame and no audio.
pub fn haptics_report_0x32(seq: u8, counter: u8, hap: &[u8; 64]) -> (r: Vec<u8>)
    ensures
        r@ == haptics_shape(seq, counter, hap@),
        r@.len() == 142,
{
    let mut b: Vec<u8> = Vec::new();
    b.push(0x32);
    b.push(seq << 4);
    b.push(0x91);
    b.push(0x07);
    b.push(0xFE);
    bytes::append_zeros(&mut b, 4);
    b.push(counter);
    b.push(0);
    b.push(0x92);
    b.push(0x40);
    assert(b@ =~= seq![0x32u8, seq << 4, 0x91, 0x07, 0xFE, 0, 0, 0, 0, counter, 0, 0x92, 0x40]);
    bytes::append(&mut b, hap.as_slice());
    bytes::append_zeros(&mut b, 61);
    finish(b)
}

// ---------------------------------------------------------------- L2CAP reports

/// Session-open 0x32 (142 bytes): a fixed sequence byte and a state of 63
/// bytes.
pub open spec fn init_shape(state63: Seq<u8>) -> Seq<u8> {
    signed(seq![0x32u8, 0x10, 0x90, 63] + state63 + bytes::zeros(71))
}

/// Session-open 0x32 (142 bytes).
pub fn init_report_032(state63: &[u8; 63]) -> (r: Vec<u8>)
    ensures
        r@ == init_shape(state63@),
        r@.len() == 142,
{
    let mut b: Vec<u8> = Vec::new();
    b.push(0x32);
    b.push(0x10);
    b.push(0x90);
    b.push(63);
    assert(b@ =~= seq![0x32u8, 0x10, 0x90, 63]);
    bytes::append(&mut b, state63.as_slice());
    bytes::append_zeros(&mut b, 71);
    finish(b)
}

/// Microphone 0x32 (142 bytes), with a sequence of its own.
pub open spec fn mic_shape(mic_seq: u8, active: bool) -> Seq<u8> {
    signed(
        seq![
            0x32u8,
            mic_seq << 4,
            0x91,
            0x07,
            if active {
                0xFF
            } else {
                0xFE
            },
            64,
            64,
            64,
            64,
            64,
            mic_seq,
            0x92,
            0x40,
        ] + bytes::zeros(125),
    )
}

/// Microphone 0x32 (142 bytes): opens or closes the pad's microphone. The
/// caller counts `mic_seq` up after each send.
pub fn mic_report_032(mic_seq: u8, active: bool) -> (r: Vec<u8>)
    ensures
        r@ == mic_shape(mic_seq, active),
        r@.len() == 142,
{
    let mut b: Vec<u8> = Vec::new();
    b.push(0x32);
    b.push(mic_seq << 4);
    b.push(0x91);
    b.push(0x07);
    b.push(
        if active {
            0xFF
        } else {
            0xFE
        },
    );
    b.push(64);
    b.push(64);
    b.push(64);
    b.push(64);
    b.push(64);
    b.push(mic_seq);
    b.push(0x92);
    b.push(0x40);
    bytes::append_zeros(&mut b, 125);
    assert(b@ =~= seq![
        0x32u8,
        mic_seq << 4,
        0x91,
        0x07,
        if active {
            0xFF
        } else {
            0xFE
        },
        64,
        64,
        64,
        64,
        64,
        mic_seq,
        0x92,
        0x40,
    ] + bytes::zeros(125));
    finish(b)
}

/// The head of a combined 0x36 report up to its state.
pub open spec fn combined_head(seq: u8, sections: u8, counter: u8, state_len: u8) -> Seq<u8> {
    seq![0x36u8, seq << 4, 0x91, 0x07, sections, 64, 64, 64, 64, 64, counter, 0x90, state_len]
}

/// The head of a combined 0x36 report up to its state.
pub(crate) fn combined_start(seq: u8, sections: u8, counter: u8, state_len: u8) -> (r: Vec<u8>)
    ensures
        r@ == combined_head(seq, sections, counter, state_len),
{
    let mut b: Vec<u8> = Vec::new();
    b.push(0x36);
    b.push(seq << 4);
    b.push(0x91);
    b.push(0x07);
    b.push(sections);
    b.push(64);
    b.push(64);
    b.push(64);
    b.push(64);
    b.push(64);
    b.push(counter);
    b.push(0x90);
    b.push(state_len);
    assert(b@ =~= combined_head(seq, sections, counter, state_len));
    b
}

/// 0x36 (398 bytes): control, state, haptics and one encoded frame.
pub open spec fn l2cap_shape(
    seq: u8,
    counter: u8,
    state63: Seq<u8>,
    hap: Seq<u8>,
    frame: Seq<u8>,
    jack: bool,
) -> Seq<u8> {
    signed(
        combined_head(seq, 0xFF, counter, 63) + state63 + seq![0x92u8, 64] + hap + seq![
            path_mark(jack),
            200,
        ] + frame + bytes::zeros(50),
    )
}

/// 0x36 (398 bytes) of a direct Bluetooth session.
pub fn audio_report_036_bt(
    seq: u8,
    counter: u8,
    state63: &[u8; 63],
    hap: &[u8; 64],
    frame: &[u8; OPUS_BYTES],
    jack: bool,
) -> (r: Vec<u8>)
    ensures
        r@ == l2cap_shape(seq, counter, state63@, hap@, frame@, jack),
        r@.len() == REPORT_0X36_BT,
{
    let mut b: Vec<u8> = combined_start(seq, 0xFF, counter, 63);
    bytes::append(&mut b, state63.as_slice());
    let ghost upto = b@;
    b.push(0x92);
    b.push(64);
    assert(b@ =~= upto + seq![0x92u8, 64]);
    bytes::append(&mut b, hap.as_slice());
    let ghost mid = b@;
    b.push(path_byte(jack));
    b.push(200);
    assert(b@ =~= mid + seq![path_mark(jack), 200u8]);
    bytes::append(&mut b, frame.as_slice());
    bytes::append_zeros(&mut b, 50);
    finish(b)
}

// ---------------------------------------------------------------- test tone

/// The schedule of the test tone.
pub struct ToneState {
    pub jack: bool,
    pub hp_volume: u8,
    pub seq: u8,
    pub counter: u8,
    pub since_volume: u32,
}

impl ToneState {
    /// The sequence number fits its half byte, and the volume is repeated in
    /// time.
    pub open spec fn ok(self) -> bool {
        self.seq < 16 && self.since_volume < 256
    }

    /// A tone on the jack, or on the speaker where that is forced.
    pub fn new(cfg: &AudioConfig) -> (r: ToneState)
        ensures
            r.ok(),
            r.jack == (cfg.speaker != Some(true)),
            r.hp_volume == (match cfg.volume {
                Some(v) => v,
                None => 0x64,
            }),
            r.seq == 0,
            r.counter == 0xFF,
            r.since_volume == 0,
    {
        ToneState {
            jack: match cfg.speaker {
                Some(s) => !s,
                None => true,
            },
            hp_volume: match cfg.volume {
                Some(v) => v,
                None => 0x64,
            },
            seq: 0,
            counter: 0xFF,
            since_volume: 0,
        }
    }

    /// The report that unlocks the volume, before the first frame.
    pub fn unlock(&self) -> (r: Vec<u8>)
        ensures
            r@ == state_shape(0, volume_state(self.hp_volume, !self.jack)),
    {
        volume_report(0, self.hp_volume, !self.jack)
    }

    /// The report of one frame.
    pub fn report(&self, frame: &[u8; OPUS_BYTES]) -> (r: Vec<u8>)
        ensures
            r@ == frame_shape(0x35, self.seq, self.counter, frame@, self.jack, 334),
    {
        audio_report(self.seq, self.counter, frame, self.jack)
    }

    /// A frame was sent: counts up. Every 256 frames the volume is unlocked
    /// again; the report to send then is returned.
    pub fn sent(&mut self) -> (r: Option<Vec<u8>>)
        requires
            old(self).ok(),
        ensures
            final(self).ok(),
            final(self).jack == old(self).jack,
            final(self).hp_volume == old(self).hp_volume,
            final(self).seq == (old(self).seq + 1) % 16,
            final(self).counter == (old(self).counter + 2) % 256,
            final(self).since_volume == (old(self).since_volume + 1) % 256,
            r is Some <==> old(self).since_volume == 255,
            r is Some ==> (r->0)@ == state_shape(
                final(self).seq,
                volume_state(old(self).hp_volume, !old(self).jack),
            ),
    {
        self.seq = (self.seq + 1) % 16;
        self.counter = self.counter.wrapping_add(2);
        self.since_volume = self.since_volume + 1;
        if self.since_volume >= 256 {
            self.since_volume = 0;
            Some(volume_report(self.seq, self.hp_volume, !self.jack))
        } else {
            None
        }
    }
}

/// When the next frame is due, from when the last one was and the time `now`;
/// a schedule that fell behind starts over.
pub fn next_due(due: u64, now: u64) -> (r: u64)
    requires
        due <= u64::MAX - SEND_INTERVAL_NS,
    ensures
        r == (if due + SEND_INTERVAL_NS > now {
            due + SEND_INTERVAL_NS
        } else {
            now as int
        }),
{
    let next: u64 = due + SEND_INTERVAL_NS;
    if next > now {
        next
    } else {
        now
    }
}

/// A sequence number in the upper half of its byte.
pub proof fn upper_nibble(seq: u8)
    by (bit_vector)
    requires
        seq < 16,
    ensures
        (seq << 4) >> 4 == seq,
        (seq << 4) & 0x0F == 0,
{
}

/// A state report, read back: 78 bytes of kind 0x31 with the sequence number in
/// the upper half of byte 1, the state from byte 3 on, zeros behind it, and a
/// CRC that the pad accepts.
pub proof fn state_reads_back(seq: u8, state: Seq<u8>, i: int)
    requires
        seq < 16,
        state.len() == 47,
        0 <= i < 47,
    ensures
        ({
            let r = state_shape(seq, state);
            &&& r.len() == 78
            &&& crc::crc_ok(0xA2, r)
            &&& r[0] == 0x31
            &&& r[1] >> 4 == seq && r[1] & 0x0F == 0
            &&& r[2] == 0x10
            &&& r[3 + i] == state[i]
            &&& i < 24 ==> r[50 + i] == 0
        }),
{
    upper_nibble(seq);
    signed_reports_pass(seq![0x31u8, seq << 4, 0x10] + state + bytes::zeros(24));
}

/// An audio report, read back: its kind, the sequence number, the counter, the
/// path mark (0x96 the jack, 0x93 the speaker), the frame's size and the frame
/// from byte 13 on.
pub proof fn frame_reads_back(
    id: u8,
    seq: u8,
    counter: u8,
    frame: Seq<u8>,
    jack: bool,
    len: int,
    i: int,
)
    requires
        seq < 16,
        frame.len() == 200,
        len >= 217,
        0 <= i < 200,
    ensures
        ({
            let r = frame_shape(id, seq, counter, frame, jack, len);
            &&& r.len() == len
            &&& crc::crc_ok(0xA2, r)
            &&& r[0] == id
            &&& r[1] >> 4 == seq && r[1] & 0x0F == 0
            &&& r[2] == 0x91 && r[3] == 7 && r[4] == 0xFE
            &&& r[9] == counter
            &&& r[11] == (if jack {
                0x96u8
            } else {
                0x93
            })
            &&& r[12] == 200
            &&& r[13 + i] == frame[i]
        }),
{
    upper_nibble(seq);
    signed_reports_pass(
        seq![id, seq << 4, 0x91, 0x07, 0xFE, 0, 0, 0, 0, counter, 0, path_mark(jack), 0xC8] + frame
            + bytes::zeros((len - 217) as nat),
    );
}

/// A haptics report, read back: kind 0x32, the sequence number, the counter,
/// and the 64 bytes of haptics from byte 13 on under their mark 0x92.
pub proof fn haptics_read_back(seq: u8, counter: u8, hap: Seq<u8>, i: int)
    requires
        seq < 16,
        hap.len() == 64,
        0 <= i < 64,
    ensures
        ({
            let r = haptics_shape(seq, counter, hap);
            &&& r.len() == 142
            &&& crc::crc_ok(0xA2, r)
            &&& r[0] == 0x32
            &&& r[1] >> 4 == seq && r[1] & 0x0F == 0
            &&& r[2] == 0x91 && r[3] == 7 && r[4] == 0xFE
            &&& r[9] == counter
            &&& r[11] == 0x92 && r[12] == 64
            &&& r[13 + i] == hap[i]
        }),
{
    upper_nibble(seq);
    signed_reports_pass(
        seq![0x32u8, seq << 4, 0x91, 0x07, 0xFE, 0, 0, 0, 0, counter, 0, 0x92, 0x40] + hap
            + bytes::zeros(61),
    );
}

/// The report that opens a session, read back: kind 0x32, and the 63 bytes of
/// state from byte 4 on under their mark 0x90.
pub proof fn opening_state_reads_back(state63: Seq<u8>, i: int)
    requires
        state63.len() == 63,
        0 <= i < 63,
    ensures
        ({
            let r = init_shape(state63);
            &&& r.len() == 142
            &&& crc::crc_ok(0xA2, r)
            &&& r[0] == 0x32 && r[1] == 0x10 && r[2] == 0x90 && r[3] == 63
            &&& r[4 + i] == state63[i]
        }),
{
    signed_reports_pass(seq![0x32u8, 0x10, 0x90, 63] + state63 + bytes::zeros(71));
}

/// The microphone report opens with 0xFF and closes with 0xFE in byte 4, under
/// its own sequence number, and carries silence.
pub proof fn microphone_opens_and_closes(mic_seq: u8, active: bool, i: int)
    requires
        mic_seq < 16,
        0 <= i < 64,
    ensures
        ({
            let r = mic_shape(mic_seq, active);
            &&& r.len() == 142
            &&& crc::crc_ok(0xA2, r)
            &&& r[0] == 0x32
            &&& r[1] >> 4 == mic_seq && r[10] == mic_seq
            &&& r[4] == (if active {
                0xFFu8
            } else {
                0xFE
            })
            &&& r[11] == 0x92 && r[12] == 64
            &&& r[13 + i] == 0
        }),
{
    upper_nibble(mic_seq);
    let mark: u8 = if active {
        0xFF
    } else {
        0xFE
    };
    signed_reports_pass(
        seq![0x32u8, mic_seq << 4, 0x91, 0x07, mark, 64, 64, 64, 64, 64, mic_seq, 0x92, 0x40]
            + bytes::zeros(125),
    );
}

/// The combined report of a direct session, read back: kind 0x36, the sequence
/// number, the counter, 63 bytes of state from byte 13 on, 64 of haptics from
/// 78 on, the path mark at 142 and the 200 bytes of the frame from 144 on.
pub proof fn direct_report_reads_back(
    seq: u8,
    counter: u8,
    state63: Seq<u8>,
    hap: Seq<u8>,
    frame: Seq<u8>,
    jack: bool,
    i: int,
)
    requires
        seq < 16,
        state63.len() == 63,
        hap.len() == 64,
        frame.len() == 200,
        0 <= i < 200,
    ensures
        ({
            let r = l2cap_shape(seq, counter, state63, hap, frame, jack);
            &&& r.len() == 398
            &&& crc::crc_ok(0xA2, r)
            &&& r[0] == 0x36
            &&& r[1] >> 4 == seq && r[1] & 0x0F == 0
            &&& r[2] == 0x91 && r[3] == 7 && r[4] == 0xFF
            &&& r[10] == counter
            &&& r[11] == 0x90 && r[12] == 63
            &&& i < 63 ==> r[13 + i] == state63[i]
            &&& r[76] == 0x92 && r[77] == 64
            &&& i < 64 ==> r[78 + i] == hap[i]
            &&& r[142] == (if jack {
                0x96u8
            } else {
                0x93
            })
            &&& r[143] == 200
            &&& r[144 + i] == frame[i]
        }),
{
    upper_nibble(seq);
    signed_reports_pass(
        combined_head(seq, 0xFF, counter, 63) + state63 + seq![0x92u8, 64] + hap + seq![
            path_mark(jack),
            200,
        ] + frame + bytes::zeros(50),
    );
}

/// The volume state enables volumes and path, never the motors, sets the
/// headphone volume up to 0x7F, and turns the preamplifier on for the speaker
/// only.
pub proof fn volume_state_is_audio_only(hp_volume: u8, speaker: bool, i: int)
    requires
        0 <= i < 47,
    ensures
        ({
            let st = volume_state(hp_volume, speaker);
            &&& st.len() == 47
            &&& st[0] == 0xF0 && st[1] == 0x80
            &&& st[4] <= 0x7F && st[4] <= hp_volume && (st[4] == hp_volume || st[4] == 0x7F)
            &&& st[5] == (if speaker {
                0x50u8
            } else {
                0x40
            })
            &&& st[6] == 0x20
            &&& st[37] == (if speaker {
                5u8
            } else {
                0
            })
            &&& i != 0 && i != 1 && !(4 <= i <= 6) && i != 37 ==> st[i] == 0
        }),
{
}

/// The tone keeps the pace of its samples: 480 of them at 45 kHz, to the
/// nearest nanosecond.
pub proof fn tone_frames_keep_the_sample_rate()
    ensures
        -45_000 < 45_000 * SEND_INTERVAL_NS - 480 * 1_000_000_000 < 45_000,
        OPUS_BYTES == 200,
        REPORT_0X36_BT == 398,
{
}

} // verus!
