//! The direct Bluetooth HID session: descriptors, the feature dialogue on the
//! control channel, and the pad's identity.

use std::collections::HashMap;

use vstd::prelude::*;
use vstd::string::*;

use crate::audio;
use crate::bytes;
use crate::hid::PadInfo;
use crate::hid::Transport;
use crate::hid::PRODUCT_DS4;
use crate::hid::PRODUCT_DUALSENSE;
use crate::proxy;
use crate::rdesc;
use crate::sink;

verus! {

/// Control channel.
pub const PSM_CTRL: u16 = 0x11;

/// Interrupt channel.
pub const PSM_INTR: u16 = 0x13;

/// The pad state that a session starts from: all volumes and controls enabled,
/// headphone volume 0x7F, speaker volume 0x64.
pub const BT_STATE_INIT: [u8; 63] = [
    0xFD, 0xF7, 0x00, 0x00, 0x7F, 0x64, 0x08, 0x09, 0x00, 0x0F, 0x00, 0x00, 0x00, 0x00, 0x00, 0x00,
    0x00, 0x00, 0x00, 0x00, 0x00, 0x00, 0x00, 0x00, 0x00, 0x00, 0x00, 0x00, 0x00, 0x00, 0x00, 0x00,
    0x00, 0x00, 0x00, 0x00, 0x00, 0x01, 0x07, 0x00, 0x00, 0x02, 0x01, 0x00, 0xFF, 0xD7, 0x00, 0x00,
    0x00, 0x00, 0x00, 0x00, 0x00, 0x00, 0x00, 0x00, 0x00, 0x00, 0x00, 0x00, 0x00, 0x00, 0x00,
];

/// The state that opens the microphone and tells the pad its output path.
pub open spec fn mic_state_shape(jack_path: bool) -> Seq<u8> {
    seq![
        0xC0u8,
        0x83,
        0,
        0,
        0,
        0,
        0x08,
        if jack_path {
            0x09
        } else {
            0x39
        },
        0,
        0x0F,
    ] + bytes::zeros(27) + seq![0x01u8] + bytes::zeros(9)
}

/// The state that opens the microphone and tells the pad its output path.
pub fn mic_state(jack_path: bool) -> (r: [u8; 47])
    ensures
        r@ == mic_state_shape(jack_path),
{
    let mut s: [u8; 47] = [0; 47];
    s[0] = 0xC0;
    s[1] = 0x83;
    s[6] = 0x08;
    s[7] = if jack_path {
        0x09
    } else {
        0x39
    };
    s[9] = 0x0F;
    s[37] = 0x01;
    assert(s@ =~= mic_state_shape(jack_path));
    s
}

// ---------------------------------------------------------------- feature requests

/// A feature request under way: at most `tries` requests, and at most `frames`
/// frames read for each.
pub struct FeatureGet {
    pub id: u8,
    /// Requests that may still be sent, behind the one under way.
    pub tries: u8,
    /// Frames to read for each request.
    pub frames: u8,
    /// Frames left to read for the request under way.
    pub left: u8,
    /// A frame of one byte ends the dialogue.
    pub handshake_ends: bool,
}

/// What to do next.
pub enum GetStep {
    /// Send the request, then read a frame.
    Send,
    /// Read a frame.
    Read,
    /// The dialogue is over.
    Done(Option<Vec<u8>>),
}

/// Whether a frame answers the request for `id`.
pub open spec fn answers(frame: Seq<u8>, id: u8) -> bool {
    frame.len() >= 2 && frame[0] == 0xA3 && frame[1] == id
}

/// What a dialogue yields where `frames` are read in turn and no read fails:
/// the first answer, without its HIDP byte; nothing where a handshake frame
/// that ends the dialogue comes first, or the frames run out.
pub open spec fn dialogue(frames: Seq<Seq<u8>>, id: u8, handshake_ends: bool) -> Option<Seq<u8>>
    decreases frames.len(),
{
    if frames.len() == 0 {
        None
    } else if answers(frames[0], id) {
        Some(frames[0].subrange(1, frames[0].len() as int))
    } else if handshake_ends && frames[0].len() == 1 {
        None
    } else {
        dialogue(frames.subrange(1, frames.len() as int), id, handshake_ends)
    }
}

impl FeatureGet {
    pub open spec fn ok(self) -> bool {
        1 <= self.left <= self.frames <= 16 && self.tries < 3
    }

    /// How many frames the dialogue reads at most from here on.
    pub open spec fn budget(self) -> int {
        self.tries * self.frames + self.left
    }

    /// A request during the session's start: three tries of sixteen frames; a
    /// handshake means that the pad does not have the feature.
    pub fn probe(id: u8) -> (r: FeatureGet)
        ensures
            r.ok(),
            r.id == id,
            r.handshake_ends,
            r.tries == 2,
            r.frames == 16,
            r.budget() == 48,
    {
        FeatureGet { id, tries: 2, frames: 16, left: 16, handshake_ends: true }
    }

    /// A request during the session: one try of eight frames.
    pub fn once(id: u8) -> (r: FeatureGet)
        ensures
            r.ok(),
            r.id == id,
            !r.handshake_ends,
            r.tries == 0,
            r.frames == 8,
            r.budget() == 8,
    {
        FeatureGet { id, tries: 0, frames: 8, left: 8, handshake_ends: false }
    }

    /// The request.
    pub fn request(&self) -> (r: [u8; 2])
        ensures
            r@ == seq![0x43u8, self.id],
    {
        let r: [u8; 2] = [0x43, self.id];
        assert(r@ =~= seq![0x43u8, self.id]);
        r
    }

    /// Takes what was read: a frame, or none where the read failed or timed
    /// out.
    pub fn on_frame(&mut self, frame: &Option<Vec<u8>>) -> (r: GetStep)
        requires
            old(self).ok(),
        ensures
            final(self).id == old(self).id,
            final(self).handshake_ends == old(self).handshake_ends,
            final(self).frames == old(self).frames,
            match r {
                GetStep::Done(Some(rep)) => frame is Some && answers((frame->0)@, old(self).id)
                    && rep@ == (frame->0)@.subrange(1, (frame->0)@.len() as int),
                GetStep::Done(None) => {
                    ||| frame is None
                    ||| !answers((frame->0)@, old(self).id) && old(self).handshake_ends && (
                    frame->0)@.len() == 1
                    ||| !answers((frame->0)@, old(self).id) && old(self).budget() == 1
                },
                GetStep::Read => {
                    &&& final(self).ok()
                    &&& final(self).tries == old(self).tries
                    &&& final(self).left == old(self).left - 1
                },
                GetStep::Send => {
                    &&& final(self).ok()
                    &&& old(self).left == 1
                    &&& final(self).tries == old(self).tries - 1
                    &&& final(self).left == old(self).frames
                },
            },
            (r is Read || r is Send) <==> frame is Some && !answers((frame->0)@, old(self).id) && !(
            old(self).handshake_ends && (frame->0)@.len() == 1) && old(self).budget() > 1,
            (r is Read || r is Send) ==> final(self).budget() == old(self).budget() - 1,
    {
        match frame {
            None => GetStep::Done(None),
            Some(f) => {
                if f.len() >= 2 && f[0] == 0xA3 && f[1] == self.id {
                    return GetStep::Done(Some(bytes::slice_vec(f.as_slice(), 1, f.len())));
                }
                if self.handshake_ends && f.len() == 1 {
                    return GetStep::Done(None);
                }
                proof {
                    assert(self.tries == 0 ==> self.tries * self.frames == 0);
                    assert(self.tries >= 1 ==> self.tries * self.frames >= self.frames)
                        by (nonlinear_arith)
                        requires
                            self.frames >= 0,
                    ;
                    assert((self.tries - 1) * self.frames == self.tries * self.frames - self.frames)
                        by (nonlinear_arith);
                }
                if self.left > 1 {
                    self.left = self.left - 1;
                    GetStep::Read
                } else if self.tries > 0 {
                    self.tries = self.tries - 1;
                    self.left = self.frames;
                    GetStep::Send
                } else {
                    GetStep::Done(None)
                }
            },
        }
    }

    /// Runs a dialogue over frames that are at hand.
    pub fn run(self, frames: &Vec<Vec<u8>>) -> (r: Option<Vec<u8>>)
        requires
            self.ok(),
        ensures
            opt_bytes(r) == dialogue(
                first_frames(frame_views(frames@), self.budget()),
                self.id,
                self.handshake_ends,
            ),
    {
        let mut get: FeatureGet = self;
        let ghost all = frame_views(frames@);
        let ghost whole = first_frames(all, self.budget());
        let ghost id = self.id;
        let ghost ends = self.handshake_ends;
        let mut i: usize = 0;
        assert(first_frames(all.subrange(0, all.len() as int), self.budget()) =~= whole) by {
            assert(all.subrange(0, all.len() as int) =~= all);
        }
        while i < frames.len()
            invariant
                i <= frames@.len(),
                get.ok(),
                get.id == id,
                get.handshake_ends == ends,
                all == frame_views(frames@),
                whole == first_frames(frame_views(frames@), self.budget()),
                id == self.id,
                ends == self.handshake_ends,
                dialogue(
                    first_frames(all.subrange(i as int, all.len() as int), get.budget()),
                    id,
                    ends,
                ) == dialogue(whole, id, ends),
            decreases frames@.len() - i,
        {
            let ghost rest = all.subrange(i as int, all.len() as int);
            let ghost budget = get.budget();
            let ghost now = first_frames(rest, budget);
            let f: Vec<u8> = bytes::copy_of(frames[i].as_slice());
            proof {
                assert(rest[0] == f@);
                assert(budget >= 1) by (nonlinear_arith)
                    requires
                        budget == get.tries * get.frames + get.left,
                        get.left >= 1,
                        get.tries >= 0,
                        get.frames >= 0,
                ;
                assert(now[0] == f@);
                assert(now.subrange(1, now.len() as int) =~= first_frames(
                    all.subrange(i + 1, all.len() as int),
                    budget - 1,
                ));
            }
            match get.on_frame(&Some(f)) {
                GetStep::Done(rep) => {
                    proof {
                        if !answers(now[0], id) && !(ends && now[0].len() == 1) {
                            assert(budget == 1);
                            assert(now.subrange(1, now.len() as int).len() == 0);
                            assert(dialogue(now.subrange(1, now.len() as int), id, ends) is None);
                        }
                        if answers(now[0], id) {
                            assert(dialogue(now, id, ends) == Some(
                                now[0].subrange(1, now[0].len() as int),
                            ));
                        } else {
                            assert(dialogue(now, id, ends) is None);
                            assert(rep is None);
                        }
                    }
                    return rep;
                },
                GetStep::Read => {},
                GetStep::Send => {},
            }
            i = i + 1;
        }
        assert(first_frames(all.subrange(i as int, all.len() as int), get.budget()).len() == 0);
        None
    }
}

/// The first `n` frames.
pub open spec fn first_frames(frames: Seq<Seq<u8>>, n: int) -> Seq<Seq<u8>> {
    if frames.len() <= n {
        frames
    } else {
        frames.subrange(0, n)
    }
}

/// Frames by their bytes.
pub open spec fn frame_views(frames: Seq<Vec<u8>>) -> Seq<Seq<u8>> {
    frames.map_values(|f: Vec<u8>| f@)
}

/// Optional bytes by their values.
pub open spec fn opt_bytes(o: Option<Vec<u8>>) -> Option<Seq<u8>> {
    match o {
        Some(v) => Some(v@),
        None => None,
    }
}

// ---------------------------------------------------------------- session start

/// Where the probe of a fresh session stands: which feature is asked for, or
/// what the pad turned out to be.
#[derive(Clone, Copy, PartialEq, Eq, Debug, Structural)]
pub enum ProbeStep {
    Serial,
    Firmware,
    Calibration,
    Ds4Firmware,
    Ds4Calibration,
    DualSense,
    DualShock4,
    /// Neither a DualSense nor a DualShock 4.
    Unknown,
}

/// The probe of a fresh session, with the replies so far.
pub struct Probe {
    pub step: ProbeStep,
    pub features: HashMap<u8, Vec<u8>>,
}

/// The feature that a step asks for.
pub open spec fn probe_id(step: ProbeStep) -> Option<u8> {
    match step {
        ProbeStep::Serial => Some(0x09),
        ProbeStep::Firmware => Some(0x20),
        ProbeStep::Calibration => Some(0x05),
        ProbeStep::Ds4Firmware => Some(0xA3),
        ProbeStep::Ds4Calibration => Some(0x05),
        _ => None,
    }
}

/// The step behind a reply, or the lack of one. Without a serial the pad is
/// asked as a DualShock 4, and has to answer one of the two features then;
/// the other replies of a DualSense may be missing.
pub open spec fn probe_next(step: ProbeStep, replied: bool, had_ds4: bool) -> ProbeStep {
    match step {
        ProbeStep::Serial => if replied {
            ProbeStep::Firmware
        } else {
            ProbeStep::Ds4Firmware
        },
        ProbeStep::Firmware => ProbeStep::Calibration,
        ProbeStep::Calibration => ProbeStep::DualSense,
        ProbeStep::Ds4Firmware => ProbeStep::Ds4Calibration,
        ProbeStep::Ds4Calibration => if replied || had_ds4 {
            ProbeStep::DualShock4
        } else {
            ProbeStep::Unknown
        },
        s => s,
    }
}

/// A table's reports by their bytes.
pub open spec fn features_view(m: Map<u8, Vec<u8>>) -> Map<u8, Seq<u8>> {
    m.map_values(|v: Vec<u8>| v@)
}

impl Probe {
    pub fn new() -> (r: Probe)
        ensures
            r.step == ProbeStep::Serial,
            features_view(r.features@) == Map::<u8, Seq<u8>>::empty(),
    {
        let r = Probe { step: ProbeStep::Serial, features: HashMap::new() };
        assert(features_view(r.features@) =~= Map::<u8, Seq<u8>>::empty());
        r
    }

    /// The feature to ask for; none where the probe is over.
    pub fn wants(&self) -> (r: Option<u8>)
        ensures
            r == probe_id(self.step),
    {
        match self.step {
            ProbeStep::Serial => Some(0x09),
            ProbeStep::Firmware => Some(0x20),
            ProbeStep::Calibration => Some(0x05),
            ProbeStep::Ds4Firmware => Some(0xA3),
            ProbeStep::Ds4Calibration => Some(0x05),
            _ => None,
        }
    }

    /// Takes the reply to the feature that was asked for.
    pub fn on_reply(&mut self, reply: Option<Vec<u8>>)
        requires
            probe_id(old(self).step) is Some,
        ensures
            final(self).step == probe_next(
                old(self).step,
                reply is Some,
                old(self).features@.contains_key(0xA3),
            ),
            features_view(final(self).features@) == (match reply {
                Some(rep) => features_view(old(self).features@).insert(
                    probe_id(old(self).step)->0,
                    rep@,
                ),
                None => features_view(old(self).features@),
            }),
    {
        broadcast use vstd::std_specs::hash::group_hash_axioms;

        let ghost before = self.features@;
        let had: bool = self.features.contains_key(&0xA3);
        let id: u8 = match self.wants() {
            Some(id) => id,
            None => 0,
        };
        let replied: bool = reply.is_some();
        match reply {
            Some(rep) => {
                let ghost shown = rep@;
                self.features.insert(id, rep);
                assert(features_view(self.features@) =~= features_view(before).insert(id, shown));
            },
            None => {},
        }
        self.step = match self.step {
            ProbeStep::Serial => if replied {
                ProbeStep::Firmware
            } else {
                ProbeStep::Ds4Firmware
            },
            ProbeStep::Firmware => ProbeStep::Calibration,
            ProbeStep::Calibration => ProbeStep::DualSense,
            ProbeStep::Ds4Firmware => ProbeStep::Ds4Calibration,
            ProbeStep::Ds4Calibration => if replied || had {
                ProbeStep::DualShock4
            } else {
                ProbeStep::Unknown
            },
            s => s,
        };
    }
}

/// How far a probe is from its end.
pub open spec fn probe_rank(step: ProbeStep) -> int {
    match step {
        ProbeStep::Serial => 3,
        ProbeStep::Firmware => 2,
        ProbeStep::Ds4Firmware => 2,
        ProbeStep::Calibration => 1,
        ProbeStep::Ds4Calibration => 1,
        _ => 0,
    }
}

/// A probe ends after three replies at most, and only a pad that answered the
/// serial is taken for a DualSense.
pub proof fn probe_ends(step: ProbeStep, replied: bool, had_ds4: bool)
    requires
        probe_id(step) is Some,
    ensures
        probe_rank(probe_next(step, replied, had_ds4)) == probe_rank(step) - 1,
        probe_next(step, replied, had_ds4) == ProbeStep::Firmware ==> step == ProbeStep::Serial
            && replied,
        probe_next(step, replied, had_ds4) == ProbeStep::DualSense ==> step
            == ProbeStep::Calibration,
        probe_next(step, replied, had_ds4) == ProbeStep::Calibration ==> step
            == ProbeStep::Firmware,
{
}

// ---------------------------------------------------------------- identity

/// A device address of the wire, whose last octet comes first, as text.
pub open spec fn reversed_mac(b: Seq<u8>, at: int) -> Seq<char> {
    proxy::mac_text(seq![b[at + 5], b[at + 4], b[at + 3], b[at + 2], b[at + 1], b[at]])
}

fn mac_from(b: &[u8], at: usize) -> (r: String)
    requires
        at <= 1,
        at + 6 <= b@.len(),
    ensures
        r@ == reversed_mac(b@, at as int),
{
    let m: [u8; 6] = [b[at + 5], b[at + 4], b[at + 3], b[at + 2], b[at + 1], b[at]];
    assert(m@ =~= seq![
        b@[at + 5],
        b@[at + 4],
        b@[at + 3],
        b@[at + 2],
        b@[at + 1],
        b@[at as int],
    ]);
    proxy::format_mac(&m)
}

/// The address in a DualSense's serial feature.
pub open spec fn serial_mac(features: Map<u8, Seq<u8>>) -> Seq<char> {
    if features.contains_key(0x09) && features[0x09].len() >= 7 {
        reversed_mac(features[0x09], 1)
    } else {
        "00:00:00:00:00:00"@
    }
}

/// The pad of a DualSense session.
pub fn ds5_info(features: &HashMap<u8, Vec<u8>>) -> (r: PadInfo)
    ensures
        r.path@ == "/dev/l2cap-psm13"@,
        r.uniq@ == serial_mac(features_view(features@)),
        r.transport == Transport::Bluetooth,
        r.product == PRODUCT_DUALSENSE,
        r.fw_version == 0x0100,
        r.hw_version == 0,
        r.rdesc@ == rdesc::bt_descriptor(),
{
    broadcast use vstd::std_specs::hash::group_hash_axioms;

    let uniq: String = match features.get(&0x09) {
        Some(f) => if f.len() >= 7 {
            mac_from(f.as_slice(), 1)
        } else {
            "00:00:00:00:00:00".to_owned()
        },
        None => "00:00:00:00:00:00".to_owned(),
    };
    PadInfo {
        path: "/dev/l2cap-psm13".to_owned(),
        uniq,
        transport: Transport::Bluetooth,
        product: PRODUCT_DUALSENSE,
        fw_version: 0x0100,
        hw_version: 0,
        rdesc: rdesc::ds5_bt_rdesc(),
    }
}

/// A version in a DualShock 4's firmware feature; 0x0100 where the feature is
/// missing or too short.
pub open spec fn ds4_version(features: Map<u8, Seq<u8>>, at: int) -> int {
    if features.contains_key(0xA3) && features[0xA3].len() >= at + 2 {
        bytes::from_le16(features[0xA3], at)
    } else {
        0x0100
    }
}

fn version_at(features: &HashMap<u8, Vec<u8>>, at: usize) -> (r: u32)
    requires
        at < 256,
    ensures
        r == ds4_version(features_view(features@), at as int),
        r < 65536,
{
    broadcast use vstd::std_specs::hash::group_hash_axioms;

    match features.get(&0xA3) {
        Some(f) => if f.len() >= at + 2 {
            f[at] as u32 + 256 * (f[at + 1] as u32)
        } else {
            0x0100
        },
        None => 0x0100,
    }
}

/// The pad of a DualShock 4 session: the address of the peer, versions from
/// the firmware feature (a zero firmware counts as 0x0100), and the descriptor
/// that the caller has.
pub fn ds4_info(
    peer: &Option<[u8; 6]>,
    features: &HashMap<u8, Vec<u8>>,
    rdesc: &[u8],
) -> (r: PadInfo)
    ensures
        r.path@ == "/dev/l2cap-psm13"@,
        r.uniq@ == (match *peer {
            Some(a) => reversed_mac(a@, 0),
            None => "00:00:00:00:00:00"@,
        }),
        r.transport == Transport::Bluetooth,
        r.product == PRODUCT_DS4,
        r.fw_version == (if ds4_version(features_view(features@), 41) == 0 {
            0x0100
        } else {
            ds4_version(features_view(features@), 41)
        }),
        r.hw_version == ds4_version(features_view(features@), 35),
        r.rdesc@ == rdesc@,
{
    let uniq: String = match peer {
        Some(a) => mac_from(a.as_slice(), 0),
        None => "00:00:00:00:00:00".to_owned(),
    };
    let fw: u32 = version_at(features, 41);
    PadInfo {
        path: "/dev/l2cap-psm13".to_owned(),
        uniq,
        transport: Transport::Bluetooth,
        product: PRODUCT_DS4,
        fw_version: if fw == 0 {
            0x0100
        } else {
            fw
        },
        hw_version: version_at(features, 35),
        rdesc: bytes::copy_of(rdesc),
    }
}

// ---------------------------------------------------------------- failures

/// Why the two channels could not be bound.
pub enum BindFailure {
    NoAccess,
    InUse,
    Other(String),
}

/// What to tell the user.
pub open spec fn bind_text(e: BindFailure) -> Seq<char> {
    match e {
        BindFailure::NoAccess =>
            "l2cap: bind PSM 0x11/0x13: EACCES \u{2014} the binary needs\nsudo setcap cap_net_bind_service+ep <mdrv-ds path>"@,
        BindFailure::InUse =>
            "l2cap: bind PSM 0x11/0x13: EADDRINUSE \u{2014} bluetoothd still owns the HID\nPSMs. Run: sudo scripts/bt-input-off.sh  (installs --noplugin=input\noverride and restarts bluetoothd), then restart mdrv-ds"@,
        BindFailure::Other(t) => "l2cap: bind: "@ + t@,
    }
}

/// What to tell the user.
pub fn bind_message(e: &BindFailure) -> (r: String)
    ensures
        r@ == bind_text(*e),
{
    match e {
        BindFailure::NoAccess =>
            "l2cap: bind PSM 0x11/0x13: EACCES \u{2014} the binary needs\nsudo setcap cap_net_bind_service+ep <mdrv-ds path>".to_owned(),
        BindFailure::InUse =>
            "l2cap: bind PSM 0x11/0x13: EADDRINUSE \u{2014} bluetoothd still owns the HID\nPSMs. Run: sudo scripts/bt-input-off.sh  (installs --noplugin=input\noverride and restarts bluetoothd), then restart mdrv-ds".to_owned(),
        BindFailure::Other(t) => {
            let mut m: String = "l2cap: bind: ".to_owned();
            m.append(t.as_str());
            m
        },
    }
}

/// The frame that opens a DualSense session on the interrupt channel: the
/// initial state behind the HIDP byte.
pub fn init_frame() -> (r: Vec<u8>)
    ensures
        r@ == seq![0xA2u8] + audio::init_shape(BT_STATE_INIT@),
{
    let mut wire: Vec<u8> = Vec::new();
    wire.push(0xA2);
    let state: [u8; 63] = BT_STATE_INIT;
    let init: Vec<u8> = audio::init_report_032(&state);
    bytes::append(&mut wire, init.as_slice());
    assert(wire@ =~= seq![0xA2u8] + audio::init_shape(BT_STATE_INIT@));
    wire
}

/// The bits of the microphone state.
proof fn mic_bits()
    by (bit_vector)
    ensures
        0xC0u8 & 0x03 == 0,
        0xC0u8 & 0xC0 == 0xC0,
        0x83u8 & 0x80 != 0,
        0x09u8 & 0x30 == 0,
        0x39u8 & 0x30 == 0x30,
{
}

/// The microphone state tells the path by its path bits, set for the speaker
/// and clear for the jack, and leaves motors and volumes alone.
pub proof fn microphone_state_tells_the_path(jack_path: bool, i: int)
    requires
        0 <= i < 47,
    ensures
        ({
            let st = mic_state_shape(jack_path);
            &&& st.len() == 47
            &&& st[0] & 0x03 == 0 && st[0] & 0xC0 == 0xC0
            &&& st[1] & 0x80 != 0
            &&& st[7] & 0x30 == (if jack_path {
                0u8
            } else {
                0x30
            })
            &&& st[37] == 1
            &&& i != 0 && i != 1 && i != 6 && i != 7 && i != 9 && i != 37 ==> st[i] == 0
        }),
{
    mic_bits();
}

/// A dialogue yields the first answer among its frames, without the HIDP byte,
/// whatever other frames come in front of it; only a frame of one byte ends it
/// early, and only where a handshake does. An answer is a frame that begins
/// with 0xA3 and the feature's id.
pub proof fn first_answer_is_taken(frames: Seq<Seq<u8>>, id: u8, handshake_ends: bool, k: int)
    requires
        0 <= k < frames.len(),
        frames[k].len() >= 2 && frames[k][0] == 0xA3 && frames[k][1] == id,
        forall|j: int|
            0 <= j < k ==> !((#[trigger] frames[j]).len() >= 2 && frames[j][0] == 0xA3
                && frames[j][1] == id),
        handshake_ends ==> forall|j: int| 0 <= j < k ==> (#[trigger] frames[j]).len() != 1,
    ensures
        dialogue(frames, id, handshake_ends) == Some(
            frames[k].subrange(1, frames[k].len() as int),
        ),
    decreases k,
{
    if k > 0 {
        let rest = frames.subrange(1, frames.len() as int);
        assert(frames[0].len() != 1 || !handshake_ends);
        assert forall|j: int| 0 <= j < k - 1 implies !((#[trigger] rest[j]).len() >= 2 && rest[j][0]
            == 0xA3 && rest[j][1] == id) && (handshake_ends ==> rest[j].len() != 1) by {
            assert(rest[j] == frames[j + 1]);
        }
        first_answer_is_taken(rest, id, handshake_ends, k - 1);
    }
}

/// Without an answer a dialogue yields nothing, and nothing where a handshake
/// comes first and ends it.
pub proof fn no_answer_yields_nothing(frames: Seq<Seq<u8>>, id: u8, handshake_ends: bool, k: int)
    requires
        0 <= k <= frames.len(),
        forall|j: int|
            0 <= j < k ==> !((#[trigger] frames[j]).len() >= 2 && frames[j][0] == 0xA3
                && frames[j][1] == id),
        k == frames.len() || handshake_ends && frames[k].len() == 1,
    ensures
        dialogue(frames, id, handshake_ends) is None,
    decreases k,
{
    if k > 0 {
        let rest = frames.subrange(1, frames.len() as int);
        assert forall|j: int| 0 <= j < k - 1 implies !((#[trigger] rest[j]).len() >= 2 && rest[j][0]
            == 0xA3 && rest[j][1] == id) by {
            assert(rest[j] == frames[j + 1]);
        }
        no_answer_yields_nothing(rest, id, handshake_ends, k - 1);
    }
}

/// A probe asks for the serial 0x09 first. A pad that answers it is asked for
/// 0x20 and 0x05 and is a DualSense whatever it answers to those; one that
/// does not is asked for 0xA3 and 0x05 and is a DualShock 4 where it answers
/// either of them, and unknown where it answers neither.
pub proof fn probes_tell_the_pads_apart(a: bool, b: bool, had: bool)
    ensures
        probe_id(ProbeStep::Serial) == Some(0x09u8),
        ({
            let second = probe_next(ProbeStep::Serial, true, had);
            let third = probe_next(second, a, had);
            &&& probe_id(second) == Some(0x20u8)
            &&& probe_id(third) == Some(0x05u8)
            &&& probe_next(third, b, had) == ProbeStep::DualSense
            &&& probe_id(probe_next(third, b, had)) is None
        }),
        ({
            let second = probe_next(ProbeStep::Serial, false, false);
            let third = probe_next(second, a, false);
            let end = probe_next(third, b, a);
            &&& probe_id(second) == Some(0xA3u8)
            &&& probe_id(third) == Some(0x05u8)
            &&& probe_id(end) is None
            &&& (a || b) ==> end == ProbeStep::DualShock4
            &&& !a && !b ==> end == ProbeStep::Unknown
        }),
{
}

/// The address of a session's pad is told with the wire's last octet first: of
/// a DualSense, bytes 6 down to 1 of its serial; without a serial that holds
/// them, the null address.
pub proof fn addresses_are_reversed(b: Seq<u8>, at: int, features: Map<u8, Seq<u8>>)
    requires
        0 <= at,
        at + 6 <= b.len(),
    ensures
        proxy::mac_of(reversed_mac(b, at)) == Some(
            seq![b[at + 5], b[at + 4], b[at + 3], b[at + 2], b[at + 1], b[at]],
        ),
        features.contains_key(0x09) && features[0x09].len() >= 7 ==> proxy::mac_of(
            serial_mac(features),
        ) == Some(
            seq![
                features[0x09][6],
                features[0x09][5],
                features[0x09][4],
                features[0x09][3],
                features[0x09][2],
                features[0x09][1],
            ],
        ),
        !features.contains_key(0x09) || features[0x09].len() < 7 ==> serial_mac(features)
            == "00:00:00:00:00:00"@,
{
    proxy::mac_text_round_trip(
        seq![b[at + 5], b[at + 4], b[at + 3], b[at + 2], b[at + 1], b[at]],
    );
    if features.contains_key(0x09) && features[0x09].len() >= 7 {
        let f = features[0x09];
        proxy::mac_text_round_trip(seq![f[6], f[5], f[4], f[3], f[2], f[1]]);
    }
}

/// A version of a DualShock 4 is the 16-bit number at its place of the
/// firmware feature 0xA3, least significant byte first, and 0x0100 where the
/// feature does not reach there.
pub proof fn versions_are_read_at_their_place(features: Map<u8, Seq<u8>>, at: int)
    requires
        0 <= at,
    ensures
        features.contains_key(0xA3) && features[0xA3].len() >= at + 2 ==> ds4_version(features, at)
            == features[0xA3][at] + 256 * features[0xA3][at + 1],
        !features.contains_key(0xA3) || features[0xA3].len() < at + 2 ==> ds4_version(features, at)
            == 256,
{
}

/// A dialogue goes over as many frames as its tries allow, and no more: those
/// of the request under way and of every one that may follow.
pub proof fn dialogues_read_their_budget(frames: Seq<Seq<u8>>, g: FeatureGet, i: int)
    requires
        g.ok(),
        0 <= i < frames.len(),
    ensures
        g.budget() == g.left + g.tries * g.frames,
        frames.len() <= g.budget() ==> first_frames(frames, g.budget()) == frames,
        frames.len() > g.budget() ==> first_frames(frames, g.budget()).len() == g.budget(),
        i < g.budget() ==> first_frames(frames, g.budget())[i] == frames[i],
{
    assert(g.tries * g.frames >= 0) by (nonlinear_arith)
        requires
            g.tries >= 0,
            g.frames >= 0,
    ;
}

/// The HID channels of a Bluetooth device: control and interrupt.
pub proof fn hid_channels()
    ensures
        PSM_CTRL == 17,
        PSM_INTR == PSM_CTRL + 2,
{
}

/// A table of features is what it holds, byte for byte.
pub proof fn features_are_what_they_hold(m: Map<u8, Vec<u8>>, id: u8)
    ensures
        features_view(m).contains_key(id) == m.contains_key(id),
        m.contains_key(id) ==> features_view(m)[id] == m[id]@,
{
}

/// A direct session and a hidraw one start from the same state: everything
/// enabled, both volumes up, and the second state's remaining bytes zero.
pub proof fn sessions_start_from_one_state(i: int)
    requires
        0 <= i < 63,
    ensures
        i < 47 ==> BT_STATE_INIT@[i] == sink::STATE_INIT@[i],
        i >= 47 ==> BT_STATE_INIT@[i] == 0,
        BT_STATE_INIT@[0] == 0xFD && BT_STATE_INIT@[1] == 0xF7,
        BT_STATE_INIT@[2] == 0 && BT_STATE_INIT@[3] == 0,
        BT_STATE_INIT@[4] == 0x7F && BT_STATE_INIT@[5] == 0x64,
        BT_STATE_INIT@[7] == 0x09 && BT_STATE_INIT@[9] == 0x0F,
        BT_STATE_INIT@[37] == 1,
{
}

} // verus!
