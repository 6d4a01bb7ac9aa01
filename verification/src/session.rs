//! A session's decisions: which pad, which virtual pad, which audio, and what
//! happens when the relay ends.

use vstd::prelude::*;
use vstd::string::*;

use crate::config;
use crate::config::Config;
use crate::hid;
use crate::hid::PadInfo;
use crate::hid::Transport;
use crate::hid::PRODUCT_DS4;
use crate::ipc;
use crate::ipc::CreateMsg;
use crate::ipc::CreateShape;
use crate::proxy;
use crate::proxy::InputLayout;
use crate::rdesc;
use crate::text;
use crate::uhid;

verus! {

pub const DS_VENDOR: u32 = 0x054c;

/// How the proxy was started.
pub struct ProxyOpts {
    /// Explicit hidraw node.
    pub pad: Option<String>,
    /// Neutralize gameplay input while this file is active.
    pub gate_file: Option<String>,
    pub deadzone: bool,
    /// Hide the real pad's nodes.
    pub hide: bool,
    pub verbose: bool,
}

// ---------------------------------------------------------------- which pad

/// Whether any of the pads is cabled.
pub open spec fn any_usb(pads: Seq<(String, String, Transport)>) -> bool {
    exists|i: int| 0 <= i < pads.len() && (#[trigger] pads[i]).2 == Transport::Usb
}

/// Whether a cabled pad takes precedence over a Bluetooth session: there is
/// one, and no pad was named.
pub fn usb_pad_present(named: bool, pads: &Vec<(String, String, Transport)>) -> (r: bool)
    ensures
        r == (!named && any_usb(pads@)),
{
    if named {
        return false;
    }
    let mut i: usize = 0;
    while i < pads.len()
        invariant
            i <= pads@.len(),
            !named,
            forall|j: int| 0 <= j < i ==> (#[trigger] pads@[j]).2 != Transport::Usb,
        decreases pads@.len() - i,
    {
        if pads[i].2 == Transport::Usb {
            return true;
        }
        i = i + 1;
    }
    false
}

/// The node to open: the named one, else that of the first pad.
pub fn pick_pad(named: &Option<String>, pads: &Vec<(String, String, Transport)>) -> (r: Option<
    String,
>)
    ensures
        config::opt_view(r) == (match *named {
            Some(p) => Some(p@),
            None => if pads@.len() > 0 {
                Some(pads@[0].0@)
            } else {
                None
            },
        }),
{
    match named {
        Some(p) => Some(p.clone()),
        None => {
            if pads.len() > 0 {
                Some(pads[0].0.clone())
            } else {
                None
            }
        },
    }
}

// ---------------------------------------------------------------- the virtual pad

/// What a session will do.
pub struct Plan {
    /// The virtual pad is presented as a cabled one.
    pub usb_view: bool,
    pub virtual_mac: [u8; 6],
    pub msg: CreateMsg,
    /// The neutral report; empty where there is none.
    pub neutral: Vec<u8>,
    pub swap_ox: bool,
    /// Play the test tone.
    pub tone: bool,
    pub sink: SinkChoice,
}

/// Which audio sink a session has.
#[derive(Clone, Copy, PartialEq, Eq, Debug, Structural)]
pub enum SinkChoice {
    Absent,
    /// The sink that outlives sessions.
    Persistent,
    /// A sink of its own.
    Session,
}

/// Whether the virtual pad of a Bluetooth DualSense is presented as cabled.
pub open spec fn wants_usb_view(cfg: Config, product: u32, l2cap: bool) -> bool {
    l2cap && product != PRODUCT_DS4 && config::reads(cfg.force_bus, "usb"@)
}

/// The address of the virtual pad in octets.
pub open spec fn mac_octets(uniq: Seq<char>) -> Seq<u8> {
    match proxy::mac_of(uniq) {
        Some(m) => m,
        None => seq![0xaau8, 0xbb, 0xcc, 0xdd, 0xee, 0x01],
    }
}

/// The shape of the virtual pad: that of the real one, with an address of its
/// own, and cabled in the cabled view.
pub open spec fn virtual_shape(cfg: Config, info: PadInfo, l2cap: bool) -> CreateShape {
    let view = wants_usb_view(cfg, info.product, l2cap);
    CreateShape {
        bus: if view || info.transport == Transport::Usb {
            uhid::BUS_USB
        } else {
            uhid::BUS_BLUETOOTH
        },
        vendor: DS_VENDOR,
        product: info.product,
        version: info.fw_version,
        name: if info.product == PRODUCT_DS4 {
            "DualShock 4 Wireless Controller"@
        } else {
            "DualSense Wireless Controller"@
        },
        uniq: proxy::virtual_of(info.uniq@),
        rdesc: if view {
            rdesc::usb_descriptor()
        } else {
            info.rdesc@
        },
    }
}

/// The sink of a session: a DualSense over Bluetooth has one, unless the
/// configuration says no; a direct session shares the persistent one.
pub open spec fn sink_for(cfg: Config, info: PadInfo, l2cap: bool) -> SinkChoice {
    if info.product == PRODUCT_DS4 || cfg.audio.sink == Some(false) {
        SinkChoice::Absent
    } else if l2cap {
        SinkChoice::Persistent
    } else if info.transport == Transport::Bluetooth {
        SinkChoice::Session
    } else {
        SinkChoice::Absent
    }
}

/// Plans a session with a pad.
pub fn plan(cfg: &Config, info: &PadInfo, l2cap: bool) -> (r: Plan)
    ensures
        r.usb_view == wants_usb_view(*cfg, info.product, l2cap),
        r.msg@ == virtual_shape(*cfg, *info, l2cap),
        r.virtual_mac@ == mac_octets(r.msg.uniq@),
        r.neutral@ == (if r.usb_view || info.transport == Transport::Usb {
            proxy::neutral_shape(
                (InputLayout { stick0: 1, btn0: 8, trig0: 5, report_id: 0x01 }),
            )
        } else {
            Seq::empty()
        }),
        r.swap_ox == (cfg.swap_cross_circle == Some(true)),
        r.tone == (info.transport == Transport::Bluetooth && info.product != PRODUCT_DS4
            && cfg.audio.test_tone),
        r.sink == sink_for(*cfg, *info, l2cap),
{
    let usb_view: bool = l2cap && info.product != PRODUCT_DS4 && cfg.force_usb();
    let uniq: String = proxy::derive_virtual_mac(info.uniq.as_str());
    let virtual_mac: [u8; 6] = match proxy::parse_mac(uniq.as_str()) {
        Some(m) => m,
        None => {
            let fixed: [u8; 6] = [0xaa, 0xbb, 0xcc, 0xdd, 0xee, 0x01];
            assert(fixed@ =~= seq![0xaau8, 0xbb, 0xcc, 0xdd, 0xee, 0x01]);
            fixed
        },
    };
    let layout: InputLayout = proxy::layout_for(
        if usb_view {
            Transport::Usb
        } else {
            info.transport
        },
    );
    let neutral: Vec<u8> = match proxy::neutral_report(&layout) {
        Some(n) => n,
        None => {
            let none: Vec<u8> = Vec::new();
            assert(none@ =~= Seq::empty());
            none
        },
    };
    let bus: u16 = if usb_view || info.transport == Transport::Usb {
        uhid::BUS_USB
    } else {
        uhid::BUS_BLUETOOTH
    };
    let name: String = if info.product == PRODUCT_DS4 {
        "DualShock 4 Wireless Controller".to_owned()
    } else {
        "DualSense Wireless Controller".to_owned()
    };
    let rdesc: Vec<u8> = if usb_view {
        rdesc::ds5_usb_rdesc()
    } else {
        crate::bytes::copy_of(info.rdesc.as_slice())
    };
    let wanted: bool = match cfg.audio.sink {
        Some(v) => v,
        None => true,
    };
    let sink: SinkChoice = if info.product == PRODUCT_DS4 || !wanted {
        SinkChoice::Absent
    } else if l2cap {
        SinkChoice::Persistent
    } else if info.transport == Transport::Bluetooth {
        SinkChoice::Session
    } else {
        SinkChoice::Absent
    };
    Plan {
        usb_view,
        virtual_mac,
        msg: CreateMsg {
            bus,
            vendor: DS_VENDOR,
            product: info.product,
            version: info.fw_version,
            name,
            uniq,
            rdesc,
        },
        neutral,
        swap_ox: match cfg.swap_cross_circle {
            Some(v) => v,
            None => false,
        },
        tone: info.transport == Transport::Bluetooth && info.product != PRODUCT_DS4
            && cfg.audio.test_tone,
        sink,
    }
}

/// Two sessions with the same pad and configuration ask for the same virtual
/// pad, so the holder reuses it.
pub proof fn reconnecting_keeps_the_virtual_pad(cfg: Config, a: PadInfo, b: PadInfo, l2cap: bool)
    requires
        a.uniq@ == b.uniq@,
        a.transport == b.transport,
        a.product == b.product,
        a.fw_version == b.fw_version,
        a.rdesc@ == b.rdesc@,
    ensures
        ipc::create_payload(virtual_shape(cfg, a, l2cap)) == ipc::create_payload(
            virtual_shape(cfg, b, l2cap),
        ),
{
}

/// The output report that changes nothing, for a freshly connected cabled pad.
pub fn poke() -> (r: [u8; 48])
    ensures
        r@ == seq![0x02u8] + crate::bytes::zeros(47),
{
    let mut p: [u8; 48] = [0; 48];
    p[0] = 0x02;
    assert(p@ =~= seq![0x02u8] + crate::bytes::zeros(47));
    p
}

/// The pad's name in messages.
pub fn pad_name(product: u32) -> (r: &'static str)
    ensures
        r@ == (if product == PRODUCT_DS4 {
            "DualShock 4"@
        } else {
            "DualSense"@
        }),
{
    if product == PRODUCT_DS4 {
        "DualShock 4"
    } else {
        "DualSense"
    }
}

/// How the holder answered a create.
pub enum CreateReply {
    Reused,
    Created,
    /// It failed, for this reason.
    Failed(Vec<u8>),
    /// Something else came.
    Unexpected,
}

/// Reads the holder's answer to a create. An ack is never empty.
pub fn create_reply(tag: u8, payload: &[u8]) -> (r: CreateReply)
    requires
        tag == ipc::TAG_CREATE_ACK ==> payload@.len() > 0,
    ensures
        if tag != ipc::TAG_CREATE_ACK {
            r is Unexpected
        } else if payload@[0] == 1 {
            r is Reused
        } else if payload@[0] == 0 {
            r is Created
        } else {
            r matches CreateReply::Failed(why) && why@ == payload@.subrange(
                1,
                payload@.len() as int,
            )
        },
{
    if tag != ipc::TAG_CREATE_ACK {
        CreateReply::Unexpected
    } else if payload[0] == 1 {
        CreateReply::Reused
    } else if payload[0] == 0 {
        CreateReply::Created
    } else {
        CreateReply::Failed(crate::bytes::slice_vec(payload, 1, payload.len()))
    }
}

/// What follows the end of a relay.
#[derive(Clone, Copy, PartialEq, Eq, Debug, Structural)]
pub enum AfterRelay {
    Exit,
    /// The holder is gone: make the virtual pad again.
    Recreate,
    /// The pad is gone: wait for the next one.
    Wait,
}

/// The pad is gone.
pub const RELAY_PAD_LOST: i32 = 1;

/// Exit was asked for.
pub const RELAY_EXIT: i32 = 2;

/// The holder is gone.
pub const RELAY_HOLDER_LOST: i32 = 3;

/// What follows the end of a relay, and whether the user is told that the pad
/// disconnected: not where only the holder is gone.
pub fn after_relay(code: i32, exiting: bool) -> (r: (AfterRelay, bool))
    ensures
        r.0 == (if exiting || code == RELAY_EXIT {
            AfterRelay::Exit
        } else if code == RELAY_HOLDER_LOST {
            AfterRelay::Recreate
        } else {
            AfterRelay::Wait
        }),
        r.1 == (code != RELAY_HOLDER_LOST),
{
    let next: AfterRelay = if exiting || code == RELAY_EXIT {
        AfterRelay::Exit
    } else if code == RELAY_HOLDER_LOST {
        AfterRelay::Recreate
    } else {
        AfterRelay::Wait
    };
    (next, code != RELAY_HOLDER_LOST)
}

// ---------------------------------------------------------------- blocking and mounts

/// Whether gameplay input is blocked: the file says something, and not "none".
pub open spec fn gate_active(content: Option<Seq<char>>) -> bool {
    match content {
        Some(s) => text::trimmed(s).len() > 0 && text::trimmed(s) != "none"@,
        None => false,
    }
}

/// Whether gameplay input is blocked, from the text of the file that says so.
pub fn read_gate(content: &Option<String>) -> (r: bool)
    ensures
        r == gate_active(config::opt_view(*content)),
{
    match content {
        Some(s) => {
            let t: Vec<char> = text::trim(text::chars_of(s.as_str()).as_slice());
            t.len() > 0 && !text::spells(t.as_slice(), "none")
        },
        None => false,
    }
}

/// The word of a line at a place.
pub open spec fn word_at(line: Seq<char>, k: int) -> Option<Seq<char>> {
    if k < text::words_of(line).len() {
        Some(text::words_of(line)[k])
    } else {
        None
    }
}

/// Whether the mount table has a mount on the node.
pub open spec fn mounted_on(mounts: Seq<char>, node: Seq<char>) -> bool {
    exists|i: int|
        0 <= i < text::lines_of(mounts).len() && word_at(#[trigger] text::lines_of(mounts)[i], 1)
            == Some(node)
}

/// Whether the mount table has a mount on the node.
pub fn node_mounted(mounts: &str, node: &str) -> (r: bool)
    ensures
        r == mounted_on(mounts@, node@),
{
    let lines: Vec<Vec<char>> = text::lines(text::chars_of(mounts).as_slice());
    let ghost all = text::lines_of(mounts@);
    let mut i: usize = 0;
    while i < lines.len()
        invariant
            i <= lines@.len(),
            all == text::lines_of(mounts@),
            text::views(lines@) == all,
            forall|j: int| 0 <= j < i ==> word_at(#[trigger] all[j], 1) != Some(node@),
        decreases lines@.len() - i,
    {
        assert(all[i as int] == lines@[i as int]@);
        let words: Vec<Vec<char>> = text::words(lines[i].as_slice());
        let ghost w = text::views(words@);
        assert(w.len() == words@.len());
        if words.len() > 1 {
            assert(w[1] == words@[1]@);
            if text::spells(words[1].as_slice(), node) {
                return true;
            }
        }
        i = i + 1;
    }
    false
}

/// The mount target that a field of the mount table spells, where each
/// `\040` stands for a space.
pub open spec fn unescaped(s: Seq<char>) -> Seq<char>
    decreases s.len(),
{
    if s.len() == 0 {
        Seq::empty()
    } else if s.len() >= 4 && s[0] == '\\' && s[1] == '0' && s[2] == '4' && s[3] == '0' {
        seq![' '] + unescaped(s.subrange(4, s.len() as int))
    } else {
        seq![s[0]] + unescaped(s.subrange(1, s.len() as int))
    }
}

fn unescape(s: &[char]) -> (r: Vec<char>)
    ensures
        r@ == unescaped(s@),
{
    let mut out: Vec<char> = Vec::new();
    let n: usize = s.len();
    let mut i: usize = 0;
    assert(s@.subrange(0, n as int) =~= s@);
    assert(out@ + unescaped(s@) =~= unescaped(s@));
    while i < n
        invariant
            i <= n,
            n == s@.len(),
            out@ + unescaped(s@.subrange(i as int, n as int)) == unescaped(s@),
        decreases n - i,
    {
        let ghost rest = s@.subrange(i as int, n as int);
        let ghost before = out@;
        if n - i >= 4 && s[i] == '\\' && s[i + 1] == '0' && s[i + 2] == '4' && s[i + 3] == '0' {
            out.push(' ');
            assert(rest.subrange(4, rest.len() as int) =~= s@.subrange(i + 4, n as int));
            assert(out@ + unescaped(s@.subrange(i + 4, n as int)) =~= before + unescaped(rest));
            i = i + 4;
        } else {
            out.push(s[i]);
            assert(rest.subrange(1, rest.len() as int) =~= s@.subrange(i + 1, n as int));
            assert(out@ + unescaped(s@.subrange(i + 1, n as int)) =~= before + unescaped(rest));
            i = i + 1;
        }
    }
    assert(s@.subrange(n as int, n as int) =~= Seq::empty());
    assert(out@ + Seq::<char>::empty() =~= out@);
    out
}

/// The node that a line of the mount table hides: a device mount on a hidraw
/// or input node.
pub open spec fn stale_in(line: Seq<char>) -> Option<Seq<char>> {
    let w = text::words_of(line);
    if w.len() >= 3 && w[2] == "devtmpfs"@ && (text::has_prefix(
        unescaped(w[1]),
        "/dev/hidraw"@,
    ) || text::has_prefix(unescaped(w[1]), "/dev/input/"@)) {
        Some(unescaped(w[1]))
    } else {
        None
    }
}

/// The nodes that the lines of a mount table hide, in turn.
pub open spec fn stale_nodes(lines: Seq<Seq<char>>) -> Seq<Seq<char>>
    decreases lines.len(),
{
    if lines.len() == 0 {
        Seq::empty()
    } else {
        let before = stale_nodes(lines.drop_last());
        match stale_in(lines.last()) {
            Some(n) => before.push(n),
            None => before,
        }
    }
}

/// The nodes that an earlier run left hidden, from the mount table.
pub fn stale_mounts(mounts: &str) -> (r: Vec<Vec<char>>)
    ensures
        text::views(r@) == stale_nodes(text::lines_of(mounts@)),
{
    let lines: Vec<Vec<char>> = text::lines(text::chars_of(mounts).as_slice());
    let ghost all = text::lines_of(mounts@);
    let hidraw: Vec<char> = text::chars_of("/dev/hidraw");
    let input: Vec<char> = text::chars_of("/dev/input/");
    let mut out: Vec<Vec<char>> = Vec::new();
    let mut i: usize = 0;
    assert(all.subrange(0, 0) =~= Seq::empty());
    assert(text::views(out@) =~= Seq::empty());
    while i < lines.len()
        invariant
            i <= lines@.len(),
            hidraw@ == "/dev/hidraw"@,
            input@ == "/dev/input/"@,
            text::views(lines@) == all,
            text::views(out@) == stale_nodes(all.subrange(0, i as int)),
        decreases lines@.len() - i,
    {
        assert(all.subrange(0, i + 1).drop_last() =~= all.subrange(0, i as int));
        assert(all[i as int] == lines@[i as int]@);
        let words: Vec<Vec<char>> = text::words(lines[i].as_slice());
        let ghost w = text::views(words@);
        assert(w.len() == words@.len());
        if words.len() >= 3 {
            assert(w[1] == words@[1]@ && w[2] == words@[2]@);
            if text::spells(words[2].as_slice(), "devtmpfs") {
                let t: Vec<char> = unescape(words[1].as_slice());
                if text::starts_with(t.as_slice(), hidraw.as_slice()) || text::starts_with(
                    t.as_slice(),
                    input.as_slice(),
                ) {
                    let ghost before = text::views(out@);
                    let ghost node = t@;
                    out.push(t);
                    assert(text::views(out@) =~= before.push(node));
                }
            }
        }
        i = i + 1;
    }
    assert(all.subrange(0, all.len() as int) =~= all);
    out
}

/// The nodes that a session hides from games: the pad's own and its input
/// nodes, unless the pad has none or hiding is off.
pub fn hidden_nodes(l2cap: bool, hide: bool, pad: &str, inputs: &Vec<Vec<char>>) -> (r: Vec<
    Vec<char>,
>)
    ensures
        text::views(r@) == (if l2cap || !hide {
            Seq::empty()
        } else {
            seq![pad@] + text::views(inputs@)
        }),
{
    let mut out: Vec<Vec<char>> = Vec::new();
    if l2cap || !hide {
        assert(text::views(out@) =~= Seq::empty());
        return out;
    }
    out.push(text::chars_of(pad));
    let ghost all = text::views(inputs@);
    let mut i: usize = 0;
    assert(text::views(out@) =~= seq![pad@] + all.subrange(0, 0));
    while i < inputs.len()
        invariant
            i <= inputs@.len(),
            all == text::views(inputs@),
            text::views(out@) == seq![pad@] + all.subrange(0, i as int),
        decreases inputs@.len() - i,
    {
        let ghost before = text::views(out@);
        let node: Vec<char> = text::slice_of(inputs[i].as_slice(), 0, inputs[i].len());
        assert(node@ =~= all[i as int]);
        out.push(node);
        assert(text::views(out@) =~= before.push(all[i as int]));
        assert(text::views(out@) =~= seq![pad@] + all.subrange(0, i + 1));
        i = i + 1;
    }
    assert(all.subrange(0, all.len() as int) =~= all);
    out
}

/// The nodes among `nodes` that nothing is mounted on, in turn.
pub open spec fn bare_nodes(mounts: Seq<char>, nodes: Seq<Seq<char>>) -> Seq<Seq<char>>
    decreases nodes.len(),
{
    if nodes.len() == 0 {
        Seq::empty()
    } else {
        let before = bare_nodes(mounts, nodes.drop_last());
        if mounted_on(mounts, nodes.last()) {
            before
        } else {
            before.push(nodes.last())
        }
    }
}

/// The nodes that are not hidden though they should be.
pub fn missing_nodes(mounts: &str, nodes: &Vec<Vec<char>>) -> (r: Vec<Vec<char>>)
    ensures
        text::views(r@) == bare_nodes(mounts@, text::views(nodes@)),
{
    let ghost all = text::views(nodes@);
    let mut out: Vec<Vec<char>> = Vec::new();
    let mut i: usize = 0;
    assert(all.subrange(0, 0) =~= Seq::empty());
    assert(text::views(out@) =~= Seq::empty());
    while i < nodes.len()
        invariant
            i <= nodes@.len(),
            all == text::views(nodes@),
            text::views(out@) == bare_nodes(mounts@, all.subrange(0, i as int)),
        decreases nodes@.len() - i,
    {
        assert(all.subrange(0, i + 1).drop_last() =~= all.subrange(0, i as int));
        let name: String = text::string_of(nodes[i].as_slice());
        assert(name@ == all[i as int]);
        if !node_mounted(mounts, name.as_str()) {
            let ghost before = text::views(out@);
            let node: Vec<char> = text::slice_of(nodes[i].as_slice(), 0, nodes[i].len());
            assert(node@ =~= all[i as int]);
            out.push(node);
            assert(text::views(out@) =~= before.push(all[i as int]));
        }
        i = i + 1;
    }
    assert(all.subrange(0, all.len() as int) =~= all);
    out
}

// ---------------------------------------------------------------- desktop audio

/// Name of the sink that stands for the pad over Bluetooth.
pub const PAD_SINK_NODE: &'static str =
    "alsa_output.usb-Sony_Interactive_Entertainment_DualSense_Wireless_Controller-00.Default__Speaker__sink";

/// Whether a sink is that of a cabled pad.
pub open spec fn is_usb_pad_sink(name: Seq<char>) -> bool {
    text::has_prefix(name, "alsa_output.usb-Sony"@) && (text::occurs(name, "DualSense"@)
        || text::occurs(name, "DualShock"@))
}

/// The sink that a line of the sound server's list names as the pad's.
pub open spec fn pad_sink_in(line: Seq<char>, usb: bool) -> Option<Seq<char>> {
    match word_at(line, 1) {
        Some(name) => if (usb && is_usb_pad_sink(name)) || (!usb && name == PAD_SINK_NODE@) {
            Some(name)
        } else {
            None
        },
        None => None,
    }
}

/// The first pad sink of the lines.
pub open spec fn first_pad_sink(lines: Seq<Seq<char>>, usb: bool) -> Option<Seq<char>>
    decreases lines.len(),
{
    if lines.len() == 0 {
        None
    } else {
        match first_pad_sink(lines.drop_last(), usb) {
            Some(n) => Some(n),
            None => pad_sink_in(lines.last(), usb),
        }
    }
}

proof fn first_pad_sink_stays(l: Seq<Seq<char>>, usb: bool, n: int)
    requires
        0 <= n <= l.len(),
        first_pad_sink(l.subrange(0, n), usb) is Some,
    ensures
        first_pad_sink(l, usb) == first_pad_sink(l.subrange(0, n), usb),
    decreases l.len() - n,
{
    if n == l.len() {
        assert(l.subrange(0, n) =~= l);
    } else {
        assert(l.subrange(0, n + 1).drop_last() =~= l.subrange(0, n));
        first_pad_sink_stays(l, usb, n + 1);
    }
}

/// The pad's sink in the sound server's list: of a cabled pad, or ours.
pub fn pad_sink(sinks: &str, usb: bool) -> (r: Option<String>)
    ensures
        config::opt_view(r) == first_pad_sink(text::lines_of(sinks@), usb),
{
    let lines: Vec<Vec<char>> = text::lines(text::chars_of(sinks).as_slice());
    let ghost all = text::lines_of(sinks@);
    let sony: Vec<char> = text::chars_of("alsa_output.usb-Sony");
    let sense: Vec<char> = text::chars_of("DualSense");
    let shock: Vec<char> = text::chars_of("DualShock");
    let mut i: usize = 0;
    while i < lines.len()
        invariant
            i <= lines@.len(),
            all == text::lines_of(sinks@),
            text::views(lines@) == all,
            sony@ == "alsa_output.usb-Sony"@,
            sense@ == "DualSense"@,
            shock@ == "DualShock"@,
            first_pad_sink(all.subrange(0, i as int), usb) is None,
        decreases lines@.len() - i,
    {
        assert(all.subrange(0, i + 1).drop_last() =~= all.subrange(0, i as int));
        assert(all[i as int] == lines@[i as int]@);
        let words: Vec<Vec<char>> = text::words(lines[i].as_slice());
        let ghost w = text::views(words@);
        assert(w.len() == words@.len());
        if words.len() > 1 {
            assert(w[1] == words@[1]@);
            let name: &[char] = words[1].as_slice();
            let found: bool = if usb {
                text::starts_with(name, sony.as_slice()) && (text::contains(name, sense.as_slice())
                    || text::contains(name, shock.as_slice()))
            } else {
                text::spells(name, PAD_SINK_NODE)
            };
            if found {
                proof {
                    first_pad_sink_stays(all, usb, i + 1);
                }
                return Some(text::string_of(name));
            }
        }
        i = i + 1;
    }
    assert(all.subrange(0, all.len() as int) =~= all);
    None
}

/// The names of the sinks in the sound server's list.
pub open spec fn sink_names(lines: Seq<Seq<char>>) -> Seq<Seq<char>>
    decreases lines.len(),
{
    if lines.len() == 0 {
        Seq::empty()
    } else {
        let before = sink_names(lines.drop_last());
        match word_at(lines.last(), 1) {
            Some(n) => before.push(n),
            None => before,
        }
    }
}

/// The first name that is not our own sink.
pub open spec fn first_other(names: Seq<Seq<char>>) -> Option<Seq<char>>
    decreases names.len(),
{
    if names.len() == 0 {
        None
    } else if names[0] != PAD_SINK_NODE@ {
        Some(names[0])
    } else {
        first_other(names.subrange(1, names.len() as int))
    }
}

/// Where music is forwarded to: the configured sink, else the default one if
/// it is listed, else the first listed; never our own, which would feed back.
pub open spec fn forward_target(
    configured: Option<String>,
    sinks: Option<String>,
    default: Option<String>,
) -> Option<Seq<char>> {
    if configured is Some && (configured->0)@.len() > 0 && (configured->0)@ != PAD_SINK_NODE@ {
        Some((configured->0)@)
    } else if sinks is None {
        None
    } else {
        let names = sink_names(text::lines_of(text::trimmed((sinks->0)@)));
        if names.len() == 0 {
            None
        } else {
            let d = text::trimmed((default->0)@);
            if default is Some && d.len() > 0 && d != PAD_SINK_NODE@ && names.contains(d) {
                Some(d)
            } else {
                first_other(names)
            }
        }
    }
}

fn listed(sinks: &str) -> (r: Vec<Vec<char>>)
    ensures
        text::views(r@) == sink_names(text::lines_of(text::trimmed(sinks@))),
{
    let cleaned: Vec<char> = text::trim(text::chars_of(sinks).as_slice());
    let lines: Vec<Vec<char>> = text::lines(cleaned.as_slice());
    let ghost all = text::lines_of(text::trimmed(sinks@));
    let mut out: Vec<Vec<char>> = Vec::new();
    let mut i: usize = 0;
    assert(all.subrange(0, 0) =~= Seq::empty());
    assert(text::views(out@) =~= Seq::empty());
    while i < lines.len()
        invariant
            i <= lines@.len(),
            text::views(lines@) == all,
            text::views(out@) == sink_names(all.subrange(0, i as int)),
        decreases lines@.len() - i,
    {
        assert(all.subrange(0, i + 1).drop_last() =~= all.subrange(0, i as int));
        assert(all[i as int] == lines@[i as int]@);
        let words: Vec<Vec<char>> = text::words(lines[i].as_slice());
        let ghost w = text::views(words@);
        assert(w.len() == words@.len());
        if words.len() > 1 {
            assert(w[1] == words@[1]@);
            let name: Vec<char> = text::slice_of(words[1].as_slice(), 0, words[1].len());
            assert(name@ =~= w[1]);
            let ghost before = text::views(out@);
            out.push(name);
            assert(text::views(out@) =~= before.push(w[1]));
        }
        i = i + 1;
    }
    assert(all.subrange(0, all.len() as int) =~= all);
    out
}

/// Where music is forwarded to, from the configuration and what the sound
/// server lists.
pub fn pick_forward_target(
    configured: &Option<String>,
    sinks: &Option<String>,
    default: &Option<String>,
) -> (r: Option<String>)
    ensures
        config::opt_view(r) == forward_target(*configured, *sinks, *default),
{
    match configured {
        Some(t) => {
            if !t.as_str().is_empty() && !text::same(t.as_str(), PAD_SINK_NODE) {
                return Some(t.clone());
            }
        },
        None => {},
    }
    match sinks {
        None => None,
        Some(list) => {
            let names: Vec<Vec<char>> = listed(list.as_str());
            let ghost all = text::views(names@);
            if names.len() == 0 {
                assert(all.len() == 0);
                return None;
            }
            match default {
                Some(d) => {
                    let t: Vec<char> = text::trim(text::chars_of(d.as_str()).as_slice());
                    if t.len() > 0 && !text::spells(t.as_slice(), PAD_SINK_NODE) && has(&names, &t) {
                        return Some(text::string_of(t.as_slice()));
                    }
                },
                None => {},
            }
            first_not_ours(&names)
        },
    }
}

fn first_not_ours(names: &Vec<Vec<char>>) -> (r: Option<String>)
    ensures
        config::opt_view(r) == first_other(text::views(names@)),
{
    let ghost all = text::views(names@);
    let mut i: usize = 0;
    assert(all.subrange(0, all.len() as int) =~= all);
    while i < names.len()
        invariant
            i <= names@.len(),
            all == text::views(names@),
            first_other(all.subrange(i as int, all.len() as int)) == first_other(all),
        decreases names@.len() - i,
    {
        let ghost rest = all.subrange(i as int, all.len() as int);
        assert(rest[0] == names@[i as int]@);
        if !text::spells(names[i].as_slice(), PAD_SINK_NODE) {
            return Some(text::string_of(names[i].as_slice()));
        }
        assert(rest.subrange(1, rest.len() as int) =~= all.subrange(i + 1, all.len() as int));
        i = i + 1;
    }
    None
}

fn has(names: &Vec<Vec<char>>, t: &Vec<char>) -> (r: bool)
    ensures
        r == text::views(names@).contains(t@),
{
    let ghost all = text::views(names@);
    let mut i: usize = 0;
    while i < names.len()
        invariant
            i <= names@.len(),
            all == text::views(names@),
            forall|j: int| 0 <= j < i ==> #[trigger] all[j] != t@,
        decreases names@.len() - i,
    {
        assert(all[i as int] == names@[i as int]@);
        if text::same_chars(names[i].as_slice(), t.as_slice()) {
            return true;
        }
        i = i + 1;
    }
    false
}

/// Music is never forwarded to our own sink.
pub proof fn forwarding_never_feeds_back(
    configured: Option<String>,
    sinks: Option<String>,
    default: Option<String>,
)
    ensures
        forward_target(configured, sinks, default) != Some(PAD_SINK_NODE@),
{
    if sinks is Some {
        first_other_is_other(sink_names(text::lines_of(text::trimmed((sinks->0)@))));
    }
}

proof fn first_other_is_other(names: Seq<Seq<char>>)
    ensures
        first_other(names) != Some(PAD_SINK_NODE@),
    decreases names.len(),
{
    if names.len() > 0 {
        first_other_is_other(names.subrange(1, names.len() as int));
    }
}

/// The index of a cabled pad's card in a line of the sound server's list.
pub open spec fn card_in(line: Seq<char>) -> Option<Seq<char>> {
    let w = text::words_of(line);
    if exists|k: int|
        0 <= k < w.len() && text::has_prefix(#[trigger] w[k], "alsa_card.usb-Sony"@) {
        Some(w[0])
    } else {
        None
    }
}

/// The index of the first cabled pad's card.
pub open spec fn first_card(lines: Seq<Seq<char>>) -> Option<Seq<char>>
    decreases lines.len(),
{
    if lines.len() == 0 {
        None
    } else {
        match first_card(lines.drop_last()) {
            Some(n) => Some(n),
            None => card_in(lines.last()),
        }
    }
}

proof fn first_card_stays(l: Seq<Seq<char>>, n: int)
    requires
        0 <= n <= l.len(),
        first_card(l.subrange(0, n)) is Some,
    ensures
        first_card(l) == first_card(l.subrange(0, n)),
    decreases l.len() - n,
{
    if n == l.len() {
        assert(l.subrange(0, n) =~= l);
    } else {
        assert(l.subrange(0, n + 1).drop_last() =~= l.subrange(0, n));
        first_card_stays(l, n + 1);
    }
}

/// The index of the cabled pad's card in the sound server's list.
pub fn pad_card(cards: &str) -> (r: Option<String>)
    ensures
        config::opt_view(r) == first_card(text::lines_of(cards@)),
{
    let lines: Vec<Vec<char>> = text::lines(text::chars_of(cards).as_slice());
    let ghost all = text::lines_of(cards@);
    let sony: Vec<char> = text::chars_of("alsa_card.usb-Sony");
    let mut i: usize = 0;
    while i < lines.len()
        invariant
            i <= lines@.len(),
            all == text::lines_of(cards@),
            text::views(lines@) == all,
            sony@ == "alsa_card.usb-Sony"@,
            first_card(all.subrange(0, i as int)) is None,
        decreases lines@.len() - i,
    {
        assert(all.subrange(0, i + 1).drop_last() =~= all.subrange(0, i as int));
        assert(all[i as int] == lines@[i as int]@);
        let words: Vec<Vec<char>> = text::words(lines[i].as_slice());
        let ghost w = text::views(words@);
        assert(w.len() == words@.len());
        let mut k: usize = 0;
        while k < words.len()
            invariant
                k <= words@.len(),
                w == text::views(words@),
                w == text::words_of(all[i as int]),
                i < all.len(),
                all == text::lines_of(cards@),
                all.subrange(0, i + 1).drop_last() == all.subrange(0, i as int),
                sony@ == "alsa_card.usb-Sony"@,
                first_card(all.subrange(0, i as int)) is None,
                forall|j: int|
                    0 <= j < k ==> !text::has_prefix(#[trigger] w[j], "alsa_card.usb-Sony"@),
            decreases words@.len() - k,
        {
            assert(w[k as int] == words@[k as int]@);
            if text::starts_with(words[k].as_slice(), sony.as_slice()) {
                proof {
                    assert(card_in(all[i as int]) == Some(w[0]));
                    assert(all.subrange(0, i + 1).last() == all[i as int]);
                    first_card_stays(all, i + 1);
                    assert(w[0] == words@[0]@);
                }
                return Some(text::string_of(words[0].as_slice()));
            }
            k = k + 1;
        }
        i = i + 1;
    }
    assert(all.subrange(0, all.len() as int) =~= all);
    None
}

// ---------------------------------------------------------------- following the pad's sink

/// How often the pad's sink is looked for.
pub const FOLLOW_TRIES: u32 = 10;

/// Makes the pad's sink the default one after a connect: looks for it a few
/// times, and once switches the card of a cabled pad off and on again.
pub struct FollowSink {
    pub usb: bool,
    pub tries: u32,
    pub cycled: bool,
}

/// What to do next.
pub enum FollowStep {
    /// Make this sink the default, and stop.
    Switch(String),
    /// List the cards.
    Cards,
    /// Wait a second.
    Pause,
}

impl FollowSink {
    pub fn new(usb: bool) -> (r: FollowSink)
        ensures
            r == (FollowSink { usb, tries: 0, cycled: false }),
    {
        FollowSink { usb, tries: 0, cycled: false }
    }

    /// Whether to give up.
    pub fn done(&self) -> (r: bool)
        ensures
            r == (self.tries >= FOLLOW_TRIES),
    {
        self.tries >= FOLLOW_TRIES
    }

    /// What to do with the list of sinks, where it could be had.
    pub fn on_sinks(&mut self, sinks: &Option<String>) -> (r: FollowStep)
        requires
            old(self).tries < FOLLOW_TRIES,
        ensures
            *final(self) == (FollowSink { tries: (old(self).tries + 1) as u32, ..*old(self) }),
            match *sinks {
                None => r is Pause,
                Some(text) => match first_pad_sink(text::lines_of(text@), old(self).usb) {
                    Some(name) => r matches FollowStep::Switch(n) && n@ == name,
                    None => if old(self).usb && !old(self).cycled {
                        r is Cards
                    } else {
                        r is Pause
                    },
                },
            },
    {
        self.tries = self.tries + 1;
        match sinks {
            None => FollowStep::Pause,
            Some(text) => match pad_sink(text.as_str(), self.usb) {
                Some(name) => FollowStep::Switch(name),
                None => {
                    if self.usb && !self.cycled {
                        FollowStep::Cards
                    } else {
                        FollowStep::Pause
                    }
                },
            },
        }
    }

    /// The index of the card to switch off and on, from the list of cards,
    /// where it could be had.
    pub fn on_cards(&mut self, cards: &Option<String>) -> (r: Option<String>)
        ensures
            config::opt_view(r) == (match *cards {
                Some(text) => first_card(text::lines_of(text@)),
                None => None,
            }),
            *final(self) == (FollowSink { cycled: old(self).cycled || r is Some, ..*old(self) }),
    {
        match cards {
            Some(text) => {
                let card: Option<String> = pad_card(text.as_str());
                if card.is_some() {
                    self.cycled = true;
                }
                card
            },
            None => None,
        }
    }
}

/// The profiles to try on the card, in turn.
pub fn cycle_profiles() -> (r: [&'static str; 3])
    ensures
        r@[0]@ == "pro-audio"@,
        r@[1]@ == "Default (Headphones, Mic)"@,
        r@[2]@ == "Default (Mic, Speaker)"@,
{
    ["pro-audio", "Default (Headphones, Mic)", "Default (Mic, Speaker)"]
}

// ---------------------------------------------------------------- messages

/// What the user is told of the headset.
pub fn jack_message(plugged: bool) -> (r: (&'static str, &'static str))
    ensures
        plugged ==> r.0@ == "Headset connected"@ && r.1@
            == "Routing audio to the controller jack"@,
        !plugged ==> r.0@ == "Headset disconnected"@ && r.1@
            == "Routing audio to the controller speaker"@,
{
    if plugged {
        ("Headset connected", "Routing audio to the controller jack")
    } else {
        ("Headset disconnected", "Routing audio to the controller speaker")
    }
}

/// The line that shows a toast. Summary and body are plain ASCII without
/// quotes.
pub fn toast_line(summary: &str, body: &str) -> (r: String)
    ensures
        r@ == "notif {\"app\":\"mdrv-ds\",\"summary\":\""@ + summary@ + "\",\"body\":\""@ + body@
            + "\",\"icon\":\"\",\"timeout_ms\":2500}\n"@,
{
    let mut s: String = "notif {\"app\":\"mdrv-ds\",\"summary\":\"".to_owned();
    s.append(summary);
    s.append("\",\"body\":\"");
    s.append(body);
    s.append("\",\"icon\":\"\",\"timeout_ms\":2500}\n");
    s
}

/// The directory of the log files.
pub fn log_dir(state_home: &Option<String>, home: &Option<String>) -> (r: String)
    ensures
        r@ == text::joined(text::base_dir(*state_home, *home, ".local/state"@), "mdrv-ds"@),
{
    text::join(text::base(state_home, home, ".local/state").as_str(), "mdrv-ds")
}

/// Most lines of a report dump.
pub const DUMP_LINES: u64 = 200_000;

/// The line that dumps a relayed report beside the report that it was made of.
pub fn dump_line(report: &[u8], raw: &[u8]) -> (r: String)
    ensures
        r@ == "usb "@ + hid::hex_of(report@) + " raw "@ + hid::hex_of(
            if raw@.len() > 78 {
                raw@.subrange(0, 78)
            } else {
                raw@
            },
        ),
{
    let n: usize = if raw.len() > 78 {
        78
    } else {
        raw.len()
    };
    let head: Vec<u8> = crate::bytes::slice_vec(raw, 0, n);
    assert(head@ =~= (if raw@.len() > 78 {
        raw@.subrange(0, 78)
    } else {
        raw@
    }));
    let mut s: String = "usb ".to_owned();
    let shown: String = hid::hex(report);
    s.append(shown.as_str());
    s.append(" raw ");
    let from: String = hid::hex(head.as_slice());
    s.append(from.as_str());
    s
}

/// Whether a log file is so long that it starts over: more than 1 MiB.
pub fn log_is_full(len: u64) -> (r: bool)
    ensures
        r == (len > 0x10_0000),
{
    len > 0x10_0000
}

/// Only the DualSense of a direct session is ever presented as a cabled one,
/// and only where the configuration asks for it.
pub proof fn cabled_view_is_asked_for(cfg: Config, product: u32, l2cap: bool)
    ensures
        wants_usb_view(cfg, product, l2cap) <==> l2cap && product != 0x05c4 && cfg.force_bus is Some
            && (cfg.force_bus->0)@ == "usb"@,
{
}

/// The virtual pad is the real one's double: vendor 054c, the same product and
/// version, a name by its product and an address of its own; on the bus of the
/// real pad and with its descriptor, but cabled, with the cabled descriptor, in
/// the cabled view.
pub proof fn virtual_pads_double_the_real(cfg: Config, info: PadInfo, l2cap: bool)
    ensures
        ({
            let v = virtual_shape(cfg, info, l2cap);
            let cabled = wants_usb_view(cfg, info.product, l2cap);
            &&& v.vendor == 0x054c
            &&& v.product == info.product
            &&& v.version == info.fw_version
            &&& info.transport == Transport::Usb || cabled ==> v.bus == 3
            &&& info.transport == Transport::Bluetooth && !cabled ==> v.bus == 5
            &&& info.product == 0x05c4 ==> v.name == "DualShock 4 Wireless Controller"@
            &&& info.product != 0x05c4 ==> v.name == "DualSense Wireless Controller"@
            &&& v.uniq == proxy::virtual_of(info.uniq@)
            &&& cabled ==> v.rdesc == rdesc::usb_descriptor()
            &&& !cabled ==> v.rdesc == info.rdesc@
        }),
{
}

/// A DualSense over Bluetooth has an audio sink unless the configuration turns
/// it off: the lasting one in a direct session, one of its own else. A
/// DualShock 4 and a cabled pad have none.
pub proof fn bluetooth_pads_have_a_sink(cfg: Config, info: PadInfo, l2cap: bool)
    ensures
        cfg.audio.sink == Some(false) || info.product == 0x05c4 ==> sink_for(cfg, info, l2cap)
            == SinkChoice::Absent,
        cfg.audio.sink != Some(false) && info.product != 0x05c4 && l2cap ==> sink_for(
            cfg,
            info,
            l2cap,
        ) == SinkChoice::Persistent,
        cfg.audio.sink != Some(false) && info.product != 0x05c4 && !l2cap && info.transport
            == Transport::Bluetooth ==> sink_for(cfg, info, l2cap) == SinkChoice::Session,
        !l2cap && info.transport == Transport::Usb ==> sink_for(cfg, info, l2cap)
            == SinkChoice::Absent,
{
}

/// The octets of a written address are those that were written; of a text that
/// is no address, the fixed ones.
pub proof fn octets_are_those_written(mac: Seq<u8>, s: Seq<char>)
    requires
        mac.len() == 6,
    ensures
        mac_octets(proxy::mac_text(mac)) == mac,
        proxy::mac_of(s) is None ==> mac_octets(s) == seq![0xaau8, 0xbb, 0xcc, 0xdd, 0xee, 0x01],
{
    proxy::mac_text_round_trip(mac);
}

/// Input is blocked exactly while the file says something other than "none".
pub proof fn none_and_nothing_do_not_block(s: Seq<char>)
    ensures
        !gate_active(None),
        text::trimmed(s).len() == 0 ==> !gate_active(Some(s)),
        text::trimmed(s) == "none"@ ==> !gate_active(Some(s)),
        text::trimmed(s).len() > 0 && text::trimmed(s) != "none"@ ==> gate_active(Some(s)),
{
}

/// A mount target without an escaped space is what it is written as, and each
/// escaped space becomes one.
pub proof fn escaped_spaces_are_spaces(a: Seq<char>, b: Seq<char>)
    requires
        !a.contains('\\'),
    ensures
        unescaped(a) == a,
        unescaped(a + seq!['\\', '0', '4', '0'] + b) == a.push(' ') + unescaped(b),
    decreases a.len(),
{
    let mark = seq!['\\', '0', '4', '0'];
    let all = a + mark + b;
    if a.len() == 0 {
        assert(all.subrange(4, all.len() as int) =~= b);
        assert(seq![' '] + unescaped(b) =~= a.push(' ') + unescaped(b));
    } else {
        let rest = a.subrange(1, a.len() as int);
        assert forall|c: char| rest.contains(c) implies a.contains(c) by {
            let k = choose|k: int| 0 <= k < rest.len() && rest[k] == c;
            assert(a[k + 1] == c);
        }
        assert(a[0] != '\\') by {
            assert(a.contains(a[0]));
        }
        escaped_spaces_are_spaces(rest, b);
        assert(all[0] == a[0]);
        assert(all.subrange(1, all.len() as int) =~= rest + mark + b);
        assert(seq![a[0]] + rest =~= a);
        assert(seq![a[0]] + (rest.push(' ') + unescaped(b)) =~= a.push(' ') + unescaped(b));
    }
}

/// A line of the mount table hides a node exactly where its third word is
/// `devtmpfs` and its second a hidraw or input node, which is then named as it
/// reads.
pub proof fn device_mounts_hide_nodes(line: Seq<char>)
    ensures
        ({
            let w = text::words_of(line);
            let node = unescaped(w[1]);
            &&& stale_in(line) is Some <==> w.len() >= 3 && w[2] == "devtmpfs"@ && (
            text::has_prefix(node, "/dev/hidraw"@) || text::has_prefix(node, "/dev/input/"@))
            &&& stale_in(line) is Some ==> stale_in(line)->0 == node
        }),
{
}

/// Every line that hides a node adds it behind those of the lines before, and
/// no other line adds one.
pub proof fn hidden_nodes_are_listed_in_turn(lines: Seq<Seq<char>>, line: Seq<char>)
    ensures
        stale_nodes(Seq::empty()).len() == 0,
        stale_in(line) is None ==> stale_nodes(lines.push(line)) == stale_nodes(lines),
        stale_in(line) is Some ==> stale_nodes(lines.push(line)) == stale_nodes(lines).push(
            stale_in(line)->0,
        ),
{
    assert(lines.push(line).drop_last() =~= lines);
}

/// The nodes that are missing are those that nothing is mounted on, and all of
/// them.
pub proof fn bare_nodes_are_missing(mounts: Seq<char>, nodes: Seq<Seq<char>>, n: Seq<char>)
    ensures
        bare_nodes(mounts, nodes).contains(n) <==> nodes.contains(n) && !mounted_on(mounts, n),
    decreases nodes.len(),
{
    if nodes.len() > 0 {
        let before = bare_nodes(mounts, nodes.drop_last());
        let all = bare_nodes(mounts, nodes);
        bare_nodes_are_missing(mounts, nodes.drop_last(), n);
        if nodes.drop_last().contains(n) {
            let k = choose|k: int| 0 <= k < nodes.drop_last().len() && nodes.drop_last()[k] == n;
            assert(nodes[k] == n);
        }
        if nodes.contains(n) && !nodes.drop_last().contains(n) {
            let k = choose|k: int| 0 <= k < nodes.len() && nodes[k] == n;
            assert(k < nodes.len() - 1 ==> nodes.drop_last()[k] == n);
        }
        if n == nodes.last() {
            assert(nodes[nodes.len() - 1] == n);
            if !mounted_on(mounts, n) {
                assert(all[all.len() - 1] == n);
            }
        }
        if before.contains(n) {
            let k = choose|k: int| 0 <= k < before.len() && before[k] == n;
            assert(all[k] == n);
        }
        if all.contains(n) && n != nodes.last() {
            let k = choose|k: int| 0 <= k < all.len() && all[k] == n;
            assert(k < before.len());
            assert(before[k] == n);
        }
    }
}

/// The pad's sink is the second word of the first line that names one: of a
/// cabled pad any Sony sink of a DualSense or DualShock, over Bluetooth our
/// own.
pub proof fn first_sink_line_decides(l: Seq<Seq<char>>, usb: bool, k: int)
    requires
        0 <= k <= l.len(),
        forall|j: int| 0 <= j < k ==> pad_sink_in(#[trigger] l[j], usb) is None,
        k < l.len() ==> pad_sink_in(l[k], usb) is Some,
    ensures
        k < l.len() ==> first_pad_sink(l, usb) == Some(text::words_of(l[k])[1]),
        k == l.len() ==> first_pad_sink(l, usb) is None,
    decreases l.len(),
{
    if l.len() > 0 {
        first_sink_line_decides(l.drop_last(), usb, if k == l.len() {
            k - 1
        } else {
            k
        });
    }
}

/// Which sinks are the pad's.
pub proof fn pad_sinks_are_told_by_name(line: Seq<char>)
    requires
        text::words_of(line).len() >= 2,
    ensures
        ({
            let name = text::words_of(line)[1];
            &&& pad_sink_in(line, true) is Some <==> text::has_prefix(name, "alsa_output.usb-Sony"@)
                && (text::occurs(name, "DualSense"@) || text::occurs(name, "DualShock"@))
            &&& pad_sink_in(line, false) is Some <==> name == PAD_SINK_NODE@
        }),
{
}

/// The card of a cabled pad is the first word of the first line that holds a
/// word of a Sony card.
pub proof fn first_card_line_decides(l: Seq<Seq<char>>, k: int)
    requires
        0 <= k <= l.len(),
        forall|j: int| 0 <= j < k ==> card_in(#[trigger] l[j]) is None,
        k < l.len() ==> card_in(l[k]) is Some,
    ensures
        k < l.len() ==> first_card(l) == Some(text::words_of(l[k])[0]),
        k == l.len() ==> first_card(l) is None,
    decreases l.len(),
{
    if l.len() > 0 {
        first_card_line_decides(l.drop_last(), if k == l.len() {
            k - 1
        } else {
            k
        });
    }
}

/// Where music goes: a configured sink wins; else the default one where it is
/// listed; else the first that is listed and is not our own.
pub proof fn forward_targets_in_order(
    configured: Option<String>,
    sinks: Option<String>,
    default: Option<String>,
    k: int,
)
    ensures
        ({
            let own = PAD_SINK_NODE@;
            let fixed = configured is Some && (configured->0)@.len() > 0 && (configured->0)@ != own;
            let names = sink_names(text::lines_of(text::trimmed((sinks->0)@)));
            let d = text::trimmed((default->0)@);
            let usual = default is Some && d.len() > 0 && d != own && names.contains(d);
            let t = forward_target(configured, sinks, default);
            &&& fixed ==> t == Some((configured->0)@)
            &&& !fixed && sinks is None ==> t is None
            &&& !fixed && sinks is Some && usual ==> t == Some(d)
            &&& !fixed && sinks is Some && !usual && 0 <= k < names.len() && names[k] != own && (
            forall|j: int| 0 <= j < k ==> #[trigger] names[j] == own) ==> t == Some(names[k])
        }),
{
    if sinks is Some {
        let names = sink_names(text::lines_of(text::trimmed((sinks->0)@)));
        if 0 <= k < names.len() && names[k] != PAD_SINK_NODE@ && (forall|j: int|
            0 <= j < k ==> #[trigger] names[j] == PAD_SINK_NODE@) {
            first_other_is_the_first(names, k);
        }
    }
}

proof fn first_other_is_the_first(names: Seq<Seq<char>>, k: int)
    requires
        0 <= k < names.len(),
        names[k] != PAD_SINK_NODE@,
        forall|j: int| 0 <= j < k ==> #[trigger] names[j] == PAD_SINK_NODE@,
    ensures
        first_other(names) == Some(names[k]),
    decreases names.len(),
{
    if k > 0 {
        assert(names[0] == PAD_SINK_NODE@);
        let rest = names.subrange(1, names.len() as int);
        assert forall|j: int| 0 <= j < k - 1 implies #[trigger] rest[j] == PAD_SINK_NODE@ by {
            assert(rest[j] == names[j + 1]);
        }
        first_other_is_the_first(rest, k - 1);
    }
}

/// A cabled pad is there exactly where one of the pads is on the cable.
pub proof fn cabled_pads_are_noticed(
    pads: Seq<(String, String, Transport)>,
    p: (String, String, Transport),
)
    ensures
        !any_usb(Seq::empty()),
        p.2 == Transport::Usb ==> any_usb(pads.push(p)),
        p.2 == Transport::Bluetooth ==> any_usb(pads.push(p)) == any_usb(pads),
{
    let all = pads.push(p);
    if p.2 == Transport::Usb {
        assert(all[pads.len() as int].2 == Transport::Usb);
    }
    if any_usb(pads) {
        let i = choose|i: int| 0 <= i < pads.len() && (#[trigger] pads[i]).2 == Transport::Usb;
        assert(all[i].2 == Transport::Usb);
    }
    if p.2 == Transport::Bluetooth && any_usb(all) {
        let i = choose|i: int| 0 <= i < all.len() && (#[trigger] all[i]).2 == Transport::Usb;
        assert(pads[i].2 == Transport::Usb);
    }
}

/// A mount is on the node that the second word of its line names.
pub proof fn mounts_are_on_their_second_word(mounts: Seq<char>, node: Seq<char>, i: int)
    requires
        0 <= i < text::lines_of(mounts).len(),
    ensures
        text::words_of(text::lines_of(mounts)[i]).len() >= 2 && text::words_of(
            text::lines_of(mounts)[i],
        )[1] == node ==> mounted_on(mounts, node),
        (forall|k: int|
            0 <= k < text::lines_of(mounts).len() ==> text::words_of(
                #[trigger] text::lines_of(mounts)[k],
            ).len() < 2) ==> !mounted_on(mounts, node),
{
    assert(word_at(text::lines_of(mounts)[i], 1) == (if text::words_of(
        text::lines_of(mounts)[i],
    ).len() >= 2 {
        Some(text::words_of(text::lines_of(mounts)[i])[1])
    } else {
        None
    }));
}

/// The pad's sink is looked for ten times; a report dump ends after 200,000
/// lines; and the ends of a relay are told apart.
pub proof fn limits_of_a_session()
    ensures
        FOLLOW_TRIES == 10,
        DUMP_LINES == 200_000,
        RELAY_PAD_LOST == 1 && RELAY_EXIT == 2 && RELAY_HOLDER_LOST == 3,
{
}

/// A sink is listed by the second word of its line; a line without one lists
/// none.
pub proof fn sinks_are_listed_by_their_second_word(lines: Seq<Seq<char>>, line: Seq<char>)
    ensures
        sink_names(Seq::empty()).len() == 0,
        text::words_of(line).len() >= 2 ==> sink_names(lines.push(line)) == sink_names(lines).push(
            text::words_of(line)[1],
        ),
        text::words_of(line).len() < 2 ==> sink_names(lines.push(line)) == sink_names(lines),
{
    assert(lines.push(line).drop_last() =~= lines);
}

/// A line is that of a cabled pad's card exactly where one of its words begins
/// as a Sony card does; the card is then named by the line's first word.
pub proof fn cards_are_told_by_a_word(line: Seq<char>, k: int)
    ensures
        ({
            let w = text::words_of(line);
            &&& 0 <= k < w.len() && text::has_prefix(w[k], "alsa_card.usb-Sony"@) ==> card_in(line)
                == Some(w[0])
            &&& (forall|j: int|
                0 <= j < w.len() ==> !text::has_prefix(#[trigger] w[j], "alsa_card.usb-Sony"@))
                ==> card_in(line) is None
        }),
{
}

} // verus!
