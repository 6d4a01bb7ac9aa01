//! A second virtual pad in the shape of a wired Xbox 360 pad (045e:028e), fed
//! by the DualSense input stream.

use vstd::prelude::*;

use crate::bytes;
use crate::ipc::CreateMsg;
use crate::ipc::CreateShape;
use crate::proxy;
use crate::proxy::InputLayout;
use crate::text;
use crate::uhid::BUS_USB;

verus! {

/// Report descriptor of the pad: a two-byte header, d-pad and buttons,
/// triggers and sticks as in the xpad packet, and an eight-byte vendor output
/// report for rumble.
pub const XINPUT_RDESC: [u8; 204] = [
    0x05, 0x01, 0x09, 0x05, 0xa1, 0x01, 0x05, 0x01, 0x09, 0x3a, 0xa1, 0x02, 0x75, 0x08, 0x95, 0x02,
    0x05, 0x01, 0x09, 0x3f, 0x09, 0x3b, 0x81, 0x01, 0x75, 0x01, 0x15, 0x00, 0x25, 0x01, 0x35, 0x00,
    0x45, 0x01, 0x95, 0x04, 0x05, 0x09, 0x19, 0x0c, 0x29, 0x0f, 0x81, 0x02, 0x75, 0x01, 0x15, 0x00,
    0x25, 0x01, 0x35, 0x00, 0x45, 0x01, 0x95, 0x04, 0x05, 0x09, 0x09, 0x09, 0x09, 0x0a, 0x09, 0x07,
    0x09, 0x08, 0x81, 0x02, 0x75, 0x01, 0x15, 0x00, 0x25, 0x01, 0x35, 0x00, 0x45, 0x01, 0x95, 0x03,
    0x05, 0x09, 0x09, 0x05, 0x09, 0x06, 0x09, 0x0b, 0x81, 0x02, 0x75, 0x01, 0x95, 0x01, 0x81, 0x01,
    0x75, 0x01, 0x15, 0x00, 0x25, 0x01, 0x35, 0x00, 0x45, 0x01, 0x95, 0x04, 0x05, 0x09, 0x19, 0x01,
    0x29, 0x04, 0x81, 0x02, 0x75, 0x08, 0x15, 0x00, 0x26, 0xff, 0x00, 0x35, 0x00, 0x46, 0xff, 0x00,
    0x95, 0x02, 0x05, 0x01, 0x09, 0x32, 0x09, 0x35, 0x81, 0x02, 0x75, 0x10, 0x16, 0x00, 0x80, 0x26,
    0xff, 0x7f, 0x36, 0x00, 0x80, 0x46, 0xff, 0x7f, 0x05, 0x01, 0x09, 0x01, 0xa1, 0x00, 0x95, 0x02,
    0x05, 0x01, 0x09, 0x30, 0x09, 0x31, 0x81, 0x02, 0xc0, 0x05, 0x01, 0x09, 0x01, 0xa1, 0x00, 0x95,
    0x02, 0x05, 0x01, 0x09, 0x33, 0x09, 0x34, 0x81, 0x02, 0xc0, 0xc0, 0x06, 0x00, 0xff, 0x09, 0x01,
    0x15, 0x00, 0x26, 0xff, 0x00, 0x75, 0x08, 0x95, 0x08, 0x91, 0x02, 0xc0,
];

/// Path of the live override file.
pub fn override_path(runtime_dir: &Option<String>) -> (r: String)
    ensures
        r@ == text::runtime_path(*runtime_dir, "mdrv-ds-xinput"@),
{
    text::in_runtime_dir(runtime_dir, "mdrv-ds-xinput")
}

/// Whether the second pad is wanted: "on" and "off" in the override file win
/// over the configuration; an absent file, or anything else in it, does not.
pub open spec fn wanted(cfg: bool, file: Option<Seq<char>>) -> bool {
    match file {
        Some(s) => if text::trimmed(s) == "on"@ {
            true
        } else if text::trimmed(s) == "off"@ {
            false
        } else {
            cfg
        },
        None => cfg,
    }
}

/// Whether the second pad is wanted, from the configuration and the text of
/// the override file.
pub fn effective(cfg: bool, file: &Option<String>) -> (r: bool)
    ensures
        r == wanted(cfg, crate::config::opt_view(*file)),
{
    match file {
        Some(s) => {
            let t: Vec<char> = text::trim(text::chars_of(s.as_str()).as_slice());
            proof {
                reveal_strlit("on");
                reveal_strlit("off");
            }
            if text::spells(t.as_slice(), "on") {
                true
            } else if text::spells(t.as_slice(), "off") {
                false
            } else {
                cfg
            }
        },
        None => cfg,
    }
}

/// The pad's shape. Its address is that of the DualSense's virtual pad with
/// one more bit flipped, so the two never collide.
pub open spec fn pad_shape(mac: Seq<u8>) -> CreateShape {
    CreateShape {
        bus: BUS_USB,
        vendor: 0x045e,
        product: 0x028e,
        version: 0x0114,
        name: "Xbox 360 Controller"@,
        uniq: proxy::mac_text(mac.update(0, mac[0] ^ 0x04)),
        rdesc: XINPUT_RDESC@,
    }
}

/// The create message of the pad beside a virtual pad with the address `mac`.
pub fn create_msg(mac: &[u8; 6]) -> (r: CreateMsg)
    ensures
        r@ == pad_shape(mac@),
{
    let mut own: [u8; 6] = *mac;
    own[0] = mac[0] ^ 0x04;
    let table: [u8; 204] = XINPUT_RDESC;
    CreateMsg {
        bus: BUS_USB,
        vendor: 0x045e,
        product: 0x028e,
        version: 0x0114,
        name: "Xbox 360 Controller".to_owned(),
        uniq: proxy::format_mac(&own),
        rdesc: bytes::copy_of(table.as_slice()),
    }
}

/// The two virtual pads have different addresses.
pub proof fn pads_never_share_an_address(mac: Seq<u8>)
    requires
        mac.len() == 6,
    ensures
        pad_shape(mac).uniq != proxy::mac_text(mac),
{
    let own = mac.update(0, mac[0] ^ 0x04);
    proxy::mac_text_round_trip(own);
    proxy::mac_text_round_trip(mac);
    let v = mac[0];
    assert(v ^ 0x04 != v) by (bit_vector);
    assert(own[0] != mac[0]);
}

// ---------------------------------------------------------------- input

/// Neutral report: the packet's header, all fields zero.
pub open spec fn neutral_packet() -> Seq<u8> {
    seq![0u8, 0x14] + bytes::zeros(12)
}

/// Neutral report: the packet's header, all fields zero.
pub fn neutral() -> (r: [u8; 14])
    ensures
        r@ == neutral_packet(),
{
    let r: [u8; 14] = [0, 0x14, 0, 0, 0, 0, 0, 0, 0, 0, 0, 0, 0, 0];
    assert(r@ =~= neutral_packet());
    r
}

/// A byte of a report; zero behind its end.
pub open spec fn byte_at(report: Seq<u8>, i: int) -> u8 {
    if i < report.len() {
        report[i]
    } else {
        0
    }
}

/// `out` where `b` has a bit of `mask`.
pub open spec fn flag_of(b: u8, mask: u8, out: u8) -> u8 {
    if b & mask != 0 {
        out
    } else {
        0
    }
}

/// D-pad bits up, down, left and right of a hat-switch compass value;
/// diagonals combine.
pub open spec fn dpad_of(hat: u8) -> u8 {
    if hat == 0 {
        0x01
    } else if hat == 1 {
        0x09
    } else if hat == 2 {
        0x08
    } else if hat == 3 {
        0x0a
    } else if hat == 4 {
        0x02
    } else if hat == 5 {
        0x06
    } else if hat == 6 {
        0x04
    } else if hat == 7 {
        0x05
    } else {
        0x00
    }
}

/// A stick value in the signed 16-bit range, centre at zero.
pub open spec fn axis_of(v: int) -> int {
    if v * 257 < -32768 {
        -32768
    } else if v * 257 > 32767 {
        32767
    } else {
        v * 257
    }
}

/// A signed 16-bit value, least significant byte first.
pub open spec fn signed16(v: int) -> Seq<u8> {
    bytes::le16(if v < 0 {
        v + 65536
    } else {
        v
    })
}

/// The xpad packet of a DualSense report. Byte 2 holds the d-pad, start
/// (options), back (create, or the touchpad's click) and the stick clicks;
/// byte 3 the shoulder buttons, guide (PS) and A, B, X, Y (cross, circle,
/// square, triangle); then the triggers, and the sticks with up positive.
pub open spec fn packet_of(report: Seq<u8>, l: InputLayout) -> Seq<u8> {
    let b0 = byte_at(report, l.btn0 as int);
    let b1 = byte_at(report, l.btn0 + 1);
    let b2 = byte_at(report, l.btn0 + 2);
    seq![
        0u8,
        0x14,
        dpad_of(b0 & 0x0f) | flag_of(b1, 0x20, 0x10) | flag_of(b1, 0x10, 0x20) | flag_of(
            b2,
            0x02,
            0x20,
        ) | flag_of(b1, 0x40, 0x40) | flag_of(b1, 0x80, 0x80),
        flag_of(b1, 0x01, 0x01) | flag_of(b1, 0x02, 0x02) | flag_of(b2, 0x01, 0x04) | flag_of(
            b0,
            0x20,
            0x10,
        ) | flag_of(b0, 0x40, 0x20) | flag_of(b0, 0x10, 0x40) | flag_of(b0, 0x80, 0x80),
        byte_at(report, l.trig0 as int),
        byte_at(report, l.trig0 + 1),
    ] + signed16(axis_of(byte_at(report, l.stick0 as int) - 128)) + signed16(
        axis_of(128 - byte_at(report, l.stick0 + 1)),
    ) + signed16(axis_of(byte_at(report, l.stick0 + 2) - 128)) + signed16(
        axis_of(128 - byte_at(report, l.stick0 + 3)),
    )
}

fn get(report: &[u8], i: usize) -> (r: u8)
    ensures
        r == byte_at(report@, i as int),
{
    if i < report.len() {
        report[i]
    } else {
        0
    }
}

fn flag(b: u8, mask: u8, out: u8) -> (r: u8)
    ensures
        r == flag_of(b, mask, out),
{
    if b & mask != 0 {
        out
    } else {
        0
    }
}

fn dpad(hat: u8) -> (r: u8)
    ensures
        r == dpad_of(hat),
{
    match hat {
        0 => 0x01,
        1 => 0x09,
        2 => 0x08,
        3 => 0x0a,
        4 => 0x02,
        5 => 0x06,
        6 => 0x04,
        7 => 0x05,
        _ => 0x00,
    }
}

/// The two bytes of a scaled axis; `v` is the distance from the centre.
fn axis(v: i32) -> (r: (u8, u8))
    requires
        -128 <= v <= 128,
    ensures
        seq![r.0, r.1] == signed16(axis_of(v as int)),
{
    let wide: i32 = v * 257;
    let a: i32 = if wide < -32768 {
        -32768
    } else if wide > 32767 {
        32767
    } else {
        wide
    };
    let u: u32 = if a < 0 {
        (a + 65536) as u32
    } else {
        a as u32
    };
    let r: (u8, u8) = ((u % 256) as u8, (u / 256) as u8);
    assert(seq![r.0, r.1] =~= signed16(axis_of(v as int)));
    r
}

/// The xpad packet of a DualSense report of any transport.
pub fn translate(report: &[u8], l: &InputLayout) -> (r: [u8; 14])
    requires
        l.ok(),
    ensures
        r@ == packet_of(report@, *l),
{
    let b0: u8 = get(report, l.btn0);
    let b1: u8 = get(report, l.btn0 + 1);
    let b2: u8 = get(report, l.btn0 + 2);
    let mut r: [u8; 14] = neutral();
    r[2] = dpad(b0 & 0x0f) | flag(b1, 0x20, 0x10) | flag(b1, 0x10, 0x20) | flag(b2, 0x02, 0x20)
        | flag(b1, 0x40, 0x40) | flag(b1, 0x80, 0x80);
    r[3] = flag(b1, 0x01, 0x01) | flag(b1, 0x02, 0x02) | flag(b2, 0x01, 0x04) | flag(b0, 0x20, 0x10)
        | flag(b0, 0x40, 0x20) | flag(b0, 0x10, 0x40) | flag(b0, 0x80, 0x80);
    r[4] = get(report, l.trig0);
    r[5] = get(report, l.trig0 + 1);
    let lx: (u8, u8) = axis(get(report, l.stick0) as i32 - 128);
    let ly: (u8, u8) = axis(128 - get(report, l.stick0 + 1) as i32);
    let rx: (u8, u8) = axis(get(report, l.stick0 + 2) as i32 - 128);
    let ry: (u8, u8) = axis(128 - get(report, l.stick0 + 3) as i32);
    r[6] = lx.0;
    r[7] = lx.1;
    r[8] = ly.0;
    r[9] = ly.1;
    r[10] = rx.0;
    r[11] = rx.1;
    r[12] = ry.0;
    r[13] = ry.1;
    proof {
        let sx = signed16(axis_of(byte_at(report@, l.stick0 as int) - 128));
        let sy = signed16(axis_of(128 - byte_at(report@, l.stick0 + 1)));
        let tx = signed16(axis_of(byte_at(report@, l.stick0 + 2) - 128));
        let ty = signed16(axis_of(128 - byte_at(report@, l.stick0 + 3)));
        assert(seq![lx.0, lx.1][0] == sx[0] && seq![lx.0, lx.1][1] == sx[1]);
        assert(seq![ly.0, ly.1][0] == sy[0] && seq![ly.0, ly.1][1] == sy[1]);
        assert(seq![rx.0, rx.1][0] == tx[0] && seq![rx.0, rx.1][1] == tx[1]);
        assert(seq![ry.0, ry.1][0] == ty[0] && seq![ry.0, ry.1][1] == ty[1]);
    }
    assert(r@ =~= packet_of(report@, *l));
    r
}

/// The bits of the packet's two button bytes, each by the bit of the report
/// that it stands for.
proof fn button_bits(b0: u8, b1: u8, b2: u8)
    by (bit_vector)
    ensures
        ({
            let m = dpad_of(b0 & 0x0f) | flag_of(b1, 0x20, 0x10) | flag_of(b1, 0x10, 0x20)
                | flag_of(b2, 0x02, 0x20) | flag_of(b1, 0x40, 0x40) | flag_of(b1, 0x80, 0x80);
            let h = b0 & 0x0f;
            &&& (m & 0x01 != 0) == (h == 7 || h == 0 || h == 1)
            &&& (m & 0x08 != 0) == (h == 1 || h == 2 || h == 3)
            &&& (m & 0x02 != 0) == (h == 3 || h == 4 || h == 5)
            &&& (m & 0x04 != 0) == (h == 5 || h == 6 || h == 7)
            &&& (m & 0x10 != 0) == (b1 & 0x20 != 0)
            &&& (m & 0x20 != 0) == (b1 & 0x10 != 0 || b2 & 0x02 != 0)
            &&& (m & 0x40 != 0) == (b1 & 0x40 != 0)
            &&& (m & 0x80 != 0) == (b1 & 0x80 != 0)
        }),
        ({
            let f = flag_of(b1, 0x01, 0x01) | flag_of(b1, 0x02, 0x02) | flag_of(b2, 0x01, 0x04)
                | flag_of(b0, 0x20, 0x10) | flag_of(b0, 0x40, 0x20) | flag_of(b0, 0x10, 0x40)
                | flag_of(b0, 0x80, 0x80);
            &&& (f & 0x01 != 0) == (b1 & 0x01 != 0)
            &&& (f & 0x02 != 0) == (b1 & 0x02 != 0)
            &&& (f & 0x04 != 0) == (b2 & 0x01 != 0)
            &&& f & 0x08 == 0
            &&& (f & 0x10 != 0) == (b0 & 0x20 != 0)
            &&& (f & 0x20 != 0) == (b0 & 0x40 != 0)
            &&& (f & 0x40 != 0) == (b0 & 0x10 != 0)
            &&& (f & 0x80 != 0) == (b0 & 0x80 != 0)
        }),
{
}

/// Every button of the packet is down exactly while the pad's own one is:
/// A is cross, B circle, X square, Y triangle; the shoulders, the guide (PS),
/// start (options), back (create or the touchpad's click) and the stick
/// clicks keep their places; and each d-pad direction is down on the three
/// compass values around it. A report that ends early reads as released.
pub proof fn each_button_keeps_its_meaning(report: Seq<u8>, l: InputLayout)
    ensures
        ({
            let p = packet_of(report, l);
            let n = report.len();
            let b0 = if l.btn0 < n {
                report[l.btn0 as int]
            } else {
                0
            };
            let b1 = if l.btn0 + 1 < n {
                report[l.btn0 + 1]
            } else {
                0
            };
            let b2 = if l.btn0 + 2 < n {
                report[l.btn0 + 2]
            } else {
                0
            };
            let h = b0 & 0x0f;
            &&& p.len() == 14
            &&& p[0] == 0 && p[1] == 0x14
            // A, B, X, Y
            &&& (p[3] & 0x10 != 0 <==> b0 & 0x20 != 0)
            &&& (p[3] & 0x20 != 0 <==> b0 & 0x40 != 0)
            &&& (p[3] & 0x40 != 0 <==> b0 & 0x10 != 0)
            &&& (p[3] & 0x80 != 0 <==> b0 & 0x80 != 0)
            // shoulders and guide
            &&& (p[3] & 0x01 != 0 <==> b1 & 0x01 != 0)
            &&& (p[3] & 0x02 != 0 <==> b1 & 0x02 != 0)
            &&& (p[3] & 0x04 != 0 <==> b2 & 0x01 != 0)
            &&& p[3] & 0x08 == 0
            // up, right, down, left
            &&& (p[2] & 0x01 != 0 <==> h == 7 || h == 0 || h == 1)
            &&& (p[2] & 0x08 != 0 <==> h == 1 || h == 2 || h == 3)
            &&& (p[2] & 0x02 != 0 <==> h == 3 || h == 4 || h == 5)
            &&& (p[2] & 0x04 != 0 <==> h == 5 || h == 6 || h == 7)
            // start, back, stick clicks
            &&& (p[2] & 0x10 != 0 <==> b1 & 0x20 != 0)
            &&& (p[2] & 0x20 != 0 <==> b1 & 0x10 != 0 || b2 & 0x02 != 0)
            &&& (p[2] & 0x40 != 0 <==> b1 & 0x40 != 0)
            &&& (p[2] & 0x80 != 0 <==> b1 & 0x80 != 0)
        }),
{
    button_bits(
        byte_at(report, l.btn0 as int),
        byte_at(report, l.btn0 + 1),
        byte_at(report, l.btn0 + 2),
    );
}

/// The signed value that two bytes of a packet spell, least significant first.
pub open spec fn signed_at(p: Seq<u8>, at: int) -> int {
    if p[at + 1] >= 0x80 {
        p[at] + 256 * p[at + 1] - 65536
    } else {
        p[at] + 256 * p[at + 1]
    }
}

/// A signed value reads back from the bytes that spell it.
proof fn spelled_back(v: int)
    requires
        -32768 <= v <= 32767,
    ensures
        signed_at(signed16(v), 0) == v,
{
}

/// The triggers keep their sides and values. Each stick axis keeps its side
/// and is scaled by 257 around the pad's centre, 128: right of it is positive,
/// above it is positive, the centre is zero; only the one value that would
/// leave the signed range, full left or full up, ends at its bound.
pub proof fn sticks_and_triggers_keep_their_meaning(report: Seq<u8>, l: InputLayout)
    requires
        report.len() >= l.stick0 + 4,
        report.len() >= l.trig0 + 2,
    ensures
        ({
            let p = packet_of(report, l);
            let s = l.stick0 as int;
            &&& p[4] == report[l.trig0 as int]
            &&& p[5] == report[l.trig0 + 1]
            &&& signed_at(p, 6) == (if report[s] == 0 {
                -32768
            } else {
                (report[s] - 128) * 257
            })
            &&& signed_at(p, 8) == (if report[s + 1] == 0 {
                32767
            } else {
                (128 - report[s + 1]) * 257
            })
            &&& signed_at(p, 10) == (if report[s + 2] == 0 {
                -32768
            } else {
                (report[s + 2] - 128) * 257
            })
            &&& signed_at(p, 12) == (if report[s + 3] == 0 {
                32767
            } else {
                (128 - report[s + 3]) * 257
            })
        }),
{
    let p = packet_of(report, l);
    let s = l.stick0 as int;
    let head = p.subrange(0, 6);
    let lx = axis_of(report[s] - 128);
    let ly = axis_of(128 - report[s + 1]);
    let rx = axis_of(report[s + 2] - 128);
    let ry = axis_of(128 - report[s + 3]);
    spelled_back(lx);
    spelled_back(ly);
    spelled_back(rx);
    spelled_back(ry);
    assert(p == head + signed16(lx) + signed16(ly) + signed16(rx) + signed16(ry));
    assert(p[6] == signed16(lx)[0] && p[7] == signed16(lx)[1]);
    assert(p[8] == signed16(ly)[0] && p[9] == signed16(ly)[1]);
    assert(p[10] == signed16(rx)[0] && p[11] == signed16(rx)[1]);
    assert(p[12] == signed16(ry)[0] && p[13] == signed16(ry)[1]);
}

/// A pad at rest translates to the neutral packet.
pub proof fn rest_translates_to_neutral(report: Seq<u8>, l: InputLayout)
    requires
        l.ok(),
        report.len() >= l.btn0 + 3,
        report.len() >= l.trig0 + 2,
        report[l.btn0 as int] == 0x08,
        report[l.btn0 + 1] == 0,
        report[l.btn0 + 2] == 0,
        report[l.trig0 as int] == 0,
        report[l.trig0 + 1] == 0,
        forall|i: int| l.stick0 <= i < l.stick0 + 4 ==> report[i] == 0x80,
    ensures
        packet_of(report, l) == neutral_packet(),
{
    assert(0x08u8 & 0x0f == 0x08 && 0x08u8 & 0x20 == 0 && 0x08u8 & 0x40 == 0 && 0x08u8 & 0x10 == 0
        && 0x08u8 & 0x80 == 0 && 0u8 & 0x20 == 0 && 0u8 & 0x10 == 0 && 0u8 & 0x02 == 0 && 0u8 & 0x40
        == 0 && 0u8 & 0x80 == 0 && 0u8 & 0x01 == 0 && 0u8 | 0u8 == 0) by (bit_vector);
    assert(packet_of(report, l) =~= neutral_packet());
}

// ---------------------------------------------------------------- rumble

/// The strong and weak motor values of an output write: `00 08 strong weak`
/// where byte 2 is not zero, else `00 08 00 strong weak`. None for other
/// packets.
pub open spec fn rumble_in(out: Seq<u8>) -> Option<(u8, u8)> {
    if out.len() < 4 || out[0] != 0x00 || out[1] != 0x08 {
        None
    } else if out[2] != 0 {
        Some((out[2], out[3]))
    } else {
        Some((out[3], byte_at(out, 4)))
    }
}

/// Decodes an output write into strong and weak motor values.
pub fn decode_rumble(out: &[u8]) -> (r: Option<(u8, u8)>)
    ensures
        r == rumble_in(out@),
{
    if out.len() < 4 || out[0] != 0x00 || out[1] != 0x08 {
        return None;
    }
    if out[2] != 0 {
        Some((out[2], out[3]))
    } else {
        Some((out[3], get(out, 4)))
    }
}

/// A cabled output report that carries rumble only.
pub open spec fn rumble_packet(strong: u8, weak: u8) -> Seq<u8> {
    seq![0x02u8, 0x03, 0, weak, strong] + bytes::zeros(43)
}

/// A cabled output report that carries rumble only: every other section's
/// enable bits are zero.
pub fn rumble_report(strong: u8, weak: u8) -> (r: [u8; 48])
    ensures
        r@ == rumble_packet(strong, weak),
{
    let mut r: [u8; 48] = [0; 48];
    r[0] = 0x02;
    r[1] = 0x03;
    r[3] = weak;
    r[4] = strong;
    assert(r@ =~= rumble_packet(strong, weak));
    r
}

// ---------------------------------------------------------------- coming and going

/// What a game writes to the second pad's motors arrives at the same motors
/// of the DualSense: the strong one is the left, whose byte stands behind the
/// right, weak one's. Both packet forms are read, a packet of another kind is
/// not, and nothing but the motors is touched.
pub proof fn rumble_reaches_its_motor(out: Seq<u8>, strong: u8, weak: u8)
    ensures
        out.len() >= 5 && out[0] == 0 && out[1] == 8 && out[2] == 0 && out[3] == strong && out[4]
            == weak ==> rumble_in(out) == Some((strong, weak)),
        out.len() == 4 && out[0] == 0 && out[1] == 8 && out[2] == 0 && out[3] == strong
            ==> rumble_in(out) == Some((strong, 0u8)),
        out.len() >= 4 && out[0] == 0 && out[1] == 8 && out[2] == strong && strong != 0 && out[3]
            == weak ==> rumble_in(out) == Some((strong, weak)),
        out.len() < 4 || out[0] != 0 || out[1] != 8 ==> rumble_in(out) is None,
        ({
            let r = rumble_packet(strong, weak);
            &&& r.len() == 48
            &&& r[0] == 0x02
            &&& r[1] == 0x03
            &&& r[3] == weak
            &&& r[4] == strong
            &&& r[2] == 0 && forall|i: int| 5 <= i < 48 ==> r[i] == 0
        }),
{
}

/// An override that says "on" or "off" wins whatever is configured; any other
/// text, and no override, leave the configuration.
pub proof fn override_wins_where_it_speaks(cfg: bool, s: Seq<char>)
    ensures
        text::trimmed(s) == "on"@ ==> wanted(cfg, Some(s)),
        text::trimmed(s) == "off"@ ==> !wanted(cfg, Some(s)),
        text::trimmed(s) != "on"@ && text::trimmed(s) != "off"@ ==> wanted(cfg, Some(s)) == cfg,
        wanted(cfg, None) == cfg,
{
    reveal_strlit("on");
    reveal_strlit("off");
    assert("on"@.len() != "off"@.len());
}

/// The link to the holder of the second virtual pad.
#[derive(Clone, Copy, PartialEq, Eq, Debug, Structural)]
pub struct XiRelay {
    pub up: bool,
}

/// What happens to the second virtual pad.
#[derive(Clone, Copy, PartialEq, Eq, Debug, Structural)]
pub enum XiChange {
    /// Connect to its holder, create it and arm its neutral report.
    Raise,
    /// Have its holder destroy it.
    Lower,
    Keep,
}

impl XiRelay {
    pub fn none() -> (r: XiRelay)
        ensures
            !r.up,
    {
        XiRelay { up: false }
    }

    /// What brings the second pad to where it is wanted.
    pub fn sync(&self, want: bool) -> (r: XiChange)
        ensures
            r == (if want && !self.up {
                XiChange::Raise
            } else if !want && self.up {
                XiChange::Lower
            } else {
                XiChange::Keep
            }),
    {
        if want && !self.up {
            XiChange::Raise
        } else if !want && self.up {
            XiChange::Lower
        } else {
            XiChange::Keep
        }
    }

    /// The messages that raise the pad, in turn; none where it is up.
    pub fn raise(&self, mac: &[u8; 6]) -> (r: Option<(CreateMsg, [u8; 14])>)
        ensures
            self.up ==> r is None,
            !self.up ==> (r matches Some(m) && m.0@ == pad_shape(mac@) && m.1@
                == neutral_packet()),
    {
        if self.up {
            None
        } else {
            Some((create_msg(mac), neutral()))
        }
    }

    /// Lowers the pad. Returns whether its holder is to destroy it.
    pub fn lower(&mut self) -> (r: bool)
        ensures
            r == old(self).up,
            !final(self).up,
    {
        let was: bool = self.up;
        self.up = false;
        was
    }

    /// The report that parks the pad at rest; none where it is down.
    pub fn park_neutral(&self) -> (r: Option<[u8; 14]>)
        ensures
            self.up ==> (r matches Some(n) && n@ == neutral_packet()),
            !self.up ==> r is None,
    {
        if self.up {
            Some(neutral())
        } else {
            None
        }
    }
}

/// The second pad is a cabled Xbox 360 controller to the system, with the
/// address of the first one but for one bit of its first octet.
pub proof fn second_pad_is_an_xbox_pad(mac: Seq<u8>)
    requires
        mac.len() == 6,
    ensures
        pad_shape(mac).bus == 3,
        pad_shape(mac).vendor == 0x045e,
        pad_shape(mac).product == 0x028e,
        pad_shape(mac).version == 0x0114,
        pad_shape(mac).name == "Xbox 360 Controller"@,
        proxy::mac_of(pad_shape(mac).uniq) == Some(mac.update(0, mac[0] ^ 0x04)),
        neutral_packet().len() == 14,
        neutral_packet()[0] == 0 && neutral_packet()[1] == 0x14,
        forall|i: int| 2 <= i < 14 ==> neutral_packet()[i] == 0,
{
    proxy::mac_text_round_trip(mac.update(0, mac[0] ^ 0x04));
}

} // verus!
