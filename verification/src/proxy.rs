//! Reports as the proxy relays them: layouts, neutral states and gating.

use vstd::prelude::*;

use crate::bytes;
use crate::crc;
use crate::hid;
use crate::hid::Transport;
use crate::text;

verus! {

/// The battery byte of a cabled input report.
pub const BATTERY: usize = 53;

/// Where an input report keeps its fields.
#[derive(Clone, Copy, PartialEq, Eq, Debug, Structural)]
pub struct InputLayout {
    /// First of the four stick bytes.
    pub stick0: usize,
    /// First of the three button bytes.
    pub btn0: usize,
    /// First of the two analog triggers.
    pub trig0: usize,
    pub report_id: u8,
}

impl InputLayout {
    /// Sticks, triggers and buttons apart from each other, the sticks first and
    /// the buttons in front of the battery byte.
    pub open spec fn ok(self) -> bool {
        &&& self.stick0 + 4 <= self.btn0
        &&& self.btn0 + 3 <= BATTERY
        &&& self.stick0 + 4 <= self.trig0 < 256
        &&& self.trig0 + 2 <= self.btn0 || self.btn0 + 3 <= self.trig0
    }
}

/// The layout of a transport's native report.
pub fn layout_for(transport: Transport) -> (r: InputLayout)
    ensures
        r == (match transport {
            Transport::Usb => (InputLayout { stick0: 1, btn0: 8, trig0: 5, report_id: 0x01 }),
            Transport::Bluetooth => (InputLayout {
                stick0: 2,
                btn0: 9,
                trig0: 6,
                report_id: 0x31,
            }),
        }),
        r.ok(),
{
    match transport {
        Transport::Usb => InputLayout { stick0: 1, btn0: 8, trig0: 5, report_id: 0x01 },
        Transport::Bluetooth => InputLayout { stick0: 2, btn0: 9, trig0: 6, report_id: 0x31 },
    }
}

/// The layout of a DualShock 4 in a Bluetooth session.
pub fn ds4_layout() -> (r: InputLayout)
    ensures
        r == (InputLayout { stick0: 3, btn0: 7, trig0: 10, report_id: 0x11 }),
        r.ok(),
{
    InputLayout { stick0: 3, btn0: 7, trig0: 10, report_id: 0x11 }
}

// ---------------------------------------------------------------- neutral reports

/// Whether index `i` is one of the four stick bytes. A stick at rest reads
/// 0x80.
pub open spec fn is_axis(l: InputLayout, i: int) -> bool {
    l.stick0 <= i < l.stick0 + 4
}

/// Whether index `i` is one of the two analog triggers. A released trigger
/// reads 0.
pub open spec fn is_trigger(l: InputLayout, i: int) -> bool {
    l.trig0 <= i < l.trig0 + 2
}

/// The neutral cabled report: sticks centred, triggers, hat and buttons
/// released, battery full.
pub open spec fn neutral_shape(l: InputLayout) -> Seq<u8> {
    Seq::new(
        64,
        |i: int|
            if i == BATTERY {
                0x0A
            } else if i == l.btn0 {
                0x08
            } else if is_axis(l, i) {
                0x80
            } else if i == 0 {
                l.report_id
            } else {
                0
            },
    )
}

/// All-neutral input report. Cabled layouts only: a Bluetooth report carries a
/// CRC that the receiving driver checks.
pub fn neutral_report(l: &InputLayout) -> (r: Option<Vec<u8>>)
    requires
        l.ok(),
    ensures
        r is Some <==> l.report_id == 0x01,
        r is Some ==> (r->0)@ == neutral_shape(*l),
{
    if l.report_id != 0x01 {
        return None;
    }
    let mut r: Vec<u8> = Vec::new();
    bytes::append_zeros(&mut r, 64);
    r.set(0, l.report_id);
    r.set(l.stick0, 0x80);
    r.set(l.stick0 + 1, 0x80);
    r.set(l.stick0 + 2, 0x80);
    r.set(l.stick0 + 3, 0x80);
    r.set(l.btn0, 0x08);
    r.set(BATTERY, 0x0A);
    assert(r@ =~= neutral_shape(*l));
    Some(r)
}

/// Whether the trigger at index `i` is past its idle range.
pub open spec fn pulled(report: Seq<u8>, i: int) -> bool {
    i < report.len() && report[i] > 0x10
}

/// Whether a report shows a live press: a face or shoulder button (the hat
/// does not count), or a trigger past its idle range.
pub open spec fn live(report: Seq<u8>, l: InputLayout) -> bool {
    &&& report.len() >= l.btn0 + 3
    &&& {
        ||| report[l.btn0 as int] & 0xF0 != 0
        ||| report[l.btn0 + 1] != 0
        ||| report[l.btn0 + 2] != 0
        ||| pulled(report, l.trig0 as int)
        ||| pulled(report, l.trig0 + 1)
    }
}

pub fn buttons_live(report: &[u8], l: &InputLayout) -> (r: bool)
    requires
        l.ok(),
    ensures
        r == live(report@, *l),
{
    if report.len() < l.btn0 + 3 {
        return false;
    }
    if report[l.btn0] & 0xF0 != 0 || report[l.btn0 + 1] != 0 || report[l.btn0 + 2] != 0 {
        return true;
    }
    (report.len() > l.trig0 && report[l.trig0] > 0x10) || (report.len() > l.trig0 + 1
        && report[l.trig0 + 1] > 0x10)
}

/// A report with its gameplay fields neutral: sticks centred, triggers and hat
/// released, no buttons. The other bytes stay.
pub open spec fn gated(report: Seq<u8>, l: InputLayout) -> Seq<u8> {
    if report.len() < l.btn0 + 3 {
        report
    } else {
        Seq::new(
            report.len(),
            |i: int|
                if i == l.btn0 {
                    0x08
                } else if i == l.btn0 + 1 || i == l.btn0 + 2 {
                    0x00
                } else if is_trigger(l, i) {
                    0x00
                } else if is_axis(l, i) {
                    0x80
                } else {
                    report[i]
                },
        )
    }
}

/// Neutralizes the gameplay fields of a report.
pub fn gate_input(report: &mut [u8], l: &InputLayout)
    requires
        l.ok(),
    ensures
        final(report)@ == gated(old(report)@, *l),
{
    if report.len() < l.btn0 + 3 {
        return;
    }
    let ghost start = report@;
    report[l.stick0] = 0x80;
    report[l.stick0 + 1] = 0x80;
    report[l.stick0 + 2] = 0x80;
    report[l.stick0 + 3] = 0x80;
    if report.len() > l.trig0 {
        report[l.trig0] = 0x00;
    }
    if report.len() > l.trig0 + 1 {
        report[l.trig0 + 1] = 0x00;
    }
    report[l.btn0] = 0x08;
    report[l.btn0 + 1] = 0x00;
    report[l.btn0 + 2] = 0x00;
    assert(report@ =~= gated(start, *l));
}

/// Gating a gated report changes nothing, and bytes outside the gameplay
/// fields come through.
pub proof fn gating_is_idempotent(report: Seq<u8>, l: InputLayout)
    requires
        l.ok(),
    ensures
        gated(gated(report, l), l) == gated(report, l),
        gated(report, l).len() == report.len(),
        forall|i: int|
            0 <= i < report.len() && !is_axis(l, i) && !is_trigger(l, i) && !(l.btn0 <= i < l.btn0
                + 3) ==> #[trigger] gated(report, l)[i] == report[i],
{
    assert(gated(gated(report, l), l) =~= gated(report, l));
}

/// Nothing is pressed in a gated report.
pub proof fn gated_reports_are_not_live(report: Seq<u8>, l: InputLayout)
    requires
        l.ok(),
    ensures
        !live(gated(report, l), l),
{
    assert(0x08u8 & 0xF0 == 0) by (bit_vector);
}

/// Nothing is pressed in the neutral report.
pub proof fn neutral_report_is_not_live(l: InputLayout)
    requires
        l.ok(),
    ensures
        !live(neutral_shape(l), l),
{
    assert(0x08u8 & 0xF0 == 0) by (bit_vector);
}

// ---------------------------------------------------------------- stick shaping

/// The shaped value of each of the 256 stick values.
pub struct StickCurve {
    pub map: Vec<u8>,
}

impl StickCurve {
    pub open spec fn ok(self) -> bool {
        self.map@.len() == 256
    }
}

/// Whether index `i` is one of the four stick bytes of a report that holds
/// both bytes of that stick.
pub open spec fn is_stick(report: Seq<u8>, l: InputLayout, i: int) -> bool {
    ||| l.stick0 <= i < l.stick0 + 2 <= report.len()
    ||| l.stick0 + 2 <= i < l.stick0 + 4 <= report.len()
}

/// A report with its sticks shaped.
pub open spec fn shaped(report: Seq<u8>, l: InputLayout, curve: Seq<u8>) -> Seq<u8> {
    Seq::new(
        report.len(),
        |i: int|
            if is_stick(report, l, i) {
                curve[report[i] as int]
            } else {
                report[i]
            },
    )
}

/// Shapes the sticks of a report, per axis, by the curve.
pub fn scale_sticks(report: &mut [u8], l: &InputLayout, curve: &StickCurve)
    requires
        l.ok(),
        curve.ok(),
    ensures
        final(report)@ == shaped(old(report)@, *l, curve.map@),
{
    let ghost start = report@;
    let s: usize = l.stick0;
    if report.len() >= s + 2 {
        let x: u8 = report[s];
        let y: u8 = report[s + 1];
        report[s] = curve.map[x as usize];
        report[s + 1] = curve.map[y as usize];
    }
    if report.len() >= s + 4 {
        let x: u8 = report[s + 2];
        let y: u8 = report[s + 3];
        report[s + 2] = curve.map[x as usize];
        report[s + 3] = curve.map[y as usize];
    }
    assert(report@ =~= shaped(start, *l, curve.map@));
}

/// Whether a stick stands within 5% of its range around the centre.
pub open spec fn near_centre(x: u8, y: u8) -> bool {
    400 * ((x - 128) * (x - 128) + (y - 128) * (y - 128)) <= 128 * 128
}

/// A report with sticks near the centre read as centred.
pub open spec fn deadzoned(report: Seq<u8>, l: InputLayout) -> Seq<u8> {
    let s = l.stick0 as int;
    Seq::new(
        report.len(),
        |i: int|
            if s <= i < s + 2 <= report.len() && near_centre(report[s], report[s + 1]) {
                0x80
            } else if s + 2 <= i < s + 4 <= report.len() && near_centre(
                report[s + 2],
                report[s + 3],
            ) {
                0x80
            } else {
                report[i]
            },
    )
}

fn centred(x: u8, y: u8) -> (r: bool)
    ensures
        r == near_centre(x, y),
{
    let dx: i32 = x as i32 - 128;
    let dy: i32 = y as i32 - 128;
    assert(0 <= dx * dx <= 16384) by (nonlinear_arith)
        requires
            -128 <= dx <= 127,
    ;
    assert(0 <= dy * dy <= 16384) by (nonlinear_arith)
        requires
            -128 <= dy <= 127,
    ;
    400 * (dx * dx + dy * dy) <= 16384
}

/// Applies a radial deadzone of 5% to both sticks of a report.
pub fn radial_deadzone(report: &mut [u8], l: &InputLayout)
    requires
        l.ok(),
    ensures
        final(report)@ == deadzoned(old(report)@, *l),
{
    let ghost start = report@;
    let s: usize = l.stick0;
    if report.len() >= s + 2 && centred(report[s], report[s + 1]) {
        report[s] = 0x80;
        report[s + 1] = 0x80;
    }
    if report.len() >= s + 4 && centred(report[s + 2], report[s + 3]) {
        report[s + 2] = 0x80;
        report[s + 3] = 0x80;
    }
    assert(report@ =~= deadzoned(start, *l));
}

/// A stick at rest stays at rest, and the deadzone changes nothing twice.
pub proof fn deadzone_is_idempotent(report: Seq<u8>, l: InputLayout)
    ensures
        near_centre(0x80, 0x80),
        deadzoned(deadzoned(report, l), l) == deadzoned(report, l),
{
    assert(near_centre(0x80, 0x80)) by (nonlinear_arith);
    assert(deadzoned(deadzoned(report, l), l) =~= deadzoned(report, l));
}

// ---------------------------------------------------------------- feature CRCs

/// The register after the byte 0x53, from the all-ones start.
pub const SET_FEATURE_INIT: u32 = 0xDF9F_103C;

proof fn set_feature_init_is_after_0x53()
    ensures
        crc::crc_byte(0xFFFF_FFFF, 0x53) == SET_FEATURE_INIT,
{
    reveal_with_fuel(crc::crc_bits, 9);
    assert(0xFFFF_FFFFu32 ^ (0x53u8 as u32) == 0xFFFF_FFACu32) by (bit_vector);
    assert(crc::crc_bit(0xFFFF_FFAC) == 0x7FFF_FFD6u32 && crc::crc_bit(0x7FFF_FFD6) == 0x3FFF_FFEBu32
        && crc::crc_bit(0x3FFF_FFEB) == 0xF247_7CD5u32 && crc::crc_bit(0xF247_7CD5) == 0x949B_3D4Au32
        && crc::crc_bit(0x949B_3D4A) == 0x4A4D_9EA5u32 && crc::crc_bit(0x4A4D_9EA5) == 0xC89E_4C72u32
        && crc::crc_bit(0xC89E_4C72) == 0x644F_2639u32 && crc::crc_bit(0x644F_2639) == 0xDF9F_103Cu32)
        by (bit_vector);
}

/// CRC of a feature report that the host sends to the pad (report id first):
/// that of the report behind the HIDP byte 0x53.
pub fn bt_feature_crc(data: &[u8]) -> (r: u32)
    ensures
        r == crc::crc32(seq![0x53u8] + data@),
        r == !crc::crc_run(SET_FEATURE_INIT, data@),
{
    proof {
        set_feature_init_is_after_0x53();
        crc::crc_run_append(0xFFFF_FFFF, seq![0x53u8], data@);
        assert(seq![0x53u8].drop_last() =~= Seq::empty());
        assert(crc::crc_run(0xFFFF_FFFF, Seq::<u8>::empty()) == 0xFFFF_FFFF);
        assert(crc::crc_run(0xFFFF_FFFF, seq![0x53u8]) == SET_FEATURE_INIT);
        assert(data@.subrange(0, data@.len() as int) =~= data@);
    }
    !crc::run(SET_FEATURE_INIT, data, data.len())
}

/// CRC of a feature report that the kernel reads from the pad: that of the
/// report behind the HIDP byte 0xA3.
pub fn bt_feature_crc_kernel(data: &[u8]) -> (r: u32)
    ensures
        r == crc::crc32(seq![0xA3u8] + data@),
{
    crc::crc32_seed(0xA3, data)
}

/// A report of at least five bytes with its CRC restamped; a shorter one as it
/// is.
pub open spec fn crc_fixed(prefix: u8, buf: Seq<u8>) -> Seq<u8> {
    if buf.len() < 5 {
        buf
    } else {
        crc::restamped(prefix, buf)
    }
}

/// Restamps the CRC of a feature report for the pad.
pub fn fix_bt_feature_crc(buf: &mut [u8])
    ensures
        final(buf)@ == crc_fixed(0x53, old(buf)@),
{
    let n: usize = buf.len();
    if n < 5 {
        return;
    }
    let ghost start = buf@;
    let crc: u32 = bt_feature_crc(vstd::slice::slice_subrange(buf, 0, n - 4));
    let mut tail: Vec<u8> = Vec::new();
    bytes::append_u32(&mut tail, crc);
    assert(tail@ =~= bytes::le32(crc as int));
    bytes::lay_over(buf, n - 4, tail.as_slice());
    assert(buf@ =~= crc::restamped(0x53, start));
}

/// Restamps the CRC of a feature report for the kernel.
pub fn fix_bt_feature_crc_kernel(buf: &mut [u8])
    ensures
        final(buf)@ == crc_fixed(0xA3, old(buf)@),
{
    let n: usize = buf.len();
    if n < 5 {
        return;
    }
    let ghost start = buf@;
    let crc: u32 = bt_feature_crc_kernel(vstd::slice::slice_subrange(buf, 0, n - 4));
    let mut tail: Vec<u8> = Vec::new();
    bytes::append_u32(&mut tail, crc);
    assert(tail@ =~= bytes::le32(crc as int));
    bytes::lay_over(buf, n - 4, tail.as_slice());
    assert(buf@ =~= crc::restamped(0xA3, start));
}

/// A restamped report passes the receiver's check and keeps its length and all
/// bytes but the last four.
pub proof fn fixed_crc_passes(prefix: u8, buf: Seq<u8>)
    requires
        buf.len() >= 5,
    ensures
        crc::crc_ok(prefix, crc_fixed(prefix, buf)),
        crc_fixed(prefix, buf).len() == buf.len(),
        crc_fixed(prefix, buf).subrange(0, buf.len() - 4) == buf.subrange(0, buf.len() - 4),
{
    crc::sealed_passes(prefix, buf.subrange(0, buf.len() - 4));
    assert(crc_fixed(prefix, buf).subrange(0, buf.len() - 4) =~= buf.subrange(0, buf.len() - 4));
}

// ---------------------------------------------------------------- hardware addresses

/// The address of the virtual pad for a real pad's: the first octet with the
/// locally-administered bit flipped, the rest as it is; a fixed address where
/// the real one is not six parts with a hex octet in front.
pub open spec fn virtual_of(addr: Seq<char>) -> Seq<char> {
    let parts = text::pieces(addr, ':');
    let first = text::bounded_number(parts[0], 16, 255);
    if parts.len() == 6 && first is Some {
        text::hex_byte((first->0 as u8) ^ 0x02).push(':') + text::glued(
            parts.subrange(1, 6),
            ':',
        )
    } else {
        "aa:bb:cc:dd:ee:01"@
    }
}

/// The address of the virtual pad for a real pad's.
pub fn derive_virtual_mac(addr: &str) -> (r: String)
    ensures
        r@ == virtual_of(addr@),
{
    let parts: Vec<Vec<char>> = text::split(text::chars_of(addr).as_slice(), ':');
    let ghost all = text::views(parts@);
    if parts.len() == 6 {
        assert(all[0] == parts@[0]@);
        match text::parse_number(parts[0].as_slice(), 16, 255) {
            Some(first) => {
                let mut tail: Vec<Vec<char>> = Vec::new();
                let mut i: usize = 1;
                assert(text::views(tail@) =~= all.subrange(1, 1));
                while i < 6
                    invariant
                        1 <= i <= 6,
                        parts@.len() == 6,
                        all == text::views(parts@),
                        text::views(tail@) == all.subrange(1, i as int),
                    decreases 6 - i,
                {
                    let part: Vec<char> = text::slice_of(parts[i].as_slice(), 0, parts[i].len());
                    assert(part@ =~= parts@[i as int]@);
                    let ghost before = text::views(tail@);
                    tail.push(part);
                    assert(text::views(tail@) =~= before.push(all[i as int]));
                    assert(all.subrange(1, i + 1) =~= all.subrange(1, i as int).push(all[i as int]));
                    i = i + 1;
                }
                let rest: Vec<char> = text::glue(&tail, ':');
                let mut out: Vec<char> = Vec::new();
                text::append_hex(&mut out, (first as u8) ^ 0x02);
                assert(out@ =~= text::hex_byte((first as u8) ^ 0x02));
                out.push(':');
                text::append_chars(&mut out, rest.as_slice());
                return text::string_of(out.as_slice());
            },
            None => {},
        }
    } else {
        assert(all.len() != 6);
    }
    "aa:bb:cc:dd:ee:01".to_owned()
}

/// The virtual address of a real pad is told apart from it: its mark is the
/// opposite one. So a virtual pad is never picked as a real one.
pub proof fn virtual_address_flips_the_mark(addr: Seq<char>)
    requires
        text::pieces(addr, ':').len() == 6,
        text::bounded_number(text::pieces(addr, ':')[0], 16, 255) is Some,
    ensures
        hid::virtual_mac(virtual_of(addr)) == !hid::virtual_mac(addr),
        text::pieces(virtual_of(addr), ':').subrange(1, 6) == text::pieces(addr, ':').subrange(1, 6),
{
    let parts = text::pieces(addr, ':');
    let first = text::bounded_number(parts[0], 16, 255)->0 as u8;
    let flipped = first ^ 0x02;
    let tail = parts.subrange(1, 6);
    let all = seq![text::hex_byte(flipped)] + tail;
    text::hex_byte_is_the_byte(flipped);
    text::pieces_hold_no_separator(addr, ':');
    assert forall|i: int| 0 <= i < all.len() implies !(#[trigger] all[i]).contains(':') by {
        if i > 0 {
            assert(all[i] == parts[i]);
        }
    }
    glue_with_head(text::hex_byte(flipped), tail);
    assert(virtual_of(addr) == text::glued(all, ':'));
    text::split_undoes_glue(all, ':');
    assert(text::pieces(virtual_of(addr), ':') == all);
    assert(all.subrange(1, 6) =~= tail);
    assert(((first ^ 0x02) & 0x02 != 0) == !(first & 0x02 != 0)) by (bit_vector);
}

proof fn glue_with_head(head: Seq<char>, tail: Seq<Seq<char>>)
    requires
        tail.len() >= 1,
    ensures
        text::glued(seq![head] + tail, ':') == head.push(':') + text::glued(tail, ':'),
    decreases tail.len(),
{
    let all = seq![head] + tail;
    if tail.len() == 1 {
        assert(all.drop_last() =~= seq![head]);
        assert(text::glued(seq![head], ':') == head);
        assert(all.last() == tail[0]);
    } else {
        glue_with_head(head, tail.drop_last());
        assert(all.drop_last() =~= seq![head] + tail.drop_last());
        assert(text::glued(all, ':') =~= head.push(':') + text::glued(tail, ':'));
    }
}

/// The six octets of an address of six hex parts.
pub open spec fn mac_of(s: Seq<char>) -> Option<Seq<u8>> {
    let parts = text::pieces(s, ':');
    if parts.len() == 6 && (forall|i: int|
        0 <= i < 6 ==> text::bounded_number(#[trigger] parts[i], 16, 255) is Some) {
        Some(Seq::new(6, |i: int| text::bounded_number(parts[i], 16, 255)->0 as u8))
    } else {
        None
    }
}

/// The six octets of a hardware address.
pub fn parse_mac(s: &str) -> (r: Option<[u8; 6]>)
    ensures
        match r {
            Some(m) => mac_of(s@) == Some(m@),
            None => mac_of(s@) is None,
        },
{
    let parts: Vec<Vec<char>> = text::split(text::chars_of(s).as_slice(), ':');
    let ghost all = text::views(parts@);
    if parts.len() != 6 {
        assert(all.len() != 6);
        return None;
    }
    let mut out: [u8; 6] = [0, 0, 0, 0, 0, 0];
    let mut i: usize = 0;
    while i < 6
        invariant
            i <= 6,
            parts@.len() == 6,
            all == text::views(parts@),
            all == text::pieces(s@, ':'),
            forall|j: int|
                0 <= j < i ==> text::bounded_number(#[trigger] all[j], 16, 255) == Some(
                    out@[j] as int,
                ),
        decreases 6 - i,
    {
        assert(all[i as int] == parts@[i as int]@);
        match text::parse_number(parts[i].as_slice(), 16, 255) {
            Some(v) => {
                out[i] = v as u8;
            },
            None => {
                return None;
            },
        }
        i = i + 1;
    }
    proof {
        let want = Seq::new(6, |i: int| text::bounded_number(all[i], 16, 255)->0 as u8);
        assert forall|j: int| 0 <= j < 6 implies out@[j] == want[j] by {
            assert(text::bounded_number(all[j], 16, 255) == Some(out@[j] as int));
        }
        assert(out@ =~= want);
    }
    Some(out)
}

/// The hex octets of an address, by their views.
pub open spec fn mac_parts(mac: Seq<u8>) -> Seq<Seq<char>> {
    mac.map_values(|b: u8| text::hex_byte(b))
}

/// An address as text: hex octets with colons between them.
pub open spec fn mac_text(mac: Seq<u8>) -> Seq<char> {
    text::glued(mac_parts(mac), ':')
}

/// An address as text.
pub fn format_mac(mac: &[u8; 6]) -> (r: String)
    ensures
        r@ == mac_text(mac@),
{
    let mut parts: Vec<Vec<char>> = Vec::new();
    let mut i: usize = 0;
    assert(text::views(parts@) =~= mac_parts(mac@.subrange(0, 0)));
    while i < 6
        invariant
            i <= 6,
            mac@.len() == 6,
            text::views(parts@) == mac_parts(mac@.subrange(0, i as int)),
        decreases 6 - i,
    {
        let mut octet: Vec<char> = Vec::new();
        text::append_hex(&mut octet, mac[i]);
        assert(octet@ =~= text::hex_byte(mac@[i as int]));
        let ghost before = text::views(parts@);
        parts.push(octet);
        assert(text::views(parts@) =~= before.push(text::hex_byte(mac@[i as int])));
        assert(mac_parts(mac@.subrange(0, i + 1)) =~= mac_parts(mac@.subrange(0, i as int)).push(
            text::hex_byte(mac@[i as int]),
        ));
        i = i + 1;
    }
    assert(mac@.subrange(0, 6) =~= mac@);
    text::string_of(text::glue(&parts, ':').as_slice())
}

/// An address reads back from its text.
pub proof fn mac_text_round_trip(mac: Seq<u8>)
    requires
        mac.len() == 6,
    ensures
        mac_of(mac_text(mac)) == Some(mac),
{
    let parts = mac_parts(mac);
    assert forall|i: int| 0 <= i < parts.len() implies !(#[trigger] parts[i]).contains(':') by {
        text::hex_byte_is_the_byte(mac[i]);
    }
    text::split_undoes_glue(parts, ':');
    assert forall|i: int| 0 <= i < 6 implies text::bounded_number(#[trigger] parts[i], 16, 255)
        == Some(mac[i] as int) by {
        text::hex_byte_is_the_byte(mac[i]);
    }
    assert(Seq::new(6, |i: int| text::bounded_number(parts[i], 16, 255)->0 as u8) =~= mac);
}

/// The upper half of a byte.
proof fn upper_half(b: u8)
    by (bit_vector)
    ensures
        (b & 0xF0 == 0) == (b <= 0x0F),
{
}

/// A report is at rest exactly where no button bit is set, whatever the hat
/// says, and each trigger that it holds reads 0x10 at most.
pub proof fn rest_is_no_button_and_no_trigger(report: Seq<u8>, l: InputLayout)
    requires
        report.len() >= l.btn0 + 3,
    ensures
        !live(report, l) <==> {
            &&& report[l.btn0 as int] <= 0x0F
            &&& report[l.btn0 + 1] == 0
            &&& report[l.btn0 + 2] == 0
            &&& l.trig0 < report.len() ==> report[l.trig0 as int] <= 0x10
            &&& l.trig0 + 1 < report.len() ==> report[l.trig0 + 1] <= 0x10
        },
{
    upper_half(report[l.btn0 as int]);
}

/// A blocked report, byte by byte: the hat at rest and no button, both
/// triggers released, all four stick axes centred, and nothing else changed.
/// One that ends before its buttons is left alone.
pub proof fn blocked_reports_rest(report: Seq<u8>, l: InputLayout, i: int)
    requires
        l.ok(),
        0 <= i < report.len(),
    ensures
        report.len() < l.btn0 + 3 ==> gated(report, l) == report,
        report.len() >= l.btn0 + 3 ==> ({
            let out = gated(report, l);
            let s = l.stick0 as int;
            &&& out.len() == report.len()
            &&& out[l.btn0 as int] == 0x08
            &&& out[l.btn0 + 1] == 0
            &&& out[l.btn0 + 2] == 0
            &&& out[s] == 0x80 && out[s + 1] == 0x80 && out[s + 2] == 0x80 && out[s + 3] == 0x80
            &&& l.trig0 < report.len() ==> out[l.trig0 as int] == 0
            &&& l.trig0 + 1 < report.len() ==> out[l.trig0 + 1] == 0
            &&& !(l.btn0 <= i < l.btn0 + 3) && !(s <= i < s + 4) && !(l.trig0 <= i < l.trig0 + 2)
                ==> out[i] == report[i]
        }),
{
}

/// The neutral report, byte by byte: its id, centred sticks, the hat at rest,
/// a full battery, and zeros.
pub proof fn neutral_report_rests(l: InputLayout, i: int)
    requires
        l.ok(),
        l.stick0 >= 1,
        0 <= i < 64,
    ensures
        neutral_shape(l).len() == 64,
        neutral_shape(l)[i] == (if i == 0 {
            l.report_id
        } else if i == l.stick0 || i == l.stick0 + 1 || i == l.stick0 + 2 || i == l.stick0 + 3 {
            0x80
        } else if i == l.btn0 {
            0x08
        } else if i == 53 {
            0x0A
        } else {
            0
        }),
{
}

/// A stick counts as centred within a radius of 6.4 around 128, 5% of its
/// range: the sum of the squares is 40 at most.
pub proof fn deadzone_is_a_disc(x: u8, y: u8)
    ensures
        near_centre(x, y) <==> (x - 128) * (x - 128) + (y - 128) * (y - 128) <= 40,
        near_centre(x, y) == near_centre(y, x),
        x >= 128 + 7 || x <= 128 - 7 ==> !near_centre(x, y),
        122 <= x <= 134 && y == 128 ==> near_centre(x, y),
{
    assert(x >= 128 + 7 || x <= 128 - 7 ==> (x - 128) * (x - 128) >= 49) by (nonlinear_arith);
    assert((y - 128) * (y - 128) >= 0) by (nonlinear_arith);
    assert(122 <= x <= 134 ==> (x - 128) * (x - 128) <= 36) by (nonlinear_arith);
    assert(y == 128 ==> (y - 128) * (y - 128) == 0) by (nonlinear_arith);
}

/// Each stick has a deadzone of its own: its two bytes are both centred or
/// both kept, by those two bytes alone, and no other byte changes.
pub proof fn sticks_have_their_own_deadzone(report: Seq<u8>, l: InputLayout, i: int)
    requires
        report.len() >= l.stick0 + 4,
        0 <= i < report.len(),
    ensures
        ({
            let out = deadzoned(report, l);
            let s = l.stick0 as int;
            &&& out.len() == report.len()
            &&& !(s <= i < s + 4) ==> out[i] == report[i]
            &&& near_centre(report[s], report[s + 1]) ==> out[s] == 0x80 && out[s + 1] == 0x80
            &&& !near_centre(report[s], report[s + 1]) ==> out[s] == report[s] && out[s + 1]
                == report[s + 1]
            &&& near_centre(report[s + 2], report[s + 3]) ==> out[s + 2] == 0x80 && out[s + 3]
                == 0x80
            &&& !near_centre(report[s + 2], report[s + 3]) ==> out[s + 2] == report[s + 2] && out[s
                + 3] == report[s + 3]
        }),
{
}

/// Shaping sends each of the four axes through the curve by its own value, and
/// no other byte; a curve that maps each value to itself changes nothing.
pub proof fn shaping_goes_axis_by_axis(report: Seq<u8>, l: InputLayout, curve: Seq<u8>, i: int)
    requires
        report.len() >= l.stick0 + 4,
        curve.len() == 256,
        0 <= i < report.len(),
    ensures
        ({
            let out = shaped(report, l, curve);
            let s = l.stick0 as int;
            &&& out.len() == report.len()
            &&& s <= i < s + 4 ==> out[i] == curve[report[i] as int]
            &&& !(s <= i < s + 4) ==> out[i] == report[i]
        }),
        (forall|v: int| 0 <= v < 256 ==> #[trigger] curve[v] == v) ==> shaped(report, l, curve)
            == report,
{
    if forall|v: int| 0 <= v < 256 ==> #[trigger] curve[v] == v {
        assert(shaped(report, l, curve) =~= report);
    }
}

/// The virtual address of an address as it is written has the first octet's
/// second bit flipped and the rest the same; a text that is not six parts, or
/// does not begin with a hex octet, has a fixed one.
pub proof fn virtual_address_of_each_kind(mac: Seq<u8>, addr: Seq<char>)
    requires
        mac.len() == 6,
    ensures
        virtual_of(mac_text(mac)) == mac_text(mac.update(0, mac[0] ^ 0x02)),
        text::pieces(addr, ':').len() != 6 ==> virtual_of(addr) == "aa:bb:cc:dd:ee:01"@,
        text::bounded_number(text::pieces(addr, ':')[0], 16, 255) is None ==> virtual_of(addr)
            == "aa:bb:cc:dd:ee:01"@,
{
    let parts = mac_parts(mac);
    let flipped = mac.update(0, mac[0] ^ 0x02);
    assert forall|i: int| 0 <= i < parts.len() implies !(#[trigger] parts[i]).contains(':') by {
        text::hex_byte_is_the_byte(mac[i]);
    }
    text::split_undoes_glue(parts, ':');
    text::hex_byte_is_the_byte(mac[0]);
    let tail = parts.subrange(1, 6);
    glue_with_head(text::hex_byte(mac[0] ^ 0x02), tail);
    assert(mac_parts(flipped) =~= seq![text::hex_byte(mac[0] ^ 0x02)] + tail);
}

/// A report that is too short to hold a CRC and anything else is left alone.
pub proof fn short_reports_get_no_crc(prefix: u8, buf: Seq<u8>)
    ensures
        buf.len() < 5 ==> crc_fixed(prefix, buf) == buf,
        crc_fixed(prefix, buf).len() == buf.len(),
{
}

} // verus!
