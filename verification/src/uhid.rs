//! UHID event codec. Offsets per packed `struct uhid_event` (linux/uhid.h).

use vstd::prelude::*;
use vstd::utf8;

use crate::bytes;

verus! {

pub const UHID_DESTROY: u32 = 1;

pub const UHID_START: u32 = 2;

pub const UHID_STOP: u32 = 3;

pub const UHID_OUTPUT: u32 = 6;

pub const UHID_GET_REPORT: u32 = 9;

pub const UHID_GET_REPORT_REPLY: u32 = 10;

pub const UHID_CREATE2: u32 = 11;

pub const UHID_INPUT2: u32 = 12;

pub const UHID_SET_REPORT: u32 = 13;

pub const UHID_SET_REPORT_REPLY: u32 = 14;

/// Size of every event on the wire.
pub const EV_SIZE: usize = 4376;

/// Size of the data field of an event.
pub const DATA_MAX: usize = 4096;

const C2_NAME: usize = 4;

const C2_PHYS: usize = 132;

const C2_UNIQ: usize = 196;

const C2_RD_SIZE: usize = 260;

const C2_BUS: usize = 262;

const C2_VENDOR: usize = 264;

const C2_PRODUCT: usize = 268;

const C2_VERSION: usize = 272;

const C2_COUNTRY: usize = 276;

const C2_RD_DATA: usize = 280;

const I2_SIZE: usize = 4;

const I2_DATA: usize = 6;

const GRR_ID: usize = 4;

const GRR_ERR: usize = 8;

const GRR_SIZE: usize = 10;

const GRR_DATA: usize = 12;

const GR_ID: usize = 4;

const GR_RNUM: usize = 8;

const SR_SIZE: usize = 10;

const SR_DATA: usize = 12;

const OUT_SIZE: usize = 4100;

const OUT_DATA: usize = 4;

pub const BUS_USB: u16 = 0x03;

pub const BUS_BLUETOOTH: u16 = 0x05;

/// The pad that a create event asks for.
pub struct CreateParams<'a> {
    pub name: &'a str,
    pub uniq: &'a str,
    pub rdesc: &'a [u8],
    pub bus: u16,
    pub vendor: u32,
    pub product: u32,
    pub version: u32,
}

// ---------------------------------------------------------------- fields

/// The first bytes of `b`, at most `n` of them.
pub open spec fn cut(b: Seq<u8>, n: int) -> Seq<u8> {
    if b.len() <= n {
        b
    } else {
        b.subrange(0, n)
    }
}

/// `b` cut to at most `n - 1` bytes and filled up with zeros to `n`.
pub open spec fn c_string(b: Seq<u8>, n: int) -> Seq<u8> {
    cut(b, n - 1) + bytes::zeros((n - cut(b, n - 1).len()) as nat)
}

/// The first bytes of `b`, at most as many as an event's data field holds.
pub open spec fn clipped(b: Seq<u8>) -> Seq<u8> {
    cut(b, DATA_MAX as int)
}

/// `b` filled up with zeros to the size of an event.
pub open spec fn event(b: Seq<u8>) -> Seq<u8> {
    b + bytes::zeros((EV_SIZE - b.len()) as nat)
}

pub fn write_u16(buf: &mut [u8], off: usize, v: u16)
    requires
        off + 2 <= old(buf)@.len(),
    ensures
        final(buf)@ == bytes::overlay(old(buf)@, off as int, bytes::le16(v as int)),
{
    buf[off] = (v % 256) as u8;
    buf[off + 1] = (v / 256) as u8;
    assert(buf@ =~= bytes::overlay(old(buf)@, off as int, bytes::le16(v as int)));
}

pub fn write_u32(buf: &mut [u8], off: usize, v: u32)
    requires
        off + 4 <= old(buf)@.len(),
    ensures
        final(buf)@ == bytes::overlay(old(buf)@, off as int, bytes::le32(v as int)),
{
    buf[off] = (v % 256) as u8;
    buf[off + 1] = ((v / 256) % 256) as u8;
    buf[off + 2] = ((v / 65536) % 256) as u8;
    buf[off + 3] = (v / 16777216) as u8;
    assert(buf@ =~= bytes::overlay(old(buf)@, off as int, bytes::le32(v as int)));
}

pub fn read_u16(buf: &[u8], off: usize) -> (r: u16)
    requires
        off + 2 <= buf@.len(),
    ensures
        r == bytes::from_le16(buf@, off as int),
{
    buf[off] as u16 + 256 * (buf[off + 1] as u16)
}

pub fn read_u32(buf: &[u8], off: usize) -> (r: u32)
    requires
        off + 4 <= buf@.len(),
    ensures
        r == bytes::from_le32(buf@, off as int),
{
    buf[off] as u32 + 256 * (buf[off + 1] as u32) + 65536 * (buf[off + 2] as u32) + 16777216 * (
    buf[off + 3] as u32)
}

/// Lays at most `max - 1` bytes of a text over the buffer.
pub fn set_cstr(buf: &mut [u8], off: usize, max: usize, s: &str)
    requires
        max >= 1,
        off + max <= old(buf)@.len(),
    ensures
        final(buf)@ == bytes::overlay(
            old(buf)@,
            off as int,
            cut(utf8::encode_utf8(s@), max - 1),
        ),
{
    let b: &[u8] = s.as_bytes();
    let n: usize = if b.len() < max {
        b.len()
    } else {
        max - 1
    };
    assert(b@.subrange(0, b@.len() as int) =~= b@);
    bytes::lay_over(buf, off, vstd::slice::slice_subrange(b, 0, n));
}

/// Writing a number and reading it back yields the number; the rest of the
/// buffer stays.
pub proof fn write_then_read_u32(buf: Seq<u8>, off: int, v: u32)
    requires
        0 <= off,
        off + 4 <= buf.len(),
    ensures
        bytes::from_le32(bytes::overlay(buf, off, bytes::le32(v as int)), off) == v,
        forall|i: int|
            0 <= i < buf.len() && !(off <= i < off + 4) ==> #[trigger] bytes::overlay(
                buf,
                off,
                bytes::le32(v as int),
            )[i] == buf[i],
{
    bytes::le32_round_trip(v as int);
    let w = bytes::overlay(buf, off, bytes::le32(v as int));
    assert(bytes::from_le32(w, off) == bytes::from_le32(bytes::le32(v as int), 0));
}

// ---------------------------------------------------------------- events out

/// The create event of a pad.
pub open spec fn create_event(p: CreateParams<'_>) -> Seq<u8> {
    event(
        bytes::le32(UHID_CREATE2 as int) + c_string(utf8::encode_utf8(p.name@), 128) + bytes::zeros(
            64,
        ) + c_string(utf8::encode_utf8(p.uniq@), 64) + bytes::le16(p.rdesc@.len() as int)
            + bytes::le16(p.bus as int) + bytes::le32(p.vendor as int) + bytes::le32(
            p.product as int,
        ) + bytes::le32(p.version as int) + bytes::le32(0) + p.rdesc@,
    )
}

/// Writes the fixed part of a create event, in front of the descriptor.
fn create_head(p: &CreateParams<'_>) -> (r: Vec<u8>)
    requires
        p.rdesc@.len() <= DATA_MAX,
    ensures
        r@ == bytes::le32(UHID_CREATE2 as int) + c_string(utf8::encode_utf8(p.name@), 128)
            + bytes::zeros(64) + c_string(utf8::encode_utf8(p.uniq@), 64) + bytes::le16(
            p.rdesc@.len() as int,
        ) + bytes::le16(p.bus as int) + bytes::le32(p.vendor as int) + bytes::le32(p.product as int)
            + bytes::le32(p.version as int) + bytes::le32(0),
        r@.len() == C2_RD_DATA,
{
    let mut buf: Vec<u8> = Vec::new();
    bytes::append_zeros(&mut buf, C2_RD_DATA);
    assert(buf@ =~= bytes::zeros(C2_RD_DATA as nat));
    let ghost name = c_string(utf8::encode_utf8(p.name@), 128);
    let ghost uniq = c_string(utf8::encode_utf8(p.uniq@), 64);
    write_u32(buf.as_mut_slice(), 0, UHID_CREATE2);
    set_cstr(buf.as_mut_slice(), C2_NAME, 128, p.name);
    let ghost s1 = bytes::le32(UHID_CREATE2 as int) + name;
    assert(buf@ =~= s1 + bytes::zeros(148));
    set_cstr(buf.as_mut_slice(), C2_PHYS, 64, "");
    proof {
        reveal_strlit("");
        assert(""@ =~= Seq::<char>::empty());
        assert(utf8::encode_utf8(""@) =~= Seq::<u8>::empty());
    }
    assert(buf@ =~= s1 + bytes::zeros(148));
    set_cstr(buf.as_mut_slice(), C2_UNIQ, 64, p.uniq);
    let ghost s2 = s1 + bytes::zeros(64) + uniq;
    assert(buf@ =~= s2 + bytes::zeros(20));
    write_u16(buf.as_mut_slice(), C2_RD_SIZE, p.rdesc.len() as u16);
    write_u16(buf.as_mut_slice(), C2_BUS, p.bus);
    let ghost s3 = s2 + bytes::le16(p.rdesc@.len() as int) + bytes::le16(p.bus as int);
    assert(buf@ =~= s3 + bytes::zeros(16));
    write_u32(buf.as_mut_slice(), C2_VENDOR, p.vendor);
    write_u32(buf.as_mut_slice(), C2_PRODUCT, p.product);
    let ghost s4 = s3 + bytes::le32(p.vendor as int) + bytes::le32(p.product as int);
    assert(buf@ =~= s4 + bytes::zeros(8));
    write_u32(buf.as_mut_slice(), C2_VERSION, p.version);
    write_u32(buf.as_mut_slice(), C2_COUNTRY, 0);
    assert(buf@ =~= s4 + bytes::le32(p.version as int) + bytes::le32(0));
    buf
}

/// The event that creates a pad; none where the descriptor does not fit the
/// event.
pub fn create2(p: &CreateParams<'_>) -> (r: Option<Vec<u8>>)
    ensures
        r is Some <==> p.rdesc@.len() <= DATA_MAX,
        r is Some ==> (r->0)@ == create_event(*p) && (r->0)@.len() == EV_SIZE,
{
    if p.rdesc.len() > DATA_MAX {
        return None;
    }
    let mut buf: Vec<u8> = create_head(p);
    bytes::append(&mut buf, p.rdesc);
    let n: usize = EV_SIZE - buf.len();
    bytes::append_zeros(&mut buf, n);
    Some(buf)
}

/// The event that destroys the pad.
pub fn destroy() -> (r: Vec<u8>)
    ensures
        r@ == event(bytes::le32(UHID_DESTROY as int)),
        r@.len() == EV_SIZE,
{
    let mut buf: Vec<u8> = Vec::new();
    bytes::append_zeros(&mut buf, EV_SIZE);
    write_u32(buf.as_mut_slice(), 0, UHID_DESTROY);
    assert(buf@ =~= event(bytes::le32(UHID_DESTROY as int)));
    buf
}

/// The event that hands an input report to the kernel.
pub open spec fn input_event(report: Seq<u8>) -> Seq<u8> {
    event(
        bytes::le32(UHID_INPUT2 as int) + bytes::le16(clipped(report).len() as int) + clipped(
            report,
        ),
    )
}

fn clip(data: &[u8]) -> (r: &[u8])
    ensures
        r@ == clipped(data@),
{
    if data.len() <= DATA_MAX {
        data
    } else {
        vstd::slice::slice_subrange(data, 0, DATA_MAX)
    }
}

/// The event that hands an input report, or as much of it as fits, to the
/// kernel.
pub fn input2(report: &[u8]) -> (r: Vec<u8>)
    ensures
        r@ == input_event(report@),
        r@.len() == EV_SIZE,
{
    let payload: &[u8] = clip(report);
    let mut buf: Vec<u8> = Vec::new();
    bytes::append_zeros(&mut buf, EV_SIZE);
    write_u32(buf.as_mut_slice(), 0, UHID_INPUT2);
    write_u16(buf.as_mut_slice(), I2_SIZE, payload.len() as u16);
    bytes::lay_over(buf.as_mut_slice(), I2_DATA, payload);
    assert(buf@ =~= input_event(report@));
    buf
}

/// The reply to a GET_REPORT request: data only where there is no error.
pub open spec fn get_reply_event(id: u32, err: u16, data: Seq<u8>) -> Seq<u8> {
    event(
        bytes::le32(UHID_GET_REPORT_REPLY as int) + bytes::le32(id as int) + bytes::le16(err as int)
            + (if err == 0 {
            bytes::le16(clipped(data).len() as int) + clipped(data)
        } else {
            Seq::<u8>::empty()
        }),
    )
}

/// The event that answers a GET_REPORT request.
pub fn reply_get_report(id: u32, err: u16, data: &[u8]) -> (r: Vec<u8>)
    ensures
        r@ == get_reply_event(id, err, data@),
        r@.len() == EV_SIZE,
{
    let mut buf: Vec<u8> = Vec::new();
    bytes::append_zeros(&mut buf, EV_SIZE);
    write_u32(buf.as_mut_slice(), 0, UHID_GET_REPORT_REPLY);
    write_u32(buf.as_mut_slice(), GRR_ID, id);
    write_u16(buf.as_mut_slice(), GRR_ERR, err);
    if err == 0 {
        let payload: &[u8] = clip(data);
        write_u16(buf.as_mut_slice(), GRR_SIZE, payload.len() as u16);
        bytes::lay_over(buf.as_mut_slice(), GRR_DATA, payload);
    }
    assert(buf@ =~= get_reply_event(id, err, data@));
    buf
}

/// The reply to a SET_REPORT request.
pub open spec fn set_reply_event(id: u32, err: u16) -> Seq<u8> {
    event(
        bytes::le32(UHID_SET_REPORT_REPLY as int) + bytes::le32(id as int) + bytes::le16(
            err as int,
        ),
    )
}

/// The event that answers a SET_REPORT request.
pub fn reply_set_report(id: u32, err: u16) -> (r: Vec<u8>)
    ensures
        r@ == set_reply_event(id, err),
        r@.len() == EV_SIZE,
{
    let mut buf: Vec<u8> = Vec::new();
    bytes::append_zeros(&mut buf, EV_SIZE);
    write_u32(buf.as_mut_slice(), 0, UHID_SET_REPORT_REPLY);
    write_u32(buf.as_mut_slice(), GRR_ID, id);
    write_u16(buf.as_mut_slice(), GRR_ERR, err);
    assert(buf@ =~= set_reply_event(id, err));
    buf
}

// ---------------------------------------------------------------- events in

/// An event of the kernel.
pub enum UhidEvent<'a> {
    Start,
    Stop,
    /// Report bytes.
    Output(&'a [u8]),
    /// Request id, report number.
    GetReport(u32, u8),
    /// Request id, report number, report bytes.
    SetReport(u32, u8, &'a [u8]),
    Other(u32),
}

/// A `UhidEvent` by its values.
pub ghost enum EventShape {
    Start,
    Stop,
    Output(Seq<u8>),
    GetReport(u32, u8),
    SetReport(u32, u8, Seq<u8>),
    Other(u32),
}

impl<'a> View for UhidEvent<'a> {
    type V = EventShape;

    open spec fn view(&self) -> EventShape {
        match *self {
            UhidEvent::Start => EventShape::Start,
            UhidEvent::Stop => EventShape::Stop,
            UhidEvent::Output(d) => EventShape::Output(d@),
            UhidEvent::GetReport(id, rnum) => EventShape::GetReport(id, rnum),
            UhidEvent::SetReport(id, rnum, d) => EventShape::SetReport(id, rnum, d@),
            UhidEvent::Other(k) => EventShape::Other(k),
        }
    }
}

/// A size field, at most the size of the data field.
pub open spec fn data_len(ev: Seq<u8>, at: int) -> int {
    let n = bytes::from_le16(ev, at);
    if n <= DATA_MAX {
        n
    } else {
        DATA_MAX as int
    }
}

/// The event that `ev` holds; bytes that are fewer than an event hold none.
pub open spec fn event_of(ev: Seq<u8>) -> EventShape {
    if ev.len() < EV_SIZE {
        EventShape::Other(u32::MAX)
    } else {
        let kind = bytes::from_le32(ev, 0);
        if kind == UHID_START {
            EventShape::Start
        } else if kind == UHID_STOP {
            EventShape::Stop
        } else if kind == UHID_OUTPUT {
            EventShape::Output(ev.subrange(4, 4 + data_len(ev, 4100)))
        } else if kind == UHID_GET_REPORT {
            EventShape::GetReport(bytes::from_le32(ev, 4) as u32, ev[8])
        } else if kind == UHID_SET_REPORT {
            EventShape::SetReport(
                bytes::from_le32(ev, 4) as u32,
                ev[8],
                ev.subrange(12, 12 + data_len(ev, 10)),
            )
        } else {
            EventShape::Other(kind as u32)
        }
    }
}

fn size_at(ev: &[u8], at: usize) -> (r: usize)
    requires
        at + 2 <= ev@.len(),
    ensures
        r == data_len(ev@, at as int),
        r <= DATA_MAX,
{
    let n: usize = read_u16(ev, at) as usize;
    if n <= DATA_MAX {
        n
    } else {
        DATA_MAX
    }
}

/// The event that `ev` holds.
pub fn parse_event<'a>(ev: &'a [u8]) -> (r: UhidEvent<'a>)
    ensures
        r@ == event_of(ev@),
{
    if ev.len() < EV_SIZE {
        return UhidEvent::Other(u32::MAX);
    }
    let kind: u32 = read_u32(ev, 0);
    if kind == UHID_START {
        UhidEvent::Start
    } else if kind == UHID_STOP {
        UhidEvent::Stop
    } else if kind == UHID_OUTPUT {
        let n: usize = size_at(ev, OUT_SIZE);
        UhidEvent::Output(vstd::slice::slice_subrange(ev, OUT_DATA, OUT_DATA + n))
    } else if kind == UHID_GET_REPORT {
        UhidEvent::GetReport(read_u32(ev, GR_ID), ev[GR_RNUM])
    } else if kind == UHID_SET_REPORT {
        let n: usize = size_at(ev, SR_SIZE);
        UhidEvent::SetReport(
            read_u32(ev, GR_ID),
            ev[GR_RNUM],
            vstd::slice::slice_subrange(ev, SR_DATA, SR_DATA + n),
        )
    } else {
        UhidEvent::Other(kind)
    }
}

/// A number spelled by four bytes at `at`, least significant first.
pub open spec fn spells32(ev: Seq<u8>, at: int, v: int) -> bool {
    ev[at] + 256 * ev[at + 1] + 65536 * ev[at + 2] + 16777216 * ev[at + 3] == v
}

/// A number spelled by two bytes at `at`, least significant first.
pub open spec fn spells16(ev: Seq<u8>, at: int, v: int) -> bool {
    ev[at] + 256 * ev[at + 1] == v
}

/// The create event, field by field: kind 11 at 0, the name from 4 on, the
/// address from 196 on, the descriptor's size at 260, the bus at 262, vendor,
/// product and version at 264, 268 and 272, and the descriptor from 280 on.
/// Texts are cut so that a zero ends them.
pub proof fn create_event_fields(p: CreateParams<'_>, i: int)
    requires
        p.rdesc@.len() <= 4096,
        0 <= i < 4096,
    ensures
        ({
            let ev = create_event(p);
            let name = utf8::encode_utf8(p.name@);
            let uniq = utf8::encode_utf8(p.uniq@);
            &&& ev.len() == 4376
            &&& spells32(ev, 0, 11)
            &&& i < 127 && i < name.len() ==> ev[4 + i] == name[i]
            &&& i < 128 && (i >= name.len() || i == 127) ==> ev[4 + i] == 0
            &&& i < 64 ==> ev[132 + i] == 0
            &&& i < 63 && i < uniq.len() ==> ev[196 + i] == uniq[i]
            &&& i < 64 && (i >= uniq.len() || i == 63) ==> ev[196 + i] == 0
            &&& spells16(ev, 260, p.rdesc@.len() as int)
            &&& spells16(ev, 262, p.bus as int)
            &&& spells32(ev, 264, p.vendor as int)
            &&& spells32(ev, 268, p.product as int)
            &&& spells32(ev, 272, p.version as int)
            &&& spells32(ev, 276, 0)
            &&& i < p.rdesc@.len() ==> ev[280 + i] == p.rdesc@[i]
            &&& i >= p.rdesc@.len() ==> ev[280 + i] == 0
        }),
{
    let ev = create_event(p);
    let a = bytes::le32(UHID_CREATE2 as int);
    let b = c_string(utf8::encode_utf8(p.name@), 128);
    let c = bytes::zeros(64);
    let d = c_string(utf8::encode_utf8(p.uniq@), 64);
    let e = bytes::le16(p.rdesc@.len() as int);
    let f = bytes::le16(p.bus as int);
    let g = bytes::le32(p.vendor as int);
    let h = bytes::le32(p.product as int);
    let j = bytes::le32(p.version as int);
    let k = bytes::le32(0);
    let head = a + b + c + d;
    let mid = head + e + f + g + h + j + k;
    assert(head.len() == 260);
    assert(mid.len() == 280);
    assert(ev == (mid + p.rdesc@) + bytes::zeros((4376 - 280 - p.rdesc@.len()) as nat));
    assert(forall|n: int| 0 <= n < 280 ==> ev[n] == mid[n]);
    assert(forall|n: int| 0 <= n < 260 ==> mid[n] == head[n]);
    assert(head[4 + i] == b[i] || i >= 128);
    assert(i < 64 ==> head[196 + i] == d[i]);
    assert(ev[260] == e[0] && ev[261] == e[1]);
    assert(ev[262] == f[0] && ev[263] == f[1]);
    assert(ev[264] == g[0] && ev[265] == g[1] && ev[266] == g[2] && ev[267] == g[3]);
    assert(ev[268] == h[0] && ev[269] == h[1] && ev[270] == h[2] && ev[271] == h[3]);
    assert(ev[272] == j[0] && ev[273] == j[1] && ev[274] == j[2] && ev[275] == j[3]);
    bytes::le32_round_trip(p.vendor as int);
    bytes::le32_round_trip(p.product as int);
    bytes::le32_round_trip(p.version as int);
    bytes::le16_round_trip(p.bus as int);
    bytes::le16_round_trip(p.rdesc@.len() as int);
}

/// An input event, field by field: kind 12 at 0, the size at 4 and the report
/// from 6 on, cut at 4096 bytes.
pub proof fn input_event_fields(report: Seq<u8>, i: int)
    requires
        0 <= i < 4096,
    ensures
        ({
            let ev = input_event(report);
            &&& ev.len() == 4376
            &&& spells32(ev, 0, 12)
            &&& spells16(ev, 4, if report.len() <= 4096 {
                report.len() as int
            } else {
                4096
            })
            &&& i < report.len() ==> ev[6 + i] == report[i]
            &&& i >= report.len() ==> ev[6 + i] == 0
        }),
{
    bytes::le16_round_trip(clipped(report).len() as int);
    let ev = input_event(report);
    let n = bytes::le16(clipped(report).len() as int);
    assert(ev[4] == n[0] && ev[5] == n[1]);
}

/// The reply to a feature request, field by field: kind 10 at 0, the request's
/// id at 4, the error at 8; and where there is none, the size at 10 and the
/// report from 12 on. The reply to a feature write is of kind 14, with the
/// same id and error fields.
pub proof fn reply_event_fields(id: u32, err: u16, data: Seq<u8>, i: int)
    requires
        0 <= i < 4096,
    ensures
        ({
            let ev = get_reply_event(id, err, data);
            &&& ev.len() == 4376
            &&& spells32(ev, 0, 10)
            &&& spells32(ev, 4, id as int)
            &&& spells16(ev, 8, err as int)
            &&& err == 0 ==> {
                &&& spells16(ev, 10, if data.len() <= 4096 {
                    data.len() as int
                } else {
                    4096
                })
                &&& i < data.len() ==> ev[12 + i] == data[i]
            }
            &&& err != 0 ==> spells16(ev, 10, 0)
        }),
        ({
            let ev = set_reply_event(id, err);
            &&& ev.len() == 4376
            &&& spells32(ev, 0, 14)
            &&& spells32(ev, 4, id as int)
            &&& spells16(ev, 8, err as int)
            &&& spells16(ev, 10, 0)
        }),
{
    bytes::le32_round_trip(id as int);
    bytes::le16_round_trip(err as int);
    bytes::le16_round_trip(clipped(data).len() as int);
    let ev = get_reply_event(id, err, data);
    let n = bytes::le16(clipped(data).len() as int);
    let w = bytes::le32(id as int);
    let e = bytes::le16(err as int);
    assert(ev[4] == w[0] && ev[5] == w[1] && ev[6] == w[2] && ev[7] == w[3]);
    assert(ev[8] == e[0] && ev[9] == e[1]);
    assert(err == 0 ==> ev[10] == n[0] && ev[11] == n[1]);
    let sv = set_reply_event(id, err);
    assert(sv[4] == w[0] && sv[5] == w[1] && sv[6] == w[2] && sv[7] == w[3]);
    assert(sv[8] == e[0] && sv[9] == e[1]);
}

/// A kernel event is read by its kind at 0: 2 starts the pad and 3 stops it; 6
/// is an output, whose data stands from 4 on under the size at 4100; 9 asks
/// for a feature, id at 4 and number at 8; 13 writes one, whose data stands
/// from 12 on under the size at 10. Anything else, and anything shorter than
/// an event, is left alone.
pub proof fn kernel_events_are_read_at_their_fields(ev: Seq<u8>, n: int, id: u32)
    requires
        ev.len() >= 4376,
        0 <= n <= 4096,
    ensures
        spells32(ev, 0, 2) ==> event_of(ev) == EventShape::Start,
        spells32(ev, 0, 3) ==> event_of(ev) == EventShape::Stop,
        spells32(ev, 0, 6) && spells16(ev, 4100, n) ==> event_of(ev) == EventShape::Output(
            ev.subrange(4, 4 + n),
        ),
        spells32(ev, 0, 9) && spells32(ev, 4, id as int) ==> event_of(ev) == EventShape::GetReport(
            id,
            ev[8],
        ),
        spells32(ev, 0, 13) && spells32(ev, 4, id as int) && spells16(ev, 10, n) ==> event_of(ev)
            == EventShape::SetReport(id, ev[8], ev.subrange(12, 12 + n)),
        event_of(ev) is Start ==> spells32(ev, 0, 2),
        event_of(ev) is Stop ==> spells32(ev, 0, 3),
        event_of(ev) is Output ==> spells32(ev, 0, 6),
        event_of(ev) is GetReport ==> spells32(ev, 0, 9),
        event_of(ev) is SetReport ==> spells32(ev, 0, 13),
        forall|short: Seq<u8>| short.len() < 4376 ==> #[trigger] event_of(short) is Other,
{
}

} // verus!
