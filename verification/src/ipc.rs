//! Framing between the proxy and the virtual-pad holder.
//!
//! A frame is `[u32 LE len][u8 tag][payload]`, where `len` counts the tag and
//! the payload.

use vstd::prelude::*;
use vstd::utf8;

use crate::bytes;
use crate::text;
use crate::uhid;

verus! {

/// `C`
pub const TAG_CREATE: u8 = 0x43;

/// `I`
pub const TAG_INPUT: u8 = 0x49;

/// `N`
pub const TAG_NEUTRAL: u8 = 0x4e;

/// `G`
pub const TAG_GET_REPLY: u8 = 0x47;

/// `A`
pub const TAG_SET_ACK: u8 = 0x41;

/// `D`: destroy the virtual pad.
pub const TAG_DESTROY: u8 = 0x44;

/// `c`
pub const TAG_CREATE_ACK: u8 = 0x63;

/// `O`
pub const TAG_OUTPUT: u8 = 0x4f;

/// `Q`
pub const TAG_GET_REQ: u8 = 0x51;

/// `T`
pub const TAG_SET_REQ: u8 = 0x54;

/// `X`
pub const TAG_NOTICE: u8 = 0x58;

/// The longest tag and payload that a receiver takes.
pub const MAX_FRAME: usize = 16384;

/// File name of an instance's socket.
pub open spec fn sock_name(instance: Seq<char>) -> Seq<char> {
    if instance.len() == 0 {
        "mdrv-ds.sock"@
    } else {
        "mdrv-ds-xi.sock"@
    }
}

/// Path of an instance's socket: the empty name is the DualSense holder, any
/// other the XInput holder.
pub fn sock_path_for(runtime_dir: &Option<String>, instance: &str) -> (r: String)
    ensures
        r@ == text::runtime_path(*runtime_dir, sock_name(instance@)),
{
    if instance.is_empty() {
        text::in_runtime_dir(runtime_dir, "mdrv-ds.sock")
    } else {
        text::in_runtime_dir(runtime_dir, "mdrv-ds-xi.sock")
    }
}

// ---------------------------------------------------------------- frames

/// The frame of a tag and a payload.
pub open spec fn frame(tag: u8, payload: Seq<u8>) -> Seq<u8> {
    bytes::le32(1 + payload.len() as int) + seq![tag] + payload
}

/// Why no frame could be taken from a stream.
#[derive(Clone, Copy, PartialEq, Eq, Debug, Structural)]
pub enum RecvError {
    /// The stream ends inside the frame.
    Short,
    /// The length is zero or over the limit.
    BadLength,
}

/// What the length field at the start of a stream announces.
pub open spec fn announced(header: Seq<u8>) -> Result<int, RecvError> {
    let n = bytes::from_le32(header, 0);
    if n == 0 || n > MAX_FRAME {
        Err(RecvError::BadLength)
    } else {
        Ok(n)
    }
}

/// The first frame of a stream.
pub open spec fn received(s: Seq<u8>) -> Result<(u8, Seq<u8>), RecvError> {
    if s.len() < 4 {
        Err(RecvError::Short)
    } else {
        match announced(s) {
            Err(e) => Err(e),
            Ok(n) => if s.len() < 4 + n {
                Err(RecvError::Short)
            } else {
                Ok((s[4], s.subrange(5, 4 + n)))
            },
        }
    }
}

/// Appends the frame of a tag and a payload to an outgoing stream.
pub fn send(out: &mut Vec<u8>, tag: u8, payload: &[u8])
    requires
        payload@.len() < usize::MAX,
    ensures
        final(out)@ == old(out)@ + frame(tag, payload@),
{
    let n: usize = 1 + payload.len();
    out.push((n % 256) as u8);
    out.push(((n / 256) % 256) as u8);
    out.push(((n / 65536) % 256) as u8);
    out.push(((n / 16777216) % 256) as u8);
    out.push(tag);
    bytes::append(out, payload);
    assert(out@ =~= old(out)@ + frame(tag, payload@));
}

/// How many bytes follow the four bytes of a length field.
pub fn body_len(header: &[u8]) -> (r: Result<usize, RecvError>)
    requires
        header@.len() >= 4,
    ensures
        match r {
            Ok(n) => announced(header@) == Ok::<int, RecvError>(n as int),
            Err(e) => announced(header@) == Err::<int, RecvError>(e),
        },
{
    let n: u64 = header[0] as u64 + 256 * (header[1] as u64) + 65536 * (header[2] as u64) + 16777216
        * (header[3] as u64);
    if n == 0 || n > MAX_FRAME as u64 {
        Err(RecvError::BadLength)
    } else {
        Ok(n as usize)
    }
}

/// Takes the first frame of an incoming stream.
pub fn recv(stream: &[u8]) -> (r: Result<(u8, Vec<u8>), RecvError>)
    ensures
        match r {
            Ok((tag, payload)) => received(stream@) == Ok::<(u8, Seq<u8>), RecvError>(
                (tag, payload@),
            ),
            Err(e) => received(stream@) == Err::<(u8, Seq<u8>), RecvError>(e),
        },
{
    if stream.len() < 4 {
        return Err(RecvError::Short);
    }
    match body_len(stream) {
        Err(e) => Err(e),
        Ok(n) => {
            if stream.len() < 4 + n {
                Err(RecvError::Short)
            } else {
                Ok((stream[4], bytes::slice_vec(stream, 5, 4 + n)))
            }
        },
    }
}

/// A receiver takes from the stream exactly the tag and payload that were
/// sent, whatever follows, as long as they fit the limit.
pub proof fn recv_returns_what_was_sent(tag: u8, payload: Seq<u8>, rest: Seq<u8>)
    requires
        1 + payload.len() <= MAX_FRAME,
    ensures
        received(frame(tag, payload) + rest) == Ok::<(u8, Seq<u8>), RecvError>((tag, payload)),
{
    let n = 1 + payload.len() as int;
    let s = frame(tag, payload) + rest;
    bytes::le32_round_trip(n);
    assert(bytes::from_le32(s, 0) == bytes::from_le32(bytes::le32(n), 0));
    assert(s[4] == tag);
    assert(s.subrange(5, 4 + n) =~= payload);
}

/// A receiver refuses a frame that is over the limit.
pub proof fn recv_refuses_oversize(tag: u8, payload: Seq<u8>, rest: Seq<u8>)
    requires
        MAX_FRAME < 1 + payload.len() < 4294967296,
    ensures
        received(frame(tag, payload) + rest) == Err::<(u8, Seq<u8>), RecvError>(
            RecvError::BadLength,
        ),
{
    let n = 1 + payload.len() as int;
    let s = frame(tag, payload) + rest;
    bytes::le32_round_trip(n);
    assert(bytes::from_le32(s, 0) == bytes::from_le32(bytes::le32(n), 0));
}

// ---------------------------------------------------------------- create

/// The shape of a virtual pad.
pub struct CreateMsg {
    pub bus: u16,
    pub vendor: u32,
    pub product: u32,
    pub version: u32,
    pub name: String,
    pub uniq: String,
    pub rdesc: Vec<u8>,
}

/// A `CreateMsg` by its values.
pub ghost struct CreateShape {
    pub bus: u16,
    pub vendor: u32,
    pub product: u32,
    pub version: u32,
    pub name: Seq<char>,
    pub uniq: Seq<char>,
    pub rdesc: Seq<u8>,
}

impl View for CreateMsg {
    type V = CreateShape;

    open spec fn view(&self) -> CreateShape {
        CreateShape {
            bus: self.bus,
            vendor: self.vendor,
            product: self.product,
            version: self.version,
            name: self.name@,
            uniq: self.uniq@,
            rdesc: self.rdesc@,
        }
    }
}

/// A text behind its length in one byte.
pub open spec fn short_text(s: Seq<char>) -> Seq<u8> {
    let b = utf8::encode_utf8(s);
    seq![(b.len() % 256) as u8] + b
}

/// The payload of a create frame.
pub open spec fn create_payload(m: CreateShape) -> Seq<u8> {
    bytes::le16(m.bus as int) + bytes::le32(m.vendor as int) + bytes::le32(m.product as int)
        + bytes::le32(m.version as int) + short_text(m.name) + short_text(m.uniq) + bytes::le16(
        m.rdesc.len() as int,
    ) + m.rdesc
}

/// The text behind the one-byte length at `at`, where it is there and is UTF-8.
pub open spec fn short_text_at(p: Seq<u8>, at: int) -> Option<Seq<char>> {
    if at < p.len() && at + 1 + p[at] <= p.len() && utf8::valid_utf8(
        p.subrange(at + 1, at + 1 + p[at]),
    ) {
        Some(utf8::decode_utf8(p.subrange(at + 1, at + 1 + p[at])))
    } else {
        None
    }
}

/// The pad shape that a create payload holds.
pub open spec fn created(p: Seq<u8>) -> Option<CreateShape> {
    let name = short_text_at(p, 14);
    let uniq_at = 15 + p[14];
    let uniq = short_text_at(p, uniq_at);
    let size_at = uniq_at + 1 + p[uniq_at];
    let size = bytes::from_le16(p, size_at);
    if name is None || uniq is None || size_at + 2 > p.len() || size_at + 2 + size > p.len() {
        None
    } else {
        Some(
            CreateShape {
                bus: bytes::from_le16(p, 0) as u16,
                vendor: bytes::from_le32(p, 2) as u32,
                product: bytes::from_le32(p, 6) as u32,
                version: bytes::from_le32(p, 10) as u32,
                name: name->0,
                uniq: uniq->0,
                rdesc: p.subrange(size_at + 2, size_at + 2 + size),
            },
        )
    }
}

/// `String::from_utf8` of std: the text that the bytes encode, where they are
/// UTF-8.
#[verifier::external_body]
fn from_utf8(b: Vec<u8>) -> (r: Option<String>)
    ensures
        r is Some == utf8::valid_utf8(b@),
        r is Some ==> (r->0)@ == utf8::decode_utf8(b@),
{
    String::from_utf8(b).ok()
}

fn append_short_text(out: &mut Vec<u8>, s: &str)
    ensures
        final(out)@ == old(out)@ + short_text(s@),
{
    let b: &[u8] = s.as_bytes();
    out.push((b.len() % 256) as u8);
    bytes::append(out, b);
    assert(out@ =~= old(out)@ + short_text(s@));
}

fn take_short_text(p: &[u8], at: usize) -> (r: Option<String>)
    ensures
        match r {
            Some(s) => short_text_at(p@, at as int) == Some(s@),
            None => short_text_at(p@, at as int) is None,
        },
{
    if at >= p.len() {
        return None;
    }
    let n: usize = p[at] as usize;
    if n > p.len() - at - 1 {
        return None;
    }
    from_utf8(bytes::slice_vec(p, at + 1, at + 1 + n))
}

/// The payload of a create frame.
pub fn encode_create(m: &CreateMsg) -> (r: Vec<u8>)
    ensures
        r@ == create_payload(m@),
{
    let mut p: Vec<u8> = Vec::new();
    bytes::append_u16(&mut p, m.bus);
    assert(p@ =~= bytes::le16(m.bus as int));
    bytes::append_u32(&mut p, m.vendor);
    bytes::append_u32(&mut p, m.product);
    bytes::append_u32(&mut p, m.version);
    append_short_text(&mut p, m.name.as_str());
    append_short_text(&mut p, m.uniq.as_str());
    let n: usize = m.rdesc.len();
    let ghost before = p@;
    p.push((n % 256) as u8);
    p.push(((n / 256) % 256) as u8);
    assert(p@ =~= before + bytes::le16(n as int));
    bytes::append(&mut p, m.rdesc.as_slice());
    p
}

/// The pad shape that a create payload holds; none where it is cut short or a
/// text in it is not UTF-8.
pub fn decode_create(p: &[u8]) -> (r: Option<CreateMsg>)
    ensures
        match r {
            Some(m) => created(p@) == Some(m@),
            None => created(p@) is None,
        },
{
    let name: String = match take_short_text(p, 14) {
        Some(s) => s,
        None => {
            return None;
        },
    };
    let uniq_at: usize = 15 + p[14] as usize;
    let uniq: String = match take_short_text(p, uniq_at) {
        Some(s) => s,
        None => {
            return None;
        },
    };
    let size_at: usize = uniq_at + 1 + p[uniq_at] as usize;
    if p.len() - size_at < 2 {
        return None;
    }
    let size: usize = read_le16(p, size_at) as usize;
    if size > p.len() - size_at - 2 {
        return None;
    }
    Some(
        CreateMsg {
            bus: read_le16(p, 0),
            vendor: read_le32(p, 2),
            product: read_le32(p, 6),
            version: read_le32(p, 10),
            name,
            uniq,
            rdesc: bytes::slice_vec(p, size_at + 2, size_at + 2 + size),
        },
    )
}

fn read_le16(p: &[u8], at: usize) -> (r: u16)
    requires
        at + 2 <= p@.len(),
    ensures
        r == bytes::from_le16(p@, at as int),
{
    p[at] as u16 + 256 * (p[at + 1] as u16)
}

fn read_le32(p: &[u8], at: usize) -> (r: u32)
    requires
        at + 4 <= p@.len(),
    ensures
        r == bytes::from_le32(p@, at as int),
{
    p[at] as u32 + 256 * (p[at + 1] as u32) + 65536 * (p[at + 2] as u32) + 16777216 * (p[at
        + 3] as u32)
}

proof fn short_text_round_trip(before: Seq<u8>, s: Seq<char>, after: Seq<u8>)
    requires
        utf8::encode_utf8(s).len() < 256,
    ensures
        short_text_at(before + short_text(s) + after, before.len() as int) == Some(s),
        (before + short_text(s) + after)[before.len() as int] == utf8::encode_utf8(s).len(),
        short_text(s).len() == 1 + utf8::encode_utf8(s).len(),
{
    let b = utf8::encode_utf8(s);
    let p = before + short_text(s) + after;
    let at = before.len() as int;
    assert(p[at] == b.len());
    assert(p.subrange(at + 1, at + 1 + b.len()) =~= b);
    utf8::encode_utf8_valid_utf8(s);
    utf8::encode_utf8_decode_utf8(s);
}

/// The shape that a create payload was made of comes back from it, where the
/// two texts take at most 255 bytes and the descriptor at most 65535.
pub proof fn decode_returns_what_was_encoded(m: CreateShape)
    requires
        utf8::encode_utf8(m.name).len() < 256,
        utf8::encode_utf8(m.uniq).len() < 256,
        m.rdesc.len() < 65536,
    ensures
        created(create_payload(m)) == Some(m),
{
    let head = bytes::le16(m.bus as int) + bytes::le32(m.vendor as int) + bytes::le32(
        m.product as int,
    ) + bytes::le32(m.version as int);
    let tail = bytes::le16(m.rdesc.len() as int) + m.rdesc;
    let p = create_payload(m);
    assert(p =~= head + short_text(m.name) + (short_text(m.uniq) + tail));
    short_text_round_trip(head, m.name, short_text(m.uniq) + tail);
    let upto = head + short_text(m.name);
    assert(p =~= upto + short_text(m.uniq) + tail);
    short_text_round_trip(upto, m.uniq, tail);
    let size_at = (upto + short_text(m.uniq)).len() as int;
    bytes::le16_round_trip(m.rdesc.len() as int);
    assert(bytes::from_le16(p, size_at) == bytes::from_le16(
        bytes::le16(m.rdesc.len() as int),
        0,
    ));
    assert(p.subrange(size_at + 2, size_at + 2 + m.rdesc.len()) =~= m.rdesc);
    bytes::le16_round_trip(m.bus as int);
    bytes::le32_round_trip(m.vendor as int);
    bytes::le32_round_trip(m.product as int);
    bytes::le32_round_trip(m.version as int);
    assert(bytes::from_le16(p, 0) == bytes::from_le16(bytes::le16(m.bus as int), 0));
    assert(bytes::from_le32(p, 2) == bytes::from_le32(bytes::le32(m.vendor as int), 0));
    assert(bytes::from_le32(p, 6) == bytes::from_le32(bytes::le32(m.product as int), 0));
    assert(bytes::from_le32(p, 10) == bytes::from_le32(bytes::le32(m.version as int), 0));
}

// ---------------------------------------------------------------- small payloads

/// A GET_REPORT request: id and report number.
pub open spec fn req_payload(id: u32, rnum: u8) -> Seq<u8> {
    bytes::le32(id as int) + seq![rnum]
}

pub open spec fn req_of(p: Seq<u8>) -> Option<(u32, u8)> {
    if p.len() == 5 {
        Some((bytes::from_le32(p, 0) as u32, p[4]))
    } else {
        None
    }
}

/// A GET_REPORT reply: id, error and data behind its length.
pub open spec fn get_reply_payload(id: u32, err: u16, data: Seq<u8>) -> Seq<u8> {
    bytes::le32(id as int) + bytes::le16(err as int) + bytes::le16(data.len() as int) + data
}

pub open spec fn get_reply_of(p: Seq<u8>) -> Option<(u32, u16, Seq<u8>)> {
    if p.len() >= 8 && p.len() >= 8 + bytes::from_le16(p, 6) {
        Some(
            (
                bytes::from_le32(p, 0) as u32,
                bytes::from_le16(p, 4) as u16,
                p.subrange(8, 8 + bytes::from_le16(p, 6)),
            ),
        )
    } else {
        None
    }
}

/// A SET_REPORT request: id, report number and data behind its length.
pub open spec fn set_req_payload(id: u32, rnum: u8, data: Seq<u8>) -> Seq<u8> {
    req_payload(id, rnum) + bytes::le16(data.len() as int) + data
}

pub open spec fn set_req_of(p: Seq<u8>) -> Option<(u32, u8, Seq<u8>)> {
    if p.len() >= 7 && p.len() >= 7 + bytes::from_le16(p, 5) {
        Some(
            (
                bytes::from_le32(p, 0) as u32,
                p[4],
                p.subrange(7, 7 + bytes::from_le16(p, 5)),
            ),
        )
    } else {
        None
    }
}

/// A SET_REPORT reply: id and error.
pub open spec fn ack_payload(id: u32, err: u16) -> Seq<u8> {
    bytes::le32(id as int) + bytes::le16(err as int)
}

pub open spec fn ack_of(p: Seq<u8>) -> Option<(u32, u16)> {
    if p.len() == 6 {
        Some((bytes::from_le32(p, 0) as u32, bytes::from_le16(p, 4) as u16))
    } else {
        None
    }
}

fn append_sized(p: &mut Vec<u8>, data: &[u8])
    ensures
        final(p)@ == old(p)@ + bytes::le16(data@.len() as int) + data@,
{
    let n: usize = data.len();
    p.push((n % 256) as u8);
    p.push(((n / 256) % 256) as u8);
    assert(p@ =~= old(p)@ + bytes::le16(n as int));
    bytes::append(p, data);
}

pub fn enc_req(id: u32, rnum: u8) -> (r: Vec<u8>)
    ensures
        r@ == req_payload(id, rnum),
{
    let mut p: Vec<u8> = Vec::new();
    bytes::append_u32(&mut p, id);
    p.push(rnum);
    assert(p@ =~= req_payload(id, rnum));
    p
}

pub fn dec_req(p: &[u8]) -> (r: Option<(u32, u8)>)
    ensures
        r == req_of(p@),
{
    if p.len() != 5 {
        return None;
    }
    Some((read_le32(p, 0), p[4]))
}

pub fn enc_get_reply(id: u32, err: u16, data: &[u8]) -> (r: Vec<u8>)
    ensures
        r@ == get_reply_payload(id, err, data@),
{
    let mut p: Vec<u8> = Vec::new();
    bytes::append_u32(&mut p, id);
    bytes::append_u16(&mut p, err);
    append_sized(&mut p, data);
    assert(p@ =~= get_reply_payload(id, err, data@));
    p
}

pub fn dec_get_reply(p: &[u8]) -> (r: Option<(u32, u16, Vec<u8>)>)
    ensures
        match r {
            Some((id, err, data)) => get_reply_of(p@) == Some((id, err, data@)),
            None => get_reply_of(p@) is None,
        },
{
    if p.len() < 8 {
        return None;
    }
    let n: usize = read_le16(p, 6) as usize;
    if p.len() - 8 < n {
        return None;
    }
    Some((read_le32(p, 0), read_le16(p, 4), bytes::slice_vec(p, 8, 8 + n)))
}

pub fn enc_set_req(id: u32, rnum: u8, data: &[u8]) -> (r: Vec<u8>)
    ensures
        r@ == set_req_payload(id, rnum, data@),
{
    let mut p: Vec<u8> = enc_req(id, rnum);
    append_sized(&mut p, data);
    p
}

pub fn dec_set_req(p: &[u8]) -> (r: Option<(u32, u8, Vec<u8>)>)
    ensures
        match r {
            Some((id, rnum, data)) => set_req_of(p@) == Some((id, rnum, data@)),
            None => set_req_of(p@) is None,
        },
{
    if p.len() < 7 {
        return None;
    }
    let n: usize = read_le16(p, 5) as usize;
    if p.len() - 7 < n {
        return None;
    }
    Some((read_le32(p, 0), p[4], bytes::slice_vec(p, 7, 7 + n)))
}

pub fn enc_ack(id: u32, err: u16) -> (r: Vec<u8>)
    ensures
        r@ == ack_payload(id, err),
{
    let mut p: Vec<u8> = Vec::new();
    bytes::append_u32(&mut p, id);
    bytes::append_u16(&mut p, err);
    assert(p@ =~= ack_payload(id, err));
    p
}

pub fn dec_ack(p: &[u8]) -> (r: Option<(u32, u16)>)
    ensures
        r == ack_of(p@),
{
    if p.len() != 6 {
        return None;
    }
    Some((read_le32(p, 0), read_le16(p, 4)))
}

/// A GET_REPORT request comes back from its payload.
pub proof fn req_round_trip(id: u32, rnum: u8)
    ensures
        req_of(req_payload(id, rnum)) == Some((id, rnum)),
{
    let p = req_payload(id, rnum);
    bytes::le32_round_trip(id as int);
    assert(bytes::from_le32(p, 0) == bytes::from_le32(bytes::le32(id as int), 0));
}

/// A GET_REPORT reply comes back from its payload, where the data takes at
/// most 65535 bytes.
pub proof fn get_reply_round_trip(id: u32, err: u16, data: Seq<u8>)
    requires
        data.len() < 65536,
    ensures
        get_reply_of(get_reply_payload(id, err, data)) == Some((id, err, data)),
{
    let p = get_reply_payload(id, err, data);
    bytes::le32_round_trip(id as int);
    bytes::le16_round_trip(err as int);
    bytes::le16_round_trip(data.len() as int);
    assert(bytes::from_le32(p, 0) == bytes::from_le32(bytes::le32(id as int), 0));
    assert(bytes::from_le16(p, 4) == bytes::from_le16(bytes::le16(err as int), 0));
    assert(bytes::from_le16(p, 6) == bytes::from_le16(bytes::le16(data.len() as int), 0));
    assert(p.subrange(8, 8 + data.len() as int) =~= data);
}

/// A SET_REPORT request comes back from its payload, where the data takes at
/// most 65535 bytes.
pub proof fn set_req_round_trip(id: u32, rnum: u8, data: Seq<u8>)
    requires
        data.len() < 65536,
    ensures
        set_req_of(set_req_payload(id, rnum, data)) == Some((id, rnum, data)),
{
    let p = set_req_payload(id, rnum, data);
    bytes::le32_round_trip(id as int);
    bytes::le16_round_trip(data.len() as int);
    assert(bytes::from_le32(p, 0) == bytes::from_le32(bytes::le32(id as int), 0));
    assert(bytes::from_le16(p, 5) == bytes::from_le16(bytes::le16(data.len() as int), 0));
    assert(p.subrange(7, 7 + data.len() as int) =~= data);
}

/// A SET_REPORT reply comes back from its payload.
pub proof fn ack_round_trip(id: u32, err: u16)
    ensures
        ack_of(ack_payload(id, err)) == Some((id, err)),
{
    let p = ack_payload(id, err);
    bytes::le32_round_trip(id as int);
    bytes::le16_round_trip(err as int);
    assert(bytes::from_le32(p, 0) == bytes::from_le32(bytes::le32(id as int), 0));
    assert(bytes::from_le16(p, 4) == bytes::from_le16(bytes::le16(err as int), 0));
}

/// A frame on the wire: the size of what follows in four bytes, least
/// significant first, the tag, and the payload.
pub proof fn frame_fields(tag: u8, payload: Seq<u8>, i: int)
    requires
        1 + payload.len() < 4294967296,
        0 <= i < payload.len(),
    ensures
        frame(tag, payload).len() == 5 + payload.len(),
        uhid::spells32(frame(tag, payload), 0, 1 + payload.len() as int),
        frame(tag, payload)[4] == tag,
        frame(tag, payload)[5 + i] == payload[i],
{
    bytes::le32_round_trip(1 + payload.len() as int);
    let n = bytes::le32(1 + payload.len() as int);
    let f = frame(tag, payload);
    assert(f[0] == n[0] && f[1] == n[1] && f[2] == n[2] && f[3] == n[3]);
}

/// A frame that is cut anywhere is not taken, and not refused either: more is
/// to come. A length of zero, or over 16384, is refused.
pub proof fn cut_frames_wait(tag: u8, payload: Seq<u8>, k: int, s: Seq<u8>)
    requires
        1 + payload.len() <= 16384,
        0 <= k < frame(tag, payload).len(),
    ensures
        received(frame(tag, payload).subrange(0, k)) == Err::<(u8, Seq<u8>), RecvError>(
            RecvError::Short,
        ),
        s.len() >= 4 && uhid::spells32(s, 0, 0) ==> received(s) == Err::<(u8, Seq<u8>), RecvError>(
            RecvError::BadLength,
        ),
        s.len() >= 4 && s[0] + 256 * s[1] + 65536 * s[2] + 16777216 * s[3] > 16384 ==> received(s)
            == Err::<(u8, Seq<u8>), RecvError>(RecvError::BadLength),
{
    let f = frame(tag, payload);
    let cut = f.subrange(0, k);
    bytes::le32_round_trip(1 + payload.len() as int);
    if k >= 4 {
        let n = bytes::le32(1 + payload.len() as int);
        assert(cut[0] == n[0] && cut[1] == n[1] && cut[2] == n[2] && cut[3] == n[3]);
        assert(bytes::from_le32(cut, 0) == bytes::from_le32(n, 0));
    }
}

/// A create payload, field by field: the bus at 0, vendor, product and version
/// at 2, 6 and 10, the name behind its length at 14, the address behind its
/// own, and the descriptor behind its size in two bytes.
pub proof fn create_payload_fields(m: CreateShape, i: int)
    requires
        utf8::encode_utf8(m.name).len() < 256,
        utf8::encode_utf8(m.uniq).len() < 256,
        m.rdesc.len() < 65536,
        0 <= i,
    ensures
        ({
            let p = create_payload(m);
            let name = utf8::encode_utf8(m.name);
            let uniq = utf8::encode_utf8(m.uniq);
            let a = 15 + name.len() as int;
            let b = a + 1 + uniq.len() as int;
            &&& p.len() == b + 2 + m.rdesc.len()
            &&& uhid::spells16(p, 0, m.bus as int)
            &&& uhid::spells32(p, 2, m.vendor as int)
            &&& uhid::spells32(p, 6, m.product as int)
            &&& uhid::spells32(p, 10, m.version as int)
            &&& p[14] == name.len()
            &&& i < name.len() ==> p[15 + i] == name[i]
            &&& p[a] == uniq.len()
            &&& i < uniq.len() ==> p[a + 1 + i] == uniq[i]
            &&& uhid::spells16(p, b, m.rdesc.len() as int)
            &&& i < m.rdesc.len() ==> p[b + 2 + i] == m.rdesc[i]
        }),
{
    let p = create_payload(m);
    let bus = bytes::le16(m.bus as int);
    let v = bytes::le32(m.vendor as int);
    let d = bytes::le32(m.product as int);
    let r = bytes::le32(m.version as int);
    let name = short_text(m.name);
    let uniq = short_text(m.uniq);
    let size = bytes::le16(m.rdesc.len() as int);
    let head = bus + v + d + r;
    let texts = head + name + uniq;
    bytes::le16_round_trip(m.bus as int);
    bytes::le32_round_trip(m.vendor as int);
    bytes::le32_round_trip(m.product as int);
    bytes::le32_round_trip(m.version as int);
    bytes::le16_round_trip(m.rdesc.len() as int);
    assert(head.len() == 14);
    assert(p == texts + size + m.rdesc);
    assert(forall|n: int| 0 <= n < 14 ==> p[n] == head[n]);
    assert(p[0] == bus[0] && p[1] == bus[1]);
    assert(p[2] == v[0] && p[3] == v[1] && p[4] == v[2] && p[5] == v[3]);
    assert(p[6] == d[0] && p[7] == d[1] && p[8] == d[2] && p[9] == d[3]);
    assert(p[10] == r[0] && p[11] == r[1] && p[12] == r[2] && p[13] == r[3]);
    let a = 14 + name.len() as int;
    let b = a + uniq.len() as int;
    assert(p[14] == name[0]);
    assert(i < name.len() - 1 ==> p[15 + i] == name[1 + i]);
    assert(p[a] == uniq[0]);
    assert(i < uniq.len() - 1 ==> p[a + 1 + i] == uniq[1 + i]);
    assert(p[b] == size[0] && p[b + 1] == size[1]);
}

/// The payloads of feature requests and replies, field by field: the id in
/// four bytes; behind it the report's number, or the error in two bytes; data
/// behind its size in two bytes.
pub proof fn feature_payload_fields(id: u32, rnum: u8, err: u16, data: Seq<u8>, i: int)
    requires
        data.len() < 65536,
        0 <= i,
    ensures
        req_payload(id, rnum).len() == 5,
        uhid::spells32(req_payload(id, rnum), 0, id as int),
        req_payload(id, rnum)[4] == rnum,
        ack_payload(id, err).len() == 6,
        uhid::spells32(ack_payload(id, err), 0, id as int),
        uhid::spells16(ack_payload(id, err), 4, err as int),
        get_reply_payload(id, err, data).len() == 8 + data.len(),
        uhid::spells32(get_reply_payload(id, err, data), 0, id as int),
        uhid::spells16(get_reply_payload(id, err, data), 4, err as int),
        uhid::spells16(get_reply_payload(id, err, data), 6, data.len() as int),
        i < data.len() ==> get_reply_payload(id, err, data)[8 + i] == data[i],
        set_req_payload(id, rnum, data).len() == 7 + data.len(),
        uhid::spells32(set_req_payload(id, rnum, data), 0, id as int),
        set_req_payload(id, rnum, data)[4] == rnum,
        uhid::spells16(set_req_payload(id, rnum, data), 5, data.len() as int),
        i < data.len() ==> set_req_payload(id, rnum, data)[7 + i] == data[i],
{
    bytes::le32_round_trip(id as int);
    bytes::le16_round_trip(err as int);
    bytes::le16_round_trip(data.len() as int);
    let w = bytes::le32(id as int);
    let e = bytes::le16(err as int);
    let n = bytes::le16(data.len() as int);
    let a = req_payload(id, rnum);
    let b = ack_payload(id, err);
    let c = get_reply_payload(id, err, data);
    let d = set_req_payload(id, rnum, data);
    assert(a[0] == w[0] && a[1] == w[1] && a[2] == w[2] && a[3] == w[3]);
    assert(b[0] == w[0] && b[1] == w[1] && b[2] == w[2] && b[3] == w[3]);
    assert(b[4] == e[0] && b[5] == e[1]);
    assert(c[0] == w[0] && c[1] == w[1] && c[2] == w[2] && c[3] == w[3]);
    assert(c[4] == e[0] && c[5] == e[1] && c[6] == n[0] && c[7] == n[1]);
    assert(d[0] == w[0] && d[1] == w[1] && d[2] == w[2] && d[3] == w[3]);
    assert(d[5] == n[0] && d[6] == n[1]);
}

/// A payload that is cut is not read: requests and acks have one size, and
/// replies and writes need all the data that they announce.
pub proof fn cut_payloads_are_refused(p: Seq<u8>)
    ensures
        p.len() != 5 ==> req_of(p) is None,
        p.len() != 6 ==> ack_of(p) is None,
        p.len() < 8 || p.len() < 8 + p[6] + 256 * p[7] ==> get_reply_of(p) is None,
        p.len() < 7 || p.len() < 7 + p[5] + 256 * p[6] ==> set_req_of(p) is None,
        p.len() >= 8 && p.len() >= 8 + p[6] + 256 * p[7] ==> get_reply_of(p) is Some,
        p.len() >= 7 && p.len() >= 7 + p[5] + 256 * p[6] ==> set_req_of(p) is Some,
        p.len() <= 14 ==> created(p) is None,
{
}

/// The two holders have a socket each.
pub proof fn holders_have_their_own_socket(instance: Seq<char>)
    ensures
        instance.len() == 0 ==> sock_name(instance) == "mdrv-ds.sock"@,
        instance.len() > 0 ==> sock_name(instance) == "mdrv-ds-xi.sock"@,
        "mdrv-ds.sock"@ != "mdrv-ds-xi.sock"@,
{
    reveal_strlit("mdrv-ds.sock");
    reveal_strlit("mdrv-ds-xi.sock");
    assert("mdrv-ds.sock"@.len() != "mdrv-ds-xi.sock"@.len());
}

/// The tags are letters, told apart: C, I, N, G, A and D go to the holder; c, O,
/// Q, T and X come from it.
pub proof fn tags_are_letters()
    ensures
        TAG_CREATE == 'C' as u8 && TAG_INPUT == 'I' as u8 && TAG_NEUTRAL == 'N' as u8,
        TAG_GET_REPLY == 'G' as u8 && TAG_SET_ACK == 'A' as u8 && TAG_DESTROY == 'D' as u8,
        TAG_CREATE_ACK == 'c' as u8 && TAG_OUTPUT == 'O' as u8 && TAG_GET_REQ == 'Q' as u8,
        TAG_SET_REQ == 'T' as u8 && TAG_NOTICE == 'X' as u8,
{
}

} // verus!
