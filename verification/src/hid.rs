//! Pad discovery and feature reports: what the kernel's texts and descriptors
//! say.

use std::collections::HashMap;

use vstd::prelude::*;
use vstd::string::*;

use crate::bytes;
use crate::proxy;
use crate::text;

verus! {

#[derive(PartialEq, Eq, Clone, Copy, Debug, Structural)]
pub enum Transport {
    Usb,
    Bluetooth,
}

impl Transport {
    pub fn name(self) -> (r: &'static str)
        ensures
            r@ == (match self {
                Transport::Usb => "usb"@,
                Transport::Bluetooth => "bluetooth"@,
            }),
    {
        match self {
            Transport::Usb => "usb",
            Transport::Bluetooth => "bluetooth",
        }
    }
}

/// USB product id: DualShock 4.
pub const PRODUCT_DS4: u32 = 0x05c4;

/// USB product id: DualSense.
pub const PRODUCT_DUALSENSE: u32 = 0x0ce6;

/// A connected pad.
pub struct PadInfo {
    /// Device node.
    pub path: String,
    /// Hardware address.
    pub uniq: String,
    pub transport: Transport,
    pub product: u32,
    pub fw_version: u32,
    pub hw_version: u32,
    /// Report descriptor.
    pub rdesc: Vec<u8>,
}

// ---------------------------------------------------------------- ioctls

/// The request number of a hidraw ioctl: direction, length, type `H`, number.
pub fn hid_ioc(dir: u32, nr: u8, len: usize) -> (r: u64)
    ensures
        r == ((dir << 30) | ((len as u32) << 16) | (0x48u32 << 8) | nr as u32) as u64,
        dir < 4 && len < 16384 ==> r == dir * 0x4000_0000 + len * 0x1_0000 + 0x4800 + nr,
{
    let n: u32 = len as u32;
    proof {
        if dir < 4 && len < 16384 {
            assert(((dir << 30) | (n << 16) | (0x48u32 << 8) | nr as u32) == dir * 0x4000_0000 + n
                * 0x1_0000 + 0x4800 + nr) by (bit_vector)
                requires
                    dir < 4,
                    n < 16384,
            ;
        }
    }
    ((dir << 30) | (n << 16) | (0x48u32 << 8) | nr as u32) as u64
}

// ---------------------------------------------------------------- uevent texts

/// What the first line of `l` that begins with `key` says behind it.
pub open spec fn first_value(l: Seq<Seq<char>>, key: Seq<char>) -> Option<Seq<char>>
    decreases l.len(),
{
    if l.len() == 0 {
        None
    } else {
        match first_value(l.drop_last(), key) {
            Some(v) => Some(v),
            None => text::without_prefix(l.last(), key),
        }
    }
}

/// The product id in one `HID_ID=bus:vendor:product` line.
pub open spec fn product_in_line(line: Seq<char>) -> Option<int> {
    match text::without_prefix(line, "HID_ID="@) {
        None => None,
        Some(id) => {
            let parts = text::pieces(id, ':');
            if parts.len() < 3 {
                None
            } else {
                text::bounded_number(text::trimmed(parts[2]), 16, 0xFFFF_FFFF)
            }
        },
    }
}

/// The product id of the first line that holds one.
pub open spec fn first_product(l: Seq<Seq<char>>) -> Option<int>
    decreases l.len(),
{
    if l.len() == 0 {
        None
    } else {
        match first_product(l.drop_last()) {
            Some(v) => Some(v),
            None => product_in_line(l.last()),
        }
    }
}

/// The product id of a hidraw node's uevent text; a DualSense where it names
/// none.
pub fn read_product_sysfs(uevent: &str) -> (r: u32)
    ensures
        r == (match first_product(text::lines_of(uevent@)) {
            Some(v) => v,
            None => PRODUCT_DUALSENSE as int,
        }),
{
    let lines: Vec<Vec<char>> = text::lines(text::chars_of(uevent).as_slice());
    let ghost all = text::lines_of(uevent@);
    let mut i: usize = 0;
    while i < lines.len()
        invariant
            i <= lines@.len(),
            text::views(lines@) == all,
            first_product(all.subrange(0, i as int)) is None,
            all == text::lines_of(uevent@),
        decreases lines@.len() - i,
    {
        assert(all.subrange(0, i + 1).drop_last() =~= all.subrange(0, i as int));
        assert(all[i as int] == lines@[i as int]@);
        let found: Option<u64> = match text::strip_prefix(lines[i].as_slice(), "HID_ID=") {
            None => None,
            Some(id) => {
                let parts: Vec<Vec<char>> = text::split(id.as_slice(), ':');
                assert(text::views(parts@).len() == parts@.len());
                if parts.len() < 3 {
                    None
                } else {
                    assert(text::views(parts@)[2] == parts@[2]@);
                    let pid: Vec<char> = text::trim(parts[2].as_slice());
                    text::parse_number(pid.as_slice(), 16, 0xFFFF_FFFF)
                }
            },
        };
        match found {
            Some(v) => {
                proof {
                    first_product_stays(all, i + 1);
                }
                return v as u32;
            },
            None => {},
        }
        i = i + 1;
    }
    assert(all.subrange(0, all.len() as int) =~= all);
    PRODUCT_DUALSENSE
}

proof fn first_product_stays(l: Seq<Seq<char>>, n: int)
    requires
        0 <= n <= l.len(),
        first_product(l.subrange(0, n)) is Some,
    ensures
        first_product(l) == first_product(l.subrange(0, n)),
    decreases l.len() - n,
{
    if n == l.len() {
        assert(l.subrange(0, n) =~= l);
    } else {
        assert(l.subrange(0, n + 1).drop_last() =~= l.subrange(0, n));
        first_product_stays(l, n + 1);
    }
}

proof fn first_value_stays(l: Seq<Seq<char>>, key: Seq<char>, n: int)
    requires
        0 <= n <= l.len(),
        first_value(l.subrange(0, n), key) is Some,
    ensures
        first_value(l, key) == first_value(l.subrange(0, n), key),
    decreases l.len() - n,
{
    if n == l.len() {
        assert(l.subrange(0, n) =~= l);
    } else {
        assert(l.subrange(0, n + 1).drop_last() =~= l.subrange(0, n));
        first_value_stays(l, key, n + 1);
    }
}

/// A sysfs attribute as it is used: the file's text, trimmed.
pub fn sysfs_attr(content: &str) -> (r: String)
    ensures
        r@ == text::trimmed(content@),
{
    text::string_of(text::trim(text::chars_of(content).as_slice()).as_slice())
}

/// The hardware address in a uevent text.
pub open spec fn uniq_in(uevent: Seq<char>) -> Option<Seq<char>> {
    match first_value(text::lines_of(text::trimmed(uevent)), "HID_UNIQ="@) {
        Some(v) => Some(text::trimmed(v)),
        None => None,
    }
}

/// The hardware address in a uevent text, in its first `HID_UNIQ=` line.
pub fn uevent_uniq(uevent: &str) -> (r: Option<String>)
    ensures
        match r {
            Some(s) => uniq_in(uevent@) == Some(s@),
            None => uniq_in(uevent@) is None,
        },
{
    let cleaned: Vec<char> = text::trim(text::chars_of(uevent).as_slice());
    let lines: Vec<Vec<char>> = text::lines(cleaned.as_slice());
    let ghost all = text::lines_of(text::trimmed(uevent@));
    let mut i: usize = 0;
    while i < lines.len()
        invariant
            i <= lines@.len(),
            text::views(lines@) == all,
            first_value(all.subrange(0, i as int), "HID_UNIQ="@) is None,
            all == text::lines_of(text::trimmed(uevent@)),
        decreases lines@.len() - i,
    {
        assert(all.subrange(0, i + 1).drop_last() =~= all.subrange(0, i as int));
        assert(all[i as int] == lines@[i as int]@);
        match text::strip_prefix(lines[i].as_slice(), "HID_UNIQ=") {
            Some(v) => {
                proof {
                    first_value_stays(all, "HID_UNIQ="@, i + 1);
                }
                return Some(text::string_of(text::trim(v.as_slice()).as_slice()));
            },
            None => {},
        }
        i = i + 1;
    }
    assert(all.subrange(0, all.len() as int) =~= all);
    None
}

/// `s` without any number of `0x` at its start.
pub open spec fn without_0x(s: Seq<char>) -> Seq<char>
    decreases s.len(),
{
    if s.len() >= 2 && s[0] == '0' && s[1] == 'x' {
        without_0x(s.subrange(2, s.len() as int))
    } else {
        s
    }
}

/// The number in a sysfs attribute of hex digits.
pub fn read_hex_sysfs(content: &str) -> (r: Option<u32>)
    ensures
        match r {
            Some(v) => text::bounded_number(
                without_0x(text::trimmed(content@)),
                16,
                0xFFFF_FFFF,
            ) == Some(v as int),
            None => text::bounded_number(
                without_0x(text::trimmed(content@)),
                16,
                0xFFFF_FFFF,
            ) is None,
        },
{
    let s: Vec<char> = text::trim(text::chars_of(content).as_slice());
    let n: usize = s.len();
    let mut i: usize = 0;
    assert(s@.subrange(0, n as int) =~= s@);
    while n - i >= 2 && s[i] == '0' && s[i + 1] == 'x'
        invariant
            i <= n,
            n == s@.len(),
            without_0x(s@.subrange(i as int, n as int)) == without_0x(s@),
        decreases n - i,
    {
        assert(s@.subrange(i as int, n as int).subrange(2, n - i) =~= s@.subrange(
            i + 2,
            n as int,
        ));
        i = i + 2;
    }
    let digits: Vec<char> = text::slice_of(s.as_slice(), i, n);
    match text::parse_number(digits.as_slice(), 16, 0xFFFF_FFFF) {
        Some(v) => Some(v as u32),
        None => None,
    }
}

// ---------------------------------------------------------------- discovery

/// Whether the first octet of a hardware address has the
/// locally-administered bit: the mark of a virtual pad.
pub open spec fn virtual_mac(uniq: Seq<char>) -> bool {
    match text::bounded_number(text::pieces(uniq, ':')[0], 16, 255) {
        Some(o) => (o as u8) & 0x02 != 0,
        None => false,
    }
}

/// Whether an address is that of a virtual pad.
pub fn is_virtual_mac(uniq: &str) -> (r: bool)
    ensures
        r == virtual_mac(uniq@),
{
    let parts: Vec<Vec<char>> = text::split(text::chars_of(uniq).as_slice(), ':');
    assert(text::views(parts@)[0] == parts@[0]@);
    match text::parse_number(parts[0].as_slice(), 16, 255) {
        Some(o) => (o as u8) & 0x02 != 0,
        None => false,
    }
}

/// What a uevent text says of a device; later lines win.
pub ghost struct UeventShape {
    pub transport: Option<Transport>,
    pub uniq: Seq<char>,
    pub name: Seq<char>,
}

/// What the lines of a uevent text say of a device.
pub open spec fn uevent_shape(l: Seq<Seq<char>>) -> UeventShape
    decreases l.len(),
{
    if l.len() == 0 {
        UeventShape { transport: None, uniq: Seq::empty(), name: Seq::empty() }
    } else {
        let s = uevent_shape(l.drop_last());
        let line = l.last();
        UeventShape {
            transport: if line == "HID_ID=0003:0000054C:00000CE6"@ {
                Some(Transport::Usb)
            } else if line == "HID_ID=0005:0000054C:00000CE6"@ {
                Some(Transport::Bluetooth)
            } else {
                s.transport
            },
            uniq: match text::without_prefix(line, "HID_UNIQ="@) {
                Some(v) => text::trimmed(v),
                None => s.uniq,
            },
            name: match text::without_prefix(line, "HID_NAME="@) {
                Some(v) => text::trimmed(v),
                None => s.name,
            },
        }
    }
}

/// The pad behind a hidraw entry: node, address and transport. None where the
/// entry is no hidraw, no DualSense, or a virtual pad.
pub open spec fn pad_of(name: Seq<char>, uevent: Seq<char>) -> Option<
    (Seq<char>, Seq<char>, Transport),
> {
    let s = uevent_shape(text::lines_of(uevent));
    if !text::has_prefix(name, "hidraw"@) || s.transport is None || text::occurs(
        s.name,
        "mdrv-ds Virtual"@,
    ) || virtual_mac(s.uniq) {
        None
    } else {
        Some(("/dev/"@ + name, s.uniq, s.transport->0))
    }
}

/// A pad entry with its texts by their characters.
pub open spec fn pad_view(p: (String, String, Transport)) -> (Seq<char>, Seq<char>, Transport) {
    (p.0@, p.1@, p.2)
}

/// Pad entries with their texts by their characters.
pub open spec fn pads_view(l: Seq<(String, String, Transport)>) -> Seq<
    (Seq<char>, Seq<char>, Transport),
> {
    l.map_values(|p: (String, String, Transport)| pad_view(p))
}

/// The pads on one transport, in the order of the entries.
pub open spec fn pads_on(entries: Seq<(String, String)>, t: Transport) -> Seq<
    (Seq<char>, Seq<char>, Transport),
>
    decreases entries.len(),
{
    if entries.len() == 0 {
        Seq::empty()
    } else {
        let before = pads_on(entries.drop_last(), t);
        match pad_of(entries.last().0@, entries.last().1@) {
            Some(p) => if p.2 == t {
                before.push(p)
            } else {
                before
            },
            None => before,
        }
    }
}

/// The pad behind one hidraw entry.
pub fn pad_of_entry(name: &str, uevent: &str) -> (r: Option<(String, String, Transport)>)
    ensures
        match r {
            Some(p) => pad_of(name@, uevent@) == Some(pad_view(p)),
            None => pad_of(name@, uevent@) is None,
        },
{
    let node: Vec<char> = text::chars_of(name);
    let key: Vec<char> = text::chars_of("hidraw");
    if !text::starts_with(node.as_slice(), key.as_slice()) {
        return None;
    }
    let lines: Vec<Vec<char>> = text::lines(text::chars_of(uevent).as_slice());
    let ghost all = text::lines_of(uevent@);
    let mut transport: Option<Transport> = None;
    let mut uniq: Vec<char> = Vec::new();
    let mut dev_name: Vec<char> = Vec::new();
    let mut i: usize = 0;
    assert(all.subrange(0, 0) =~= Seq::empty());
    while i < lines.len()
        invariant
            i <= lines@.len(),
            text::views(lines@) == all,
            uevent_shape(all.subrange(0, i as int)) == (UeventShape {
                transport,
                uniq: uniq@,
                name: dev_name@,
            }),
        decreases lines@.len() - i,
    {
        assert(all.subrange(0, i + 1).drop_last() =~= all.subrange(0, i as int));
        assert(all[i as int] == lines@[i as int]@);
        let line: &[char] = lines[i].as_slice();
        if text::spells(line, "HID_ID=0003:0000054C:00000CE6") {
            transport = Some(Transport::Usb);
        } else if text::spells(line, "HID_ID=0005:0000054C:00000CE6") {
            transport = Some(Transport::Bluetooth);
        }
        match text::strip_prefix(line, "HID_UNIQ=") {
            Some(v) => {
                uniq = text::trim(v.as_slice());
            },
            None => {},
        }
        match text::strip_prefix(line, "HID_NAME=") {
            Some(v) => {
                dev_name = text::trim(v.as_slice());
            },
            None => {},
        }
        i = i + 1;
    }
    assert(all.subrange(0, all.len() as int) =~= all);
    let mark: Vec<char> = text::chars_of("mdrv-ds Virtual");
    let address: String = text::string_of(uniq.as_slice());
    match transport {
        None => None,
        Some(t) => {
            if text::contains(dev_name.as_slice(), mark.as_slice()) || is_virtual_mac(
                address.as_str(),
            ) {
                None
            } else {
                let mut path: Vec<char> = text::chars_of("/dev/");
                text::append_chars(&mut path, node.as_slice());
                Some((text::string_of(path.as_slice()), address, t))
            }
        },
    }
}

/// The DualSense pads among the hidraw entries (name and uevent text of each),
/// cabled ones first; virtual pads are skipped.
pub fn find_pads(entries: &Vec<(String, String)>) -> (r: Vec<(String, String, Transport)>)
    ensures
        pads_view(r@) == pads_on(entries@, Transport::Usb) + pads_on(
            entries@,
            Transport::Bluetooth,
        ),
{
    let mut usb: Vec<(String, String, Transport)> = Vec::new();
    let mut bt: Vec<(String, String, Transport)> = Vec::new();
    let mut i: usize = 0;
    assert(entries@.subrange(0, 0) =~= Seq::empty());
    assert(pads_view(usb@) =~= Seq::empty());
    while i < entries.len()
        invariant
            i <= entries@.len(),
            pads_view(usb@) == pads_on(entries@.subrange(0, i as int), Transport::Usb),
            pads_view(bt@) == pads_on(entries@.subrange(0, i as int), Transport::Bluetooth),
        decreases entries@.len() - i,
    {
        assert(entries@.subrange(0, i + 1).drop_last() =~= entries@.subrange(0, i as int));
        let e: &(String, String) = &entries[i];
        match pad_of_entry(e.0.as_str(), e.1.as_str()) {
            Some(p) => {
                let ghost shown = pad_view(p);
                let ghost u0 = pads_view(usb@);
                let ghost b0 = pads_view(bt@);
                match p.2 {
                    Transport::Usb => {
                        usb.push(p);
                        assert(pads_view(usb@) =~= u0.push(shown));
                    },
                    Transport::Bluetooth => {
                        bt.push(p);
                        assert(pads_view(bt@) =~= b0.push(shown));
                    },
                }
            },
            None => {},
        }
        i = i + 1;
    }
    assert(entries@.subrange(0, entries@.len() as int) =~= entries@);
    let ghost u = pads_view(usb@);
    let ghost b = pads_view(bt@);
    usb.append(&mut bt);
    assert(pads_view(usb@) =~= u + b);
    usb
}

/// No pad that is found is a virtual one.
pub proof fn found_pads_are_real(entries: Seq<(String, String)>, t: Transport, i: int)
    requires
        0 <= i < pads_on(entries, t).len(),
    ensures
        !virtual_mac(pads_on(entries, t)[i].1),
        pads_on(entries, t)[i].2 == t,
    decreases entries.len(),
{
    if entries.len() > 0 {
        if i < pads_on(entries.drop_last(), t).len() {
            found_pads_are_real(entries.drop_last(), t, i);
        }
    }
}

/// Address and transport of a pad that was named explicitly.
pub open spec fn explicit_pad(
    uniq_attr: Option<String>,
    uevent: Option<String>,
) -> (Seq<char>, Transport) {
    (
        match uniq_attr {
            Some(u) if text::trimmed(u@).len() > 0 => text::trimmed(u@),
            _ => match uevent {
                Some(e) => match uniq_in(e@) {
                    Some(v) => v,
                    None => Seq::empty(),
                },
                None => Seq::empty(),
            },
        },
        match uevent {
            Some(e) if text::occurs(text::trimmed(e@), "HID_ID=0005:"@) => Transport::Bluetooth,
            _ => Transport::Usb,
        },
    )
}

/// Address and transport of a pad that was named explicitly, from its `uniq`
/// attribute and its uevent text. An empty or missing attribute falls back to
/// the uevent.
pub fn identify(uniq_attr: &Option<String>, uevent: &Option<String>) -> (r: (String, Transport))
    ensures
        (r.0@, r.1) == explicit_pad(*uniq_attr, *uevent),
{
    let attr: Option<Vec<char>> = match uniq_attr {
        Some(u) => {
            let t: Vec<char> = text::trim(text::chars_of(u.as_str()).as_slice());
            if t.len() > 0 {
                Some(t)
            } else {
                None
            }
        },
        None => None,
    };
    let uniq: String = match attr {
        Some(t) => text::string_of(t.as_slice()),
        None => match uevent {
            Some(e) => match uevent_uniq(e.as_str()) {
                Some(v) => v,
                None => {
                    let none: String = String::new();
                    assert(none@ =~= Seq::empty());
                    none
                },
            },
            None => {
                let none: String = String::new();
                assert(none@ =~= Seq::empty());
                none
            },
        },
    };
    let transport: Transport = match uevent {
        Some(e) => {
            let t: Vec<char> = text::trim(text::chars_of(e.as_str()).as_slice());
            let key: Vec<char> = text::chars_of("HID_ID=0005:");
            if text::contains(t.as_slice(), key.as_slice()) {
                Transport::Bluetooth
            } else {
                Transport::Usb
            }
        },
        None => Transport::Usb,
    };
    (uniq, transport)
}

// ---------------------------------------------------------------- feature lengths

/// Size of an item's data, from the item's first byte.
pub open spec fn item_size(b: u8) -> int {
    if b & 3 == 3 {
        4
    } else {
        (b & 3) as int
    }
}

/// The value of an item's data.
pub open spec fn item_value(rdesc: Seq<u8>, at: int, size: int) -> int {
    if size == 1 {
        rdesc[at] as int
    } else if size == 2 {
        bytes::from_le16(rdesc, at)
    } else if size == 4 {
        bytes::from_le32(rdesc, at)
    } else {
        0
    }
}

/// The global state of a descriptor parser, and the lengths found so far.
pub ghost struct RdescScan {
    pub id: u8,
    pub size: int,
    pub count: int,
    pub lens: Map<u8, int>,
}

/// The scan after one item. Type and tag are the bits 2-3 and 4-7 of the
/// item's first byte: global Report ID, Report Size and Report Count set the
/// state; a main Feature item records size times count bits, in whole bytes,
/// and one byte for the report id.
pub open spec fn scan_item(s: RdescScan, b: u8, value: int) -> RdescScan {
    let typ = (b >> 2) & 3;
    let tag = b & 0xF0;
    if typ == 1 && tag == 0x80 {
        RdescScan { id: (value % 256) as u8, ..s }
    } else if typ == 1 && tag == 0x70 {
        RdescScan { size: value, ..s }
    } else if typ == 1 && tag == 0x90 {
        RdescScan { count: value, ..s }
    } else if typ == 0 && tag == 0xB0 {
        RdescScan { lens: s.lens.insert(s.id, s.size * s.count / 8 + 1), ..s }
    } else {
        s
    }
}

/// The scan of the items from `i` on; a cut-off item ends it.
pub open spec fn scan_items(rdesc: Seq<u8>, i: int, s: RdescScan) -> RdescScan
    decreases rdesc.len() - i,
{
    if i < 0 || i >= rdesc.len() {
        s
    } else {
        let size = item_size(rdesc[i]);
        if size < 0 || i + 1 + size > rdesc.len() {
            s
        } else {
            scan_items(
                rdesc,
                i + 1 + size,
                scan_item(s, rdesc[i], item_value(rdesc, i + 1, size)),
            )
        }
    }
}

/// Feature report id to the length of the report with its id byte.
pub open spec fn lengths_of(rdesc: Seq<u8>) -> Map<u8, int> {
    scan_items(rdesc, 0, RdescScan { id: 0, size: 0, count: 0, lens: Map::empty() }).lens
}

/// A table's lengths as integers.
pub open spec fn as_lengths(m: Map<u8, u64>) -> Map<u8, int> {
    m.map_values(|v: u64| v as int)
}

/// Maps each feature report id of a descriptor to the length of the report,
/// id byte included.
pub fn feature_lengths(rdesc: &[u8]) -> (r: HashMap<u8, u64>)
    ensures
        as_lengths(r@) == lengths_of(rdesc@),
{
    broadcast use vstd::std_specs::hash::group_hash_axioms;

    let mut out: HashMap<u8, u64> = HashMap::new();
    let mut cur_id: u8 = 0;
    let mut cur_size: u64 = 0;
    let mut cur_count: u64 = 0;
    let n: usize = rdesc.len();
    let mut i: usize = 0;
    let ghost start = RdescScan { id: 0, size: 0, count: 0, lens: Map::empty() };
    assert(as_lengths(out@) =~= Map::<u8, int>::empty());
    while i < n
        invariant_except_break
            scan_items(rdesc@, 0, start) == scan_items(
                rdesc@,
                i as int,
                RdescScan {
                    id: cur_id,
                    size: cur_size as int,
                    count: cur_count as int,
                    lens: as_lengths(out@),
                },
            ),
        invariant
            i <= n,
            n == rdesc@.len(),
            cur_size <= 0xFFFF_FFFF,
            cur_count <= 0xFFFF_FFFF,
        ensures
            as_lengths(out@) == scan_items(rdesc@, 0, start).lens,
        decreases n - i,
    {
        broadcast use vstd::std_specs::hash::group_hash_axioms;

        let ghost before = RdescScan {
            id: cur_id,
            size: cur_size as int,
            count: cur_count as int,
            lens: as_lengths(out@),
        };
        let b: u8 = rdesc[i];
        let tag: u8 = b & 0xF0;
        let typ: u8 = (b >> 2) & 3;
        let low: u8 = b & 3;
        assert(b & 3 <= 3) by (bit_vector);
        let size: usize = if low == 3 {
            4
        } else {
            low as usize
        };
        assert(size == item_size(b));
        if size > n - i - 1 {
            break ;
        }
        let at: usize = i + 1;
        let val: u64 = if size == 1 {
            rdesc[at] as u64
        } else if size == 2 {
            rdesc[at] as u64 + 256 * (rdesc[at + 1] as u64)
        } else if size == 4 {
            rdesc[at] as u64 + 256 * (rdesc[at + 1] as u64) + 65536 * (rdesc[at + 2] as u64)
                + 16777216 * (rdesc[at + 3] as u64)
        } else {
            0
        };
        assert(val == item_value(rdesc@, at as int, size as int));
        if typ == 1 && tag == 0x80 {
            cur_id = (val % 256) as u8;
        } else if typ == 1 && tag == 0x70 {
            cur_size = val;
        } else if typ == 1 && tag == 0x90 {
            cur_count = val;
        } else if typ == 0 && tag == 0xB0 {
            assert(cur_size * cur_count <= 0xFFFF_FFFF * 0xFFFF_FFFF) by (nonlinear_arith)
                requires
                    cur_size <= 0xFFFF_FFFF,
                    cur_count <= 0xFFFF_FFFF,
            ;
            let len: u64 = cur_size * cur_count / 8 + 1;
            let ghost m0 = out@;
            out.insert(cur_id, len);
            assert(as_lengths(out@) =~= as_lengths(m0).insert(cur_id, len as int));
        }
        let ghost after = RdescScan {
            id: cur_id,
            size: cur_size as int,
            count: cur_count as int,
            lens: as_lengths(out@),
        };
        assert(after == scan_item(before, b, val as int));
        i = at + size;
    }
    out
}

/// The report ids of a length table, ascending.
pub fn feature_ids(lens: &HashMap<u8, u64>) -> (r: Vec<u8>)
    ensures
        forall|i: int, j: int| 0 <= i < j < r@.len() ==> r@[i] < r@[j],
        forall|id: u8| r@.contains(id) == lens@.contains_key(id),
{
    broadcast use vstd::std_specs::hash::group_hash_axioms;

    let mut out: Vec<u8> = Vec::new();
    let mut id: u16 = 0;
    while id < 256
        invariant
            id <= 256,
            forall|i: int, j: int| 0 <= i < j < out@.len() ==> out@[i] < out@[j],
            forall|i: int| 0 <= i < out@.len() ==> out@[i] < id && lens@.contains_key(out@[i]),
            forall|k: u8| k < id && lens@.contains_key(k) ==> out@.contains(k),
        decreases 256 - id,
    {
        broadcast use vstd::std_specs::hash::group_hash_axioms;

        let k: u8 = id as u8;
        if lens.contains_key(&k) {
            let ghost before = out@;
            out.push(k);
            proof {
                assert forall|q: u8| q < id + 1 && lens@.contains_key(q) implies out@.contains(
                    q,
                ) by {
                    if q < id {
                        assert(before.contains(q));
                        let w = choose|w: int| 0 <= w < before.len() && before[w] == q;
                        assert(out@[w] == q);
                    } else {
                        assert(out@[out@.len() - 1] == q);
                    }
                }
            }
        }
        id = id + 1;
    }
    out
}

// ---------------------------------------------------------------- texts out

/// Two lower-case hex digits for each byte.
pub open spec fn hex_of(b: Seq<u8>) -> Seq<char>
    decreases b.len(),
{
    if b.len() == 0 {
        Seq::empty()
    } else {
        hex_of(b.drop_last()) + text::hex_byte(b.last())
    }
}

/// Two lower-case hex digits for each byte.
pub fn hex(b: &[u8]) -> (r: String)
    ensures
        r@ == hex_of(b@),
{
    let mut out: Vec<char> = Vec::new();
    let mut i: usize = 0;
    assert(b@.subrange(0, 0) =~= Seq::empty());
    assert(out@ =~= hex_of(b@.subrange(0, 0)));
    while i < b.len()
        invariant
            i <= b@.len(),
            out@ == hex_of(b@.subrange(0, i as int)),
        decreases b@.len() - i,
    {
        assert(b@.subrange(0, i + 1).drop_last() =~= b@.subrange(0, i as int));
        text::append_hex(&mut out, b[i]);
        i = i + 1;
    }
    assert(b@.subrange(0, b@.len() as int) =~= b@);
    text::string_of(out.as_slice())
}

/// A report id with its length.
pub open spec fn feature_entry(id: u8, len: u64) -> Seq<char> {
    "0x"@ + text::hex_byte(id) + "="@ + text::decimal(len as nat)
}

/// Report ids with their lengths, spaces between them.
pub open spec fn feature_entries(ids: Seq<u8>, lens: Map<u8, u64>) -> Seq<char>
    decreases ids.len(),
{
    if ids.len() == 0 {
        Seq::empty()
    } else if ids.len() == 1 {
        feature_entry(ids[0], lens[ids[0]])
    } else {
        feature_entries(ids.drop_last(), lens) + " "@ + feature_entry(ids.last(), lens[ids.last()])
    }
}

/// Report ids with their lengths, spaces between them.
pub fn feature_summary(ids: &Vec<u8>, lens: &HashMap<u8, u64>) -> (r: String)
    requires
        forall|i: int| 0 <= i < ids@.len() ==> #[trigger] lens@.contains_key(ids@[i]),
    ensures
        r@ == feature_entries(ids@, lens@),
{
    broadcast use vstd::std_specs::hash::group_hash_axioms;

    let mut out: String = "".to_owned();
    let mut i: usize = 0;
    proof {
        reveal_strlit("");
        assert(ids@.subrange(0, 0) =~= Seq::empty());
        assert(out@ =~= feature_entries(ids@.subrange(0, 0), lens@));
    }
    while i < ids.len()
        invariant
            i <= ids@.len(),
            forall|k: int| 0 <= k < ids@.len() ==> #[trigger] lens@.contains_key(ids@[k]),
            out@ == feature_entries(ids@.subrange(0, i as int), lens@),
        decreases ids@.len() - i,
    {
        broadcast use vstd::std_specs::hash::group_hash_axioms;

        let ghost upto = ids@.subrange(0, i + 1);
        assert(upto.drop_last() =~= ids@.subrange(0, i as int));
        assert(lens@.contains_key(ids@[i as int]));
        let len: u64 = match lens.get(&ids[i]) {
            Some(n) => *n,
            None => 0,
        };
        let ghost before = out@;
        if i > 0 {
            out.append(" ");
        }
        let mut digits: Vec<char> = Vec::new();
        text::append_hex(&mut digits, ids[i]);
        assert(digits@ =~= text::hex_byte(ids@[i as int]));
        let id: String = text::string_of(digits.as_slice());
        let n: String = text::string_of(text::decimal_of(len).as_slice());
        out.append("0x");
        out.append(id.as_str());
        out.append("=");
        out.append(n.as_str());
        proof {
            if i == 0 {
                assert(before =~= Seq::empty());
                assert(out@ =~= feature_entry(ids@[0], lens@[ids@[0]]));
            } else {
                assert(out@ =~= before + " "@ + feature_entry(upto.last(), lens@[upto.last()]));
            }
        }
        i = i + 1;
    }
    assert(ids@.subrange(0, ids@.len() as int) =~= ids@);
    out
}

/// Whether a file name is that of an evdev or joystick node.
pub open spec fn evdev_name(name: Seq<char>) -> bool {
    text::has_prefix(name, "event"@) || text::has_prefix(name, "js"@)
}

/// The nodes of those names that are evdev or joystick nodes.
pub open spec fn evdev_nodes(names: Seq<String>) -> Set<Seq<char>> {
    Set::new(
        |t: Seq<char>|
            exists|i: int|
                0 <= i < names.len() && evdev_name(#[trigger] names[i]@) && t == "/dev/input/"@
                    + names[i]@,
    )
}

/// The evdev and joystick nodes among the file names below a pad's input
/// devices, ascending and each once.
pub fn pad_evdev_nodes(names: &Vec<String>) -> (r: Vec<Vec<char>>)
    ensures
        text::ascending(text::views(r@)),
        text::views(r@).to_set() == evdev_nodes(names@),
{
    let event: Vec<char> = text::chars_of("event");
    let js: Vec<char> = text::chars_of("js");
    let mut out: Vec<Vec<char>> = Vec::new();
    let mut i: usize = 0;
    assert(text::views(out@).to_set() =~= evdev_nodes(names@.subrange(0, 0)));
    while i < names.len()
        invariant
            i <= names@.len(),
            event@ == "event"@,
            js@ == "js"@,
            text::ascending(text::views(out@)),
            text::views(out@).to_set() == evdev_nodes(names@.subrange(0, i as int)),
        decreases names@.len() - i,
    {
        let name: Vec<char> = text::chars_of(names[i].as_str());
        let ghost now = names@.subrange(0, i as int);
        let ghost next = names@.subrange(0, i + 1);
        let ghost path = "/dev/input/"@ + names@[i as int]@;
        assert(next.drop_last() =~= now);
        if text::starts_with(name.as_slice(), event.as_slice()) || text::starts_with(
            name.as_slice(),
            js.as_slice(),
        ) {
            let mut node: Vec<char> = text::chars_of("/dev/input/");
            text::append_chars(&mut node, name.as_slice());
            text::insert_ascending(&mut out, node);
            proof {
                assert forall|t: Seq<char>| evdev_nodes(next).contains(t) == evdev_nodes(
                    now,
                ).insert(path).contains(t) by {
                    evdev_nodes_step(now, next, t);
                }
                assert(evdev_nodes(next) =~= evdev_nodes(now).insert(path));
            }
        } else {
            proof {
                assert forall|t: Seq<char>| evdev_nodes(next).contains(t) == evdev_nodes(
                    now,
                ).contains(t) by {
                    evdev_nodes_step(now, next, t);
                }
                assert(evdev_nodes(next) =~= evdev_nodes(now));
            }
        }
        i = i + 1;
    }
    assert(names@.subrange(0, names@.len() as int) =~= names@);
    out
}

proof fn evdev_nodes_step(now: Seq<String>, next: Seq<String>, t: Seq<char>)
    requires
        next.len() == now.len() + 1,
        next.drop_last() == now,
    ensures
        evdev_nodes(next).contains(t) == (evdev_nodes(now).contains(t) || (evdev_name(
            next.last()@,
        ) && t == "/dev/input/"@ + next.last()@)),
{
    if evdev_nodes(next).contains(t) {
        let k = choose|k: int|
            0 <= k < next.len() && evdev_name(#[trigger] next[k]@) && t == "/dev/input/"@
                + next[k]@;
        if k < now.len() {
            assert(now[k] == next[k]);
        }
    }
    if evdev_nodes(now).contains(t) {
        let k = choose|k: int|
            0 <= k < now.len() && evdev_name(#[trigger] now[k]@) && t == "/dev/input/"@ + now[k]@;
        assert(next[k] == now[k]);
    }
    if evdev_name(next.last()@) && t == "/dev/input/"@ + next.last()@ {
        assert(next[next.len() - 1] == next.last());
    }
}

/// The first line that speaks of a key decides what it says, whatever stands
/// behind it; where no line does, nothing is said.
pub proof fn first_line_decides(l: Seq<Seq<char>>, key: Seq<char>, k: int)
    requires
        0 <= k <= l.len(),
        forall|j: int| 0 <= j < k ==> !text::has_prefix(#[trigger] l[j], key),
        k < l.len() ==> text::has_prefix(l[k], key),
    ensures
        k < l.len() ==> first_value(l, key) == Some(
            l[k].subrange(key.len() as int, l[k].len() as int),
        ),
        k == l.len() ==> first_value(l, key) is None,
    decreases l.len(),
{
    if l.len() > 0 {
        if k == l.len() {
            first_line_decides(l.drop_last(), key, k - 1);
        } else {
            first_line_decides(l.drop_last(), key, k);
        }
    }
}

/// The product is the third part of the first line that names one:
/// `HID_ID=bus:vendor:product`, in hex.
pub proof fn product_is_the_third_part(
    bus: Seq<char>,
    vendor: Seq<char>,
    product: Seq<char>,
    l: Seq<Seq<char>>,
    k: int,
)
    requires
        !bus.contains(':'),
        !vendor.contains(':'),
        !product.contains(':'),
        0 <= k < l.len(),
        forall|j: int| 0 <= j < k ==> product_in_line(#[trigger] l[j]) is None,
        product_in_line(l[k]) is Some,
    ensures
        product_in_line("HID_ID="@ + (bus.push(':') + vendor).push(':') + product)
            == text::bounded_number(text::trimmed(product), 16, 0xFFFF_FFFF),
        first_product(l) == product_in_line(l[k]),
    decreases l.len(),
{
    let parts = seq![bus, vendor, product];
    let line = "HID_ID="@ + (bus.push(':') + vendor).push(':') + product;
    reveal_with_fuel(text::glued, 4);
    let two = parts.drop_last();
    assert(two.drop_last() =~= seq![bus]);
    assert(text::glued(two, ':') =~= bus.push(':') + vendor);
    assert(text::glued(parts, ':') =~= (bus.push(':') + vendor).push(':') + product);
    text::split_undoes_glue(parts, ':');
    let n = "HID_ID="@.len() as int;
    assert(line =~= "HID_ID="@ + text::glued(parts, ':'));
    assert(line.subrange(0, n) =~= "HID_ID="@);
    assert(line.subrange(n, line.len() as int) =~= text::glued(parts, ':'));
    if k == l.len() - 1 {
        no_earlier_product(l.drop_last());
    } else {
        product_is_the_third_part(bus, vendor, product, l.drop_last(), k);
    }
}

proof fn no_earlier_product(l: Seq<Seq<char>>)
    requires
        forall|j: int| 0 <= j < l.len() ==> product_in_line(#[trigger] l[j]) is None,
    ensures
        first_product(l) is None,
    decreases l.len(),
{
    if l.len() > 0 {
        no_earlier_product(l.drop_last());
    }
}

/// A line of a uevent text changes only what it speaks of: the id line of a
/// DualSense its transport, bus 3 the cable and bus 5 Bluetooth; the address
/// line the address; the name line the name.
pub proof fn uevent_lines_change_their_field(l: Seq<Seq<char>>, line: Seq<char>)
    ensures
        ({
            let a = uevent_shape(l);
            let b = uevent_shape(l.push(line));
            &&& line == "HID_ID=0003:0000054C:00000CE6"@ ==> b.transport == Some(Transport::Usb)
            &&& line == "HID_ID=0005:0000054C:00000CE6"@ ==> b.transport == Some(
                Transport::Bluetooth,
            )
            &&& line != "HID_ID=0003:0000054C:00000CE6"@ && line
                != "HID_ID=0005:0000054C:00000CE6"@ ==> b.transport == a.transport
            &&& text::has_prefix(line, "HID_UNIQ="@) ==> b.uniq == text::trimmed(
                line.subrange(9, line.len() as int),
            )
            &&& !text::has_prefix(line, "HID_UNIQ="@) ==> b.uniq == a.uniq
            &&& text::has_prefix(line, "HID_NAME="@) ==> b.name == text::trimmed(
                line.subrange(9, line.len() as int),
            )
            &&& !text::has_prefix(line, "HID_NAME="@) ==> b.name == a.name
        }),
        uevent_shape(Seq::empty()).transport is None,
{
    assert(l.push(line).drop_last() =~= l);
    reveal_strlit("HID_UNIQ=");
    reveal_strlit("HID_NAME=");
    reveal_strlit("HID_ID=0003:0000054C:00000CE6");
    reveal_strlit("HID_ID=0005:0000054C:00000CE6");
    assert("HID_ID=0003:0000054C:00000CE6"@[10] != "HID_ID=0005:0000054C:00000CE6"@[10]);
}

/// An entry is a pad exactly where it is a hidraw node of a DualSense that is
/// neither named nor addressed as a virtual one; its node stands under /dev.
pub proof fn pads_are_real_dualsenses(name: Seq<char>, uevent: Seq<char>)
    ensures
        ({
            let s = uevent_shape(text::lines_of(uevent));
            let p = pad_of(name, uevent);
            &&& p is Some <==> {
                &&& text::has_prefix(name, "hidraw"@)
                &&& s.transport is Some
                &&& !text::occurs(s.name, "mdrv-ds Virtual"@)
                &&& !virtual_mac(s.uniq)
            }
            &&& p is Some ==> (p->0).0 == "/dev/"@ + name && (p->0).1 == s.uniq && Some((p->0).2)
                == s.transport
        }),
{
}

/// Every pad among the entries is found, on its own transport.
pub proof fn every_pad_is_found(entries: Seq<(String, String)>, t: Transport, i: int)
    requires
        0 <= i < entries.len(),
        pad_of(entries[i].0@, entries[i].1@) is Some,
        (pad_of(entries[i].0@, entries[i].1@)->0).2 == t,
    ensures
        pads_on(entries, t).contains(pad_of(entries[i].0@, entries[i].1@)->0),
    decreases entries.len(),
{
    let p = pad_of(entries[i].0@, entries[i].1@)->0;
    let all = pads_on(entries, t);
    if i == entries.len() - 1 {
        assert(all[all.len() - 1] == p);
    } else {
        every_pad_is_found(entries.drop_last(), t, i);
        let before = pads_on(entries.drop_last(), t);
        let k = choose|k: int| 0 <= k < before.len() && before[k] == p;
        assert(all[k] == p);
    }
}

/// A written address is a virtual pad's exactly where its first octet has the
/// locally-administered bit.
pub proof fn virtual_mark_is_one_bit(mac: Seq<u8>)
    requires
        mac.len() == 6,
    ensures
        virtual_mac(proxy::mac_text(mac)) <==> mac[0] & 0x02 != 0,
{
    let parts = proxy::mac_parts(mac);
    assert forall|i: int| 0 <= i < parts.len() implies !(#[trigger] parts[i]).contains(':') by {
        text::hex_byte_is_the_byte(mac[i]);
    }
    text::split_undoes_glue(parts, ':');
    text::hex_byte_is_the_byte(mac[0]);
}

/// A pad that was named has the address of its attribute where that says
/// anything, else that of its uevent; it is cabled unless the uevent names the
/// Bluetooth bus.
pub proof fn named_pads_are_identified(attr: Option<String>, uevent: Option<String>)
    ensures
        ({
            let r = explicit_pad(attr, uevent);
            &&& attr is Some && text::trimmed((attr->0)@).len() > 0 ==> r.0 == text::trimmed(
                (attr->0)@,
            )
            &&& (attr is None || text::trimmed((attr->0)@).len() == 0) && uevent is Some && uniq_in(
                (uevent->0)@,
            ) is Some ==> r.0 == uniq_in((uevent->0)@)->0
            &&& (attr is None || text::trimmed((attr->0)@).len() == 0) && (uevent is None
                || uniq_in((uevent->0)@) is None) ==> r.0.len() == 0
            &&& r.1 == Transport::Bluetooth <==> uevent is Some && text::occurs(
                text::trimmed((uevent->0)@),
                "HID_ID=0005:"@,
            )
        }),
{
}

/// The bits of the descriptor items that matter here, and of two that do not.
proof fn item_bits()
    by (bit_vector)
    ensures
        0x85u8 & 3 == 1 && (0x85u8 >> 2) & 3 == 1 && 0x85u8 & 0xF0 == 0x80,
        0x75u8 & 3 == 1 && (0x75u8 >> 2) & 3 == 1 && 0x75u8 & 0xF0 == 0x70,
        0x95u8 & 3 == 1 && (0x95u8 >> 2) & 3 == 1 && 0x95u8 & 0xF0 == 0x90,
        0x96u8 & 3 == 2 && (0x96u8 >> 2) & 3 == 1 && 0x96u8 & 0xF0 == 0x90,
        0xB1u8 & 3 == 1 && (0xB1u8 >> 2) & 3 == 0 && 0xB1u8 & 0xF0 == 0xB0,
        0x81u8 & 3 == 1 && (0x81u8 >> 2) & 3 == 0 && 0x81u8 & 0xF0 == 0x80,
        0x91u8 & 3 == 1 && (0x91u8 >> 2) & 3 == 0 && 0x91u8 & 0xF0 == 0x90,
        0x27u8 & 3 == 3,
{
}

/// A feature report's length is read from its items: id, size and count, then
/// the feature item, wherever they stand in the descriptor. The length is that
/// of size times count bits and the id byte, and the scan goes on behind them.
pub proof fn feature_items_give_the_length(rdesc: Seq<u8>, i: int, s: RdescScan)
    requires
        0 <= i,
        i + 8 <= rdesc.len(),
        rdesc[i] == 0x85,
        rdesc[i + 2] == 0x75,
        rdesc[i + 4] == 0x95,
        rdesc[i + 6] == 0xB1,
    ensures
        ({
            let id = rdesc[i + 1];
            let bits = rdesc[i + 3] * rdesc[i + 5];
            scan_items(rdesc, i, s) == scan_items(
                rdesc,
                i + 8,
                RdescScan {
                    id,
                    size: rdesc[i + 3] as int,
                    count: rdesc[i + 5] as int,
                    lens: s.lens.insert(id, bits / 8 + 1),
                },
            )
        }),
{
    item_bits();
    reveal_with_fuel(scan_items, 5);
}

/// Input and output items record no length, whatever their data; items of four
/// data bytes are skipped whole; a count of two bytes counts.
pub proof fn other_items_record_nothing(s: RdescScan, v: int, rdesc: Seq<u8>, at: int)
    requires
        0 <= at,
        at + 4 <= rdesc.len(),
    ensures
        scan_item(s, 0x81, v) == s,
        scan_item(s, 0x91, v) == s,
        item_size(0x27) == 4,
        item_size(0x96) == 2,
        item_value(rdesc, at, 2) == rdesc[at] + 256 * rdesc[at + 1],
        item_value(rdesc, at, 4) == rdesc[at] + 256 * rdesc[at + 1] + 65536 * rdesc[at + 2]
            + 16777216 * rdesc[at + 3],
        item_value(rdesc, at, 1) == rdesc[at],
        item_value(rdesc, at, 0) == 0,
        scan_item(s, 0x96, v) == (RdescScan { count: v, ..s }),
{
    item_bits();
}

/// Bytes print as two hex digits each, in order.
pub proof fn bytes_print_in_order(a: Seq<u8>, b: u8)
    ensures
        hex_of(Seq::empty()).len() == 0,
        hex_of(a.push(b)) == hex_of(a) + text::hex_byte(b),
        text::bounded_number(text::hex_byte(b), 16, 255) == Some(b as int),
{
    assert(a.push(b).drop_last() =~= a);
    text::hex_byte_is_the_byte(b);
}

/// A descriptor of one feature report has that report's length and no other.
pub proof fn one_feature_has_one_length(rdesc: Seq<u8>)
    requires
        rdesc.len() == 8,
        rdesc[0] == 0x85,
        rdesc[2] == 0x75,
        rdesc[4] == 0x95,
        rdesc[6] == 0xB1,
    ensures
        lengths_of(rdesc) == Map::<u8, int>::empty().insert(
            rdesc[1],
            rdesc[3] * rdesc[5] / 8 + 1,
        ),
        lengths_of(Seq::empty()) == Map::<u8, int>::empty(),
{
    feature_items_give_the_length(
        rdesc,
        0,
        RdescScan { id: 0, size: 0, count: 0, lens: Map::empty() },
    );
}

/// Each `0x` in front of a number is dropped, and nothing else of it.
pub proof fn hex_marks_are_dropped(s: Seq<char>)
    ensures
        without_0x(seq!['0', 'x'] + s) == without_0x(s),
        s.len() < 2 || s[0] != '0' || s[1] != 'x' ==> without_0x(s) == s,
{
    assert((seq!['0', 'x'] + s).subrange(2, (seq!['0', 'x'] + s).len() as int) =~= s);
}

/// A summary names each report by its id in hex and its length, in order, one
/// blank apart.
pub proof fn summaries_name_each_report(ids: Seq<u8>, id: u8, lens: Map<u8, u64>)
    ensures
        feature_entries(Seq::empty(), lens).len() == 0,
        feature_entries(seq![id], lens) == "0x"@ + text::hex_byte(id) + "="@ + text::decimal(
            lens[id] as nat,
        ),
        ids.len() > 0 ==> feature_entries(ids.push(id), lens) == feature_entries(ids, lens) + " "@
            + ("0x"@ + text::hex_byte(id) + "="@ + text::decimal(lens[id] as nat)),
{
    assert(ids.push(id).drop_last() =~= ids);
}

/// Listed pads keep their order, their texts and their transport, and lengths
/// their value.
pub proof fn lists_are_what_they_hold(
    l: Seq<(String, String, Transport)>,
    i: int,
    m: Map<u8, u64>,
    id: u8,
)
    requires
        0 <= i < l.len(),
        m.contains_key(id),
    ensures
        pads_view(l).len() == l.len(),
        pads_view(l)[i] == (l[i].0@, l[i].1@, l[i].2),
        as_lengths(m).contains_key(id) && as_lengths(m)[id] == m[id],
{
}

} // verus!
