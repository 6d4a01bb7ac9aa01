//! The reflected CRC-32 that guards every Bluetooth report.

use vstd::prelude::*;

use crate::bytes;

verus! {

/// The reflected generator polynomial of CRC-32.
pub const POLY: u32 = 0xEDB8_8320;

/// One step of the division: shift out the lowest bit, and subtract the
/// generator where that bit was set.
pub open spec fn crc_bit(crc: u32) -> u32 {
    if crc & 1 == 1 {
        (crc >> 1) ^ POLY
    } else {
        crc >> 1
    }
}

/// `n` steps of the division.
pub open spec fn crc_bits(crc: u32, n: nat) -> u32
    decreases n,
{
    if n == 0 {
        crc
    } else {
        crc_bit(crc_bits(crc, (n - 1) as nat))
    }
}

/// The register after one more byte.
pub open spec fn crc_byte(crc: u32, b: u8) -> u32 {
    crc_bits(crc ^ (b as u32), 8)
}

/// The register after the bytes of `data`, from the start value `init`.
pub open spec fn crc_run(init: u32, data: Seq<u8>) -> u32
    decreases data.len(),
{
    if data.len() == 0 {
        init
    } else {
        crc_byte(crc_run(init, data.drop_last()), data.last())
    }
}

/// CRC-32 of `data`: all-ones start, complemented result.
pub open spec fn crc32(data: Seq<u8>) -> u32 {
    !crc_run(0xFFFF_FFFF, data)
}

/// `body` followed by its CRC under the HIDP prefix byte `prefix`.
pub open spec fn sealed(prefix: u8, body: Seq<u8>) -> Seq<u8> {
    body + bytes::le32(crc32(seq![prefix] + body) as int)
}

/// Whether the last four bytes of `report` are the CRC of what precedes them,
/// under the HIDP prefix byte `prefix`.
pub open spec fn crc_ok(prefix: u8, report: Seq<u8>) -> bool {
    &&& report.len() >= 4
    &&& bytes::from_le32(report, report.len() - 4) == crc32(
        seq![prefix] + report.subrange(0, report.len() - 4),
    )
}

/// `report` with its last four bytes replaced by the CRC of the others.
pub open spec fn restamped(prefix: u8, report: Seq<u8>) -> Seq<u8> {
    sealed(prefix, report.subrange(0, report.len() - 4))
}

/// A sealed report passes the receiver's check.
pub proof fn sealed_passes(prefix: u8, body: Seq<u8>)
    ensures
        crc_ok(prefix, sealed(prefix, body)),
{
    let r = sealed(prefix, body);
    assert(r.subrange(0, r.len() - 4) =~= body);
}

/// Restamping a report that already passes the check leaves it as it is.
pub proof fn restamp_of_valid_is_identity(prefix: u8, report: Seq<u8>)
    requires
        crc_ok(prefix, report),
    ensures
        restamped(prefix, report) == report,
{
    let n = report.len() - 4;
    let tail = report.subrange(n, n + 4);
    bytes::from_le32_round_trip(tail);
    assert(bytes::from_le32(tail, 0) == bytes::from_le32(report, n));
    assert(restamped(prefix, report) =~= report.subrange(0, n) + tail);
    assert(report =~= report.subrange(0, n) + tail);
}

/// The register after two stretches of bytes is that of the second run from
/// where the first left off.
pub proof fn crc_run_append(init: u32, a: Seq<u8>, b: Seq<u8>)
    ensures
        crc_run(init, a + b) == crc_run(crc_run(init, a), b),
    decreases b.len(),
{
    if b.len() == 0 {
        assert(a + b =~= a);
    } else {
        crc_run_append(init, a, b.drop_last());
        assert((a + b).drop_last() =~= a + b.drop_last());
    }
}

/// Feeds one byte into the register.
fn step_byte(crc: u32, b: u8) -> (r: u32)
    ensures
        r == crc_byte(crc, b),
{
    let mut c: u32 = crc ^ (b as u32);
    let ghost start = c;
    let mut i: usize = 0;
    while i < 8
        invariant
            i <= 8,
            c == crc_bits(start, i as nat),
        decreases 8 - i,
    {
        assert(c & 1 == 1 || c & 1 == 0) by (bit_vector);
        c = if c & 1 == 1 {
            (c >> 1) ^ POLY
        } else {
            c >> 1
        };
        i = i + 1;
    }
    c
}

/// Feeds the first `n` bytes of `data` into the register.
pub fn run(init: u32, data: &[u8], n: usize) -> (r: u32)
    requires
        n <= data@.len(),
    ensures
        r == crc_run(init, data@.subrange(0, n as int)),
{
    let mut crc: u32 = init;
    let mut i: usize = 0;
    while i < n
        invariant
            i <= n <= data@.len(),
            crc == crc_run(init, data@.subrange(0, i as int)),
        decreases n - i,
    {
        crc = step_byte(crc, data[i]);
        i = i + 1;
        assert(data@.subrange(0, i as int).drop_last() =~= data@.subrange(0, i - 1));
    }
    crc
}

/// CRC-32 of the byte `seed` followed by `data`.
pub fn crc32_seed(seed: u8, data: &[u8]) -> (r: u32)
    ensures
        r == crc32(seq![seed] + data@),
{
    let first: u32 = step_byte(0xFFFF_FFFF, seed);
    proof {
        assert(seq![seed].drop_last() =~= Seq::<u8>::empty());
        assert(crc_run(0xFFFF_FFFF, Seq::<u8>::empty()) == 0xFFFF_FFFF);
        assert(crc_run(0xFFFF_FFFF, seq![seed]) == first);
        crc_run_append(0xFFFF_FFFF, seq![seed], data@);
        assert(data@.subrange(0, data@.len() as int) =~= data@);
    }
    !run(first, data, data.len())
}

/// Replaces the last four bytes of `report` by the CRC, under the prefix
/// `seed`, of the bytes before them.
pub fn stamp(seed: u8, report: &mut [u8])
    requires
        old(report)@.len() >= 4,
    ensures
        final(report)@ == restamped(seed, old(report)@),
{
    let n: usize = report.len();
    let ghost before = report@;
    let body: &[u8] = vstd::slice::slice_subrange(report, 0, n - 4);
    let crc: u32 = crc32_seed(seed, body);
    let mut tail: Vec<u8> = Vec::new();
    bytes::append_u32(&mut tail, crc);
    assert(tail@ =~= bytes::le32(crc as int));
    bytes::lay_over(report, n - 4, tail.as_slice());
    assert(report@ =~= restamped(seed, before));
}

/// Appends to `body` its CRC under the prefix `seed`.
pub fn seal(seed: u8, body: &mut Vec<u8>)
    ensures
        final(body)@ == sealed(seed, old(body)@),
{
    let crc: u32 = crc32_seed(seed, body.as_slice());
    bytes::append_u32(body, crc);
}

} // verus!
