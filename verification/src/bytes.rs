//! Byte sequences: little-endian integers, slices and in-place writes.

use vstd::prelude::*;

verus! {

/// `n` zero bytes.
pub open spec fn zeros(n: nat) -> Seq<u8> {
    Seq::new(n, |i: int| 0u8)
}

/// The two bytes of `v`, least significant first.
pub open spec fn le16(v: int) -> Seq<u8> {
    seq![(v % 256) as u8, ((v / 256) % 256) as u8]
}

/// The four bytes of `v`, least significant first.
pub open spec fn le32(v: int) -> Seq<u8> {
    seq![
        (v % 256) as u8,
        ((v / 256) % 256) as u8,
        ((v / 65536) % 256) as u8,
        ((v / 16777216) % 256) as u8,
    ]
}

/// The integer that the two bytes at `at` spell, least significant first.
pub open spec fn from_le16(s: Seq<u8>, at: int) -> int {
    s[at] + 256 * s[at + 1]
}

/// The integer that the four bytes at `at` spell, least significant first.
pub open spec fn from_le32(s: Seq<u8>, at: int) -> int {
    s[at] + 256 * s[at + 1] + 65536 * s[at + 2] + 16777216 * s[at + 3]
}

/// `s` with `part` laid over it from index `at` on.
pub open spec fn overlay(s: Seq<u8>, at: int, part: Seq<u8>) -> Seq<u8> {
    s.subrange(0, at) + part + s.subrange(at + part.len(), s.len() as int)
}

/// Writing an integer and reading it back yields the integer (16 bits).
pub proof fn le16_round_trip(v: int)
    requires
        0 <= v < 65536,
    ensures
        from_le16(le16(v), 0) == v,
{
}

/// Writing an integer and reading it back yields the integer (32 bits).
pub proof fn le32_round_trip(v: int)
    requires
        0 <= v < 4294967296,
    ensures
        from_le32(le32(v), 0) == v,
{
}

/// Reading two bytes and writing them back yields the bytes.
pub proof fn from_le16_round_trip(s: Seq<u8>)
    requires
        s.len() == 2,
    ensures
        le16(from_le16(s, 0)) == s,
{
    assert(le16(from_le16(s, 0)) =~= s);
}

/// Reading four bytes and writing them back yields the bytes.
pub proof fn from_le32_round_trip(s: Seq<u8>)
    requires
        s.len() == 4,
    ensures
        le32(from_le32(s, 0)) == s,
{
    let v = from_le32(s, 0);
    let high = s[2] + 256 * s[3];
    let rest = s[1] + 256 * high;
    assert(v == s[0] + 256 * rest);
    assert(v % 256 == s[0] && v / 256 == rest);
    assert(rest % 256 == s[1]);
    assert(v / 65536 == high);
    assert(high % 256 == s[2]);
    assert(v / 16777216 == s[3]);
    assert(le32(v)[0] == s[0] && le32(v)[1] == s[1] && le32(v)[2] == s[2] && le32(v)[3] == s[3]);
    assert(le32(v) =~= s);
}

/// Appends the bytes of `part` to `out`.
pub fn append(out: &mut Vec<u8>, part: &[u8])
    ensures
        final(out)@ == old(out)@ + part@,
{
    out.extend_from_slice(part);
    assert(out@ =~= old(out)@ + part@);
}

/// Appends `n` zero bytes to `out`.
pub fn append_zeros(out: &mut Vec<u8>, n: usize)
    ensures
        final(out)@ == old(out)@ + zeros(n as nat),
{
    let mut i: usize = 0;
    assert(out@ =~= old(out)@ + zeros(0));
    while i < n
        invariant
            i <= n,
            out@ == old(out)@ + zeros(i as nat),
        decreases n - i,
    {
        out.push(0);
        i = i + 1;
        assert(out@ =~= old(out)@ + zeros(i as nat));
    }
}

/// Appends a 16-bit integer, least significant byte first.
pub fn append_u16(out: &mut Vec<u8>, v: u16)
    ensures
        final(out)@ == old(out)@ + le16(v as int),
{
    out.push((v % 256) as u8);
    out.push((v / 256) as u8);
    assert(out@ =~= old(out)@ + le16(v as int));
}

/// Appends a 32-bit integer, least significant byte first.
pub fn append_u32(out: &mut Vec<u8>, v: u32)
    ensures
        final(out)@ == old(out)@ + le32(v as int),
{
    out.push((v % 256) as u8);
    out.push(((v / 256) % 256) as u8);
    out.push(((v / 65536) % 256) as u8);
    out.push((v / 16777216) as u8);
    assert(out@ =~= old(out)@ + le32(v as int));
}

/// The bytes `from..to` of `s`, copied.
pub fn slice_vec(s: &[u8], from: usize, to: usize) -> (r: Vec<u8>)
    requires
        from <= to <= s@.len(),
    ensures
        r@ == s@.subrange(from as int, to as int),
{
    vstd::slice::slice_to_vec(vstd::slice::slice_subrange(s, from, to))
}

/// A copy of `s`.
pub fn copy_of(s: &[u8]) -> (r: Vec<u8>)
    ensures
        r@ == s@,
{
    vstd::slice::slice_to_vec(s)
}

/// Whether two byte slices hold the same bytes.
pub fn same_bytes(a: &[u8], b: &[u8]) -> (r: bool)
    ensures
        r == (a@ == b@),
{
    if a.len() != b.len() {
        return false;
    }
    let mut i: usize = 0;
    while i < a.len()
        invariant
            i <= a@.len(),
            a@.len() == b@.len(),
            forall|j: int| 0 <= j < i ==> a@[j] == b@[j],
        decreases a@.len() - i,
    {
        if a[i] != b[i] {
            return false;
        }
        i = i + 1;
    }
    assert(a@ =~= b@);
    true
}

/// Lays the bytes of `part` over `buf` from index `at` on.
pub fn lay_over(buf: &mut [u8], at: usize, part: &[u8])
    requires
        at + part@.len() <= old(buf)@.len(),
    ensures
        final(buf)@ == overlay(old(buf)@, at as int, part@),
{
    let ghost before = buf@;
    let n: usize = buf.len();
    let mut i: usize = 0;
    while i < part.len()
        invariant
            i <= part@.len(),
            at + part@.len() <= before.len() == buf@.len(),
            buf@.len() == n,
            forall|j: int|
                0 <= j < before.len() ==> #[trigger] buf@[j] == (if at <= j < at + i {
                    part@[j - at]
                } else {
                    before[j]
                }),
        decreases part@.len() - i,
    {
        buf[at + i] = part[i];
        i = i + 1;
    }
    assert(buf@ =~= overlay(before, at as int, part@));
}

/// A number goes on the wire with its least significant byte first, and is
/// read in the same order.
pub proof fn least_significant_byte_first(v: int, s: Seq<u8>, at: int)
    requires
        0 <= at,
        at + 4 <= s.len(),
    ensures
        0 <= v < 65536 ==> le16(v).len() == 2 && le16(v)[0] + 256 * le16(v)[1] == v,
        0 <= v < 4294967296 ==> le32(v).len() == 4 && le32(v)[0] + 256 * le32(v)[1] + 65536 * le32(
            v,
        )[2] + 16777216 * le32(v)[3] == v,
        from_le16(s, at) == s[at] + 256 * s[at + 1],
        from_le32(s, at) == s[at] + 256 * s[at + 1] + 65536 * s[at + 2] + 16777216 * s[at + 3],
{
}

/// Laying bytes over others changes those, and no others.
pub proof fn overlay_changes_its_stretch(s: Seq<u8>, at: int, part: Seq<u8>, i: int)
    requires
        0 <= at,
        at + part.len() <= s.len(),
        0 <= i < s.len(),
    ensures
        overlay(s, at, part).len() == s.len(),
        overlay(s, at, part)[i] == (if at <= i < at + part.len() {
            part[i - at]
        } else {
            s[i]
        }),
        zeros(s.len()).len() == s.len(),
        zeros(s.len())[i] == 0,
{
}

} // verus!
