//! Text as sequences of characters: trimming, splitting, numbers.

use vstd::prelude::*;
use vstd::utf8;

verus! {

/// `String::push` of std appends one character at the end.
pub assume_specification[ String::push ](s: &mut String, c: char)
    ensures
        final(s)@ == old(s)@.push(c),
;

// ---------------------------------------------------------------- basics

/// The characters of `s`.
pub fn chars_of(s: &str) -> (r: Vec<char>)
    ensures
        r@ == s@,
{
    let n: usize = s.unicode_len();
    let mut out: Vec<char> = Vec::new();
    let mut i: usize = 0;
    while i < n
        invariant
            i <= n,
            n == s@.len(),
            out@ == s@.subrange(0, i as int),
        decreases n - i,
    {
        out.push(s.get_char(i));
        i = i + 1;
        assert(out@ =~= s@.subrange(0, i as int));
    }
    assert(out@ =~= s@);
    out
}

/// The text that the characters of `cs` spell.
pub fn string_of(cs: &[char]) -> (r: String)
    ensures
        r@ == cs@,
{
    let mut out = String::new();
    let mut i: usize = 0;
    assert(out@ =~= cs@.subrange(0, 0));
    while i < cs.len()
        invariant
            i <= cs@.len(),
            out@ == cs@.subrange(0, i as int),
        decreases cs@.len() - i,
    {
        out.push(cs[i]);
        i = i + 1;
        assert(out@ =~= cs@.subrange(0, i as int));
    }
    assert(out@ =~= cs@);
    out
}

/// Whether two texts are the same.
pub fn same(a: &str, b: &str) -> (r: bool)
    ensures
        r == (a@ == b@),
{
    a.to_owned() == b.to_owned()
}

/// Whether two character sequences are the same.
pub fn same_chars(a: &[char], b: &[char]) -> (r: bool)
    ensures
        r == (a@ == b@),
{
    if a.len() != b.len() {
        return false;
    }
    let mut i: usize = 0;
    while i < a.len()
        invariant
            i <= a@.len(),
            a@.len() == b@.len(),
            forall|j: int| 0 <= j < i ==> a@[j] == b@[j],
        decreases a@.len() - i,
    {
        if a[i] != b[i] {
            return false;
        }
        i = i + 1;
    }
    assert(a@ =~= b@);
    true
}

/// Whether the characters `cs` spell the text `s`.
pub fn spells(cs: &[char], s: &str) -> (r: bool)
    ensures
        r == (cs@ == s@),
{
    same_chars(cs, chars_of(s).as_slice())
}

/// The characters `from..to` of `cs`.
pub fn slice_of(cs: &[char], from: usize, to: usize) -> (r: Vec<char>)
    requires
        from <= to <= cs@.len(),
    ensures
        r@ == cs@.subrange(from as int, to as int),
{
    vstd::slice::slice_to_vec(vstd::slice::slice_subrange(cs, from, to))
}

/// Appends the characters of `part` to `out`.
pub fn append_chars(out: &mut Vec<char>, part: &[char])
    ensures
        final(out)@ == old(out)@ + part@,
{
    out.extend_from_slice(part);
    assert(out@ =~= old(out)@ + part@);
}

// ---------------------------------------------------------------- sizes in bytes

/// How many bytes `s` takes in UTF-8.
pub open spec fn byte_len(s: Seq<char>) -> nat {
    utf8::encode_utf8(s).len()
}

/// How many bytes a character takes in UTF-8.
pub open spec fn char_width(c: char) -> nat {
    let v = c as u32;
    if v < 0x80 {
        1
    } else if v < 0x800 {
        2
    } else if v < 0x10000 {
        3
    } else {
        4
    }
}

proof fn scalar_width(c: char)
    ensures
        utf8::encode_scalar(c as u32).len() == char_width(c),
{
    let v = c as u32;
    assert(utf8::has_width_1_encoding(v) == (v < 0x80));
    assert(utf8::has_width_2_encoding(v) == (0x80 <= v < 0x800));
    assert(utf8::has_width_3_encoding(v) == (0x800 <= v < 0x10000));
}

/// One more character takes its width more.
pub proof fn byte_len_push(s: Seq<char>, c: char)
    ensures
        byte_len(s.push(c)) == byte_len(s) + char_width(c),
    decreases s.len(),
{
    let t = s.push(c);
    if s.len() == 0 {
        assert(t.drop_first() =~= Seq::empty());
        assert(utf8::encode_utf8(Seq::<char>::empty()).len() == 0);
        scalar_width(c);
    } else {
        assert(t.drop_first() =~= s.drop_first().push(c));
        byte_len_push(s.drop_first(), c);
    }
}

/// How many characters of `s` fit into `budget` bytes.
pub open spec fn fitting(s: Seq<char>, budget: int) -> nat
    decreases s.len(),
{
    if s.len() == 0 {
        0
    } else {
        let n = fitting(s.drop_last(), budget);
        if n == s.len() - 1 && byte_len(s) <= budget {
            s.len()
        } else {
            n
        }
    }
}

proof fn fitting_stops(s: Seq<char>, n: int, budget: int)
    requires
        0 <= n < s.len(),
        fitting(s.subrange(0, n), budget) == n,
        byte_len(s.subrange(0, n + 1)) > budget,
    ensures
        fitting(s, budget) == n,
    decreases s.len(),
{
    if s.len() == n + 1 {
        assert(s.subrange(0, n + 1) =~= s);
        assert(s.drop_last() =~= s.subrange(0, n));
    } else {
        let t = s.drop_last();
        assert(t.subrange(0, n) =~= s.subrange(0, n));
        assert(t.subrange(0, n + 1) =~= s.subrange(0, n + 1));
        fitting_stops(t, n, budget);
    }
}

/// The characters that fit take at most the budget.
pub proof fn fitting_fits(s: Seq<char>, budget: int)
    requires
        budget >= 0,
    ensures
        fitting(s, budget) <= s.len(),
        byte_len(s.subrange(0, fitting(s, budget) as int)) <= budget,
    decreases s.len(),
{
    if s.len() == 0 {
        assert(s.subrange(0, 0) =~= Seq::empty());
        assert(utf8::encode_utf8(Seq::<char>::empty()).len() == 0);
    } else {
        fitting_fits(s.drop_last(), budget);
        let n = fitting(s.drop_last(), budget) as int;
        assert(s.drop_last().subrange(0, n) =~= s.subrange(0, n));
        assert(s.subrange(0, s.len() as int) =~= s);
    }
}

/// All characters fit exactly where the whole text does.
pub proof fn fitting_is_all(s: Seq<char>, budget: int)
    requires
        budget >= 0,
    ensures
        (fitting(s, budget) == s.len()) == (byte_len(s) <= budget),
    decreases s.len(),
{
    if s.len() == 0 {
        assert(s =~= Seq::empty());
        assert(utf8::encode_utf8(Seq::<char>::empty()).len() == 0);
    } else {
        let t = s.drop_last();
        fitting_is_all(t, budget);
        fitting_fits(t, budget);
        byte_len_push(t, s.last());
        assert(t.push(s.last()) =~= s);
    }
}

/// How many characters of `s` fit into `budget` bytes.
pub fn fit(s: &[char], budget: usize) -> (r: usize)
    ensures
        r == fitting(s@, budget as int),
        r <= s@.len(),
{
    let mut used: usize = 0;
    let mut i: usize = 0;
    proof {
        assert(s@.subrange(0, 0) =~= Seq::empty());
        assert(utf8::encode_utf8(Seq::<char>::empty()).len() == 0);
    }
    while i < s.len()
        invariant
            i <= s@.len(),
            used <= budget,
            used == byte_len(s@.subrange(0, i as int)),
            fitting(s@.subrange(0, i as int), budget as int) == i,
        decreases s@.len() - i,
    {
        let v: u32 = s[i] as u32;
        let w: usize = if v < 0x80 {
            1
        } else if v < 0x800 {
            2
        } else if v < 0x10000 {
            3
        } else {
            4
        };
        proof {
            assert(s@.subrange(0, i + 1) =~= s@.subrange(0, i as int).push(s@[i as int]));
            assert(s@.subrange(0, i + 1).drop_last() =~= s@.subrange(0, i as int));
            byte_len_push(s@.subrange(0, i as int), s@[i as int]);
        }
        if w > budget - used {
            proof {
                fitting_stops(s@, i as int, budget as int);
            }
            return i;
        }
        used = used + w;
        i = i + 1;
    }
    assert(s@.subrange(0, s@.len() as int) =~= s@);
    i
}

// ---------------------------------------------------------------- prefixes

/// Whether `s` begins with `p`.
pub open spec fn has_prefix(s: Seq<char>, p: Seq<char>) -> bool {
    p.len() <= s.len() && s.subrange(0, p.len() as int) == p
}

/// `s` without its prefix `p`, where it has it.
pub open spec fn without_prefix(s: Seq<char>, p: Seq<char>) -> Option<Seq<char>> {
    if has_prefix(s, p) {
        Some(s.subrange(p.len() as int, s.len() as int))
    } else {
        None
    }
}

/// Whether `p` occurs in `s`.
pub open spec fn occurs(s: Seq<char>, p: Seq<char>) -> bool {
    exists|i: int| 0 <= i <= s.len() - p.len() && #[trigger] s.subrange(i, i + p.len()) == p
}

/// Whether `s` begins with `p`.
pub fn starts_with(s: &[char], p: &[char]) -> (r: bool)
    ensures
        r == has_prefix(s@, p@),
{
    if p.len() > s.len() {
        return false;
    }
    same_chars(vstd::slice::slice_subrange(s, 0, p.len()), p)
}

/// `s` without its prefix `p`, where it has it.
pub fn strip_prefix(s: &[char], p: &str) -> (r: Option<Vec<char>>)
    ensures
        match r {
            Some(t) => without_prefix(s@, p@) == Some(t@),
            None => without_prefix(s@, p@) is None,
        },
{
    let q: Vec<char> = chars_of(p);
    if starts_with(s, q.as_slice()) {
        Some(slice_of(s, q.len(), s.len()))
    } else {
        None
    }
}

/// Whether `p` occurs in `s`.
pub fn contains(s: &[char], p: &[char]) -> (r: bool)
    ensures
        r == occurs(s@, p@),
{
    if p.len() > s.len() {
        return false;
    }
    let last: usize = s.len() - p.len();
    let mut i: usize = 0;
    while i <= last
        invariant
            last == s@.len() - p@.len(),
            i <= last + 1,
            s@.len() <= usize::MAX,
            forall|j: int| 0 <= j < i ==> #[trigger] s@.subrange(j, j + p@.len()) != p@,
        decreases last + 1 - i,
    {
        if same_chars(vstd::slice::slice_subrange(s, i, i + p.len()), p) {
            assert(s@.subrange(i as int, i + p@.len()) == p@);
            return true;
        }
        if i == last {
            assert(forall|j: int| 0 <= j <= last ==> #[trigger] s@.subrange(j, j + p@.len()) != p@);
            return false;
        }
        i = i + 1;
    }
    false
}

// ---------------------------------------------------------------- case

/// An ASCII capital in lower case; any other character as it is.
pub open spec fn lower_char(c: char) -> char {
    if 'A' <= c && c <= 'Z' {
        (c as u8 + 32) as char
    } else {
        c
    }
}

/// `s` with ASCII capitals in lower case.
pub open spec fn lower(s: Seq<char>) -> Seq<char> {
    s.map_values(|c: char| lower_char(c))
}

/// `s` with ASCII capitals in lower case.
pub fn to_lower(s: &[char]) -> (r: Vec<char>)
    ensures
        r@ == lower(s@),
{
    let mut out: Vec<char> = Vec::new();
    let mut i: usize = 0;
    while i < s.len()
        invariant
            i <= s@.len(),
            out@ == lower(s@.subrange(0, i as int)),
        decreases s@.len() - i,
    {
        let c = s[i];
        if 'A' <= c && c <= 'Z' {
            out.push((c as u8 + 32) as char);
        } else {
            out.push(c);
        }
        i = i + 1;
        assert(out@ =~= lower(s@.subrange(0, i as int)));
    }
    assert(s@.subrange(0, s@.len() as int) =~= s@);
    out
}

// ---------------------------------------------------------------- white space

/// The Unicode property White_Space.
pub open spec fn is_white(c: char) -> bool {
    let v = c as u32;
    ||| 0x09 <= v <= 0x0D
    ||| v == 0x20
    ||| v == 0x85
    ||| v == 0xA0
    ||| v == 0x1680
    ||| 0x2000 <= v <= 0x200A
    ||| v == 0x2028
    ||| v == 0x2029
    ||| v == 0x202F
    ||| v == 0x205F
    ||| v == 0x3000
}

/// Whether every character is one of ASCII.
pub open spec fn plain(s: Seq<char>) -> bool {
    forall|i: int| 0 <= i < s.len() ==> (#[trigger] s[i]) as u32 <= 0x7F
}

/// Whether every character is one of ASCII.
pub fn is_plain(s: &[char]) -> (r: bool)
    ensures
        r == plain(s@),
{
    let mut i: usize = 0;
    while i < s.len()
        invariant
            i <= s@.len(),
            forall|j: int| 0 <= j < i ==> (#[trigger] s@[j]) as u32 <= 0x7F,
        decreases s@.len() - i,
    {
        let v: u32 = s[i] as u32;
        if v > 0x7F {
            assert(s@[i as int] as u32 > 0x7F);
            return false;
        }
        i = i + 1;
    }
    true
}

/// Whether `c` is white space.
pub fn white(c: char) -> (r: bool)
    ensures
        r == is_white(c),
{
    let v: u32 = c as u32;
    (0x09 <= v && v <= 0x0D) || v == 0x20 || v == 0x85 || v == 0xA0 || v == 0x1680 || (0x2000 <= v
        && v <= 0x200A) || v == 0x2028 || v == 0x2029 || v == 0x202F || v == 0x205F || v == 0x3000
}

/// `s` without the white space at its start.
pub open spec fn trim_start(s: Seq<char>) -> Seq<char>
    decreases s.len(),
{
    if s.len() > 0 && is_white(s[0]) {
        trim_start(s.subrange(1, s.len() as int))
    } else {
        s
    }
}

/// `s` without the white space at its end.
pub open spec fn trim_end(s: Seq<char>) -> Seq<char>
    decreases s.len(),
{
    if s.len() > 0 && is_white(s.last()) {
        trim_end(s.drop_last())
    } else {
        s
    }
}

/// `s` without the white space around it.
pub open spec fn trimmed(s: Seq<char>) -> Seq<char> {
    trim_end(trim_start(s))
}

/// `s` without the white space around it.
pub fn trim(s: &[char]) -> (r: Vec<char>)
    ensures
        r@ == trimmed(s@),
{
    let n: usize = s.len();
    let mut a: usize = 0;
    assert(s@.subrange(0, n as int) =~= s@);
    while a < n && white(s[a])
        invariant
            a <= n,
            n == s@.len(),
            trim_start(s@.subrange(a as int, n as int)) == trim_start(s@),
        decreases n - a,
    {
        assert(s@.subrange(a as int, n as int).subrange(1, n - a) =~= s@.subrange(
            a + 1,
            n as int,
        ));
        a = a + 1;
    }
    assert(trim_start(s@) == s@.subrange(a as int, n as int));
    let mut b: usize = n;
    while b > a && white(s[b - 1])
        invariant
            a <= b <= n,
            n == s@.len(),
            trim_end(s@.subrange(a as int, b as int)) == trimmed(s@),
        decreases b - a,
    {
        assert(s@.subrange(a as int, b as int).drop_last() =~= s@.subrange(a as int, b - 1));
        b = b - 1;
    }
    slice_of(s, a, b)
}

/// A trimmed text neither starts nor ends with white space.
pub proof fn trimmed_has_no_white_ends(s: Seq<char>)
    ensures
        trimmed(s).len() > 0 ==> !is_white(trimmed(s)[0]) && !is_white(trimmed(s).last()),
{
    trim_start_head(s);
    trim_end_keeps(trim_start(s));
}

proof fn trim_start_head(s: Seq<char>)
    ensures
        trim_start(s).len() > 0 ==> !is_white(trim_start(s)[0]),
    decreases s.len(),
{
    if s.len() > 0 && is_white(s[0]) {
        trim_start_head(s.subrange(1, s.len() as int));
    }
}

proof fn trim_end_keeps(s: Seq<char>)
    ensures
        trim_end(s).len() <= s.len(),
        trim_end(s) == s.subrange(0, trim_end(s).len() as int),
        trim_end(s).len() > 0 ==> !is_white(trim_end(s).last()),
    decreases s.len(),
{
    if s.len() > 0 && is_white(s.last()) {
        trim_end_keeps(s.drop_last());
        let t = trim_end(s.drop_last());
        assert(s.drop_last().subrange(0, t.len() as int) =~= s.subrange(0, t.len() as int));
    } else {
        assert(s.subrange(0, s.len() as int) =~= s);
    }
}

// ---------------------------------------------------------------- pieces

/// The views of a list of character sequences.
pub open spec fn views(v: Seq<Vec<char>>) -> Seq<Seq<char>> {
    v.map_values(|p: Vec<char>| p@)
}

/// The pieces of `s` between the separators `sep`; one piece more than there
/// are separators.
pub open spec fn pieces(s: Seq<char>, sep: char) -> Seq<Seq<char>>
    decreases s.len(),
{
    if s.len() == 0 {
        seq![Seq::<char>::empty()]
    } else {
        let before = pieces(s.drop_last(), sep);
        if s.last() == sep {
            before.push(Seq::<char>::empty())
        } else {
            before.drop_last().push(before.last().push(s.last()))
        }
    }
}

/// The pieces of `s` between the separators `sep`.
pub fn split(s: &[char], sep: char) -> (r: Vec<Vec<char>>)
    ensures
        views(r@) == pieces(s@, sep),
        r@.len() >= 1,
{
    let mut done: Vec<Vec<char>> = Vec::new();
    let mut cur: Vec<char> = Vec::new();
    let mut i: usize = 0;
    assert(views(done@).push(cur@) =~= pieces(s@.subrange(0, 0), sep));
    while i < s.len()
        invariant
            i <= s@.len(),
            views(done@).push(cur@) == pieces(s@.subrange(0, i as int), sep),
        decreases s@.len() - i,
    {
        let ghost now = s@.subrange(0, i as int);
        let ghost next = s@.subrange(0, i + 1);
        assert(next.drop_last() =~= now);
        let ghost before = views(done@).push(cur@);
        assert(before.drop_last() =~= views(done@));
        if s[i] == sep {
            let mut fresh: Vec<char> = Vec::new();
            std::mem::swap(&mut fresh, &mut cur);
            done.push(fresh);
            assert(views(done@) =~= before);
        } else {
            cur.push(s[i]);
        }
        i = i + 1;
    }
    assert(s@.subrange(0, s@.len() as int) =~= s@);
    let ghost last = cur@;
    let ghost heads = views(done@);
    done.push(cur);
    assert(views(done@) =~= heads.push(last));
    done
}

/// The pieces with `sep` between them.
pub open spec fn glued(parts: Seq<Seq<char>>, sep: char) -> Seq<char>
    decreases parts.len(),
{
    if parts.len() == 0 {
        Seq::empty()
    } else if parts.len() == 1 {
        parts[0]
    } else {
        glued(parts.drop_last(), sep).push(sep) + parts.last()
    }
}

/// The pieces with `sep` between them.
pub fn glue(parts: &Vec<Vec<char>>, sep: char) -> (r: Vec<char>)
    ensures
        r@ == glued(views(parts@), sep),
{
    let ghost all = views(parts@);
    let mut out: Vec<char> = Vec::new();
    let mut i: usize = 0;
    assert(out@ =~= glued(all.subrange(0, 0), sep));
    while i < parts.len()
        invariant
            i <= parts@.len(),
            all == views(parts@),
            out@ == glued(all.subrange(0, i as int), sep),
        decreases parts@.len() - i,
    {
        assert(all.subrange(0, i + 1).drop_last() =~= all.subrange(0, i as int));
        assert(all[i as int] == parts@[i as int]@);
        if i > 0 {
            out.push(sep);
        }
        append_chars(&mut out, parts[i].as_slice());
        i = i + 1;
        assert(out@ =~= glued(all.subrange(0, i as int), sep));
    }
    assert(all.subrange(0, all.len() as int) =~= all);
    out
}

/// No piece holds the separator.
pub proof fn pieces_hold_no_separator(s: Seq<char>, sep: char)
    ensures
        pieces(s, sep).len() >= 1,
        forall|i: int| 0 <= i < pieces(s, sep).len() ==> !(#[trigger] pieces(s, sep)[i]).contains(sep),
    decreases s.len(),
{
    if s.len() > 0 {
        let front = pieces(s.drop_last(), sep);
        pieces_hold_no_separator(s.drop_last(), sep);
        let all = pieces(s, sep);
        assert forall|i: int| 0 <= i < all.len() implies !(#[trigger] all[i]).contains(sep) by {
            if s.last() != sep && i == all.len() - 1 {
                let piece = front.last().push(s.last());
                assert(all[i] == piece);
                assert(front.last() == front[front.len() - 1]);
                if piece.contains(sep) {
                    let k = choose|k: int| 0 <= k < piece.len() && piece[k] == sep;
                    assert(front.last()[k] == sep);
                }
            } else if i < front.len() {
                assert(all[i] == front[i]);
            }
        }
    }
}

/// A separator and a piece without one add exactly that piece.
pub proof fn pieces_of_longer(a: Seq<char>, b: Seq<char>, sep: char)
    requires
        !b.contains(sep),
    ensures
        pieces(a.push(sep) + b, sep) == pieces(a, sep).push(b),
    decreases b.len(),
{
    let s = a.push(sep) + b;
    if b.len() == 0 {
        assert(s =~= a.push(sep));
        assert(s.drop_last() =~= a);
        assert(b =~= Seq::empty());
    } else {
        let c = b.drop_last();
        assert forall|k: int| 0 <= k < c.len() implies c[k] != sep by {
            assert(b.contains(b[k]));
        }
        pieces_of_longer(a, c, sep);
        assert(s.drop_last() =~= a.push(sep) + c);
        assert(b.contains(b.last()));
        let front = pieces(a, sep).push(c);
        assert(front.drop_last() =~= pieces(a, sep));
        assert(c.push(b.last()) =~= b);
    }
}

/// A text without the separator is one piece.
pub proof fn pieces_of_one(a: Seq<char>, sep: char)
    requires
        !a.contains(sep),
    ensures
        pieces(a, sep) == seq![a],
    decreases a.len(),
{
    if a.len() > 0 {
        let c = a.drop_last();
        assert forall|k: int| 0 <= k < c.len() implies c[k] != sep by {
            assert(a.contains(a[k]));
        }
        pieces_of_one(c, sep);
        assert(a.contains(a.last()));
        assert(c.push(a.last()) =~= a);
        assert(pieces(a, sep) =~= seq![a]);
    } else {
        assert(a =~= Seq::empty());
        assert(pieces(a, sep) =~= seq![a]);
    }
}

/// Splitting undoes glueing.
pub proof fn split_undoes_glue(parts: Seq<Seq<char>>, sep: char)
    requires
        parts.len() >= 1,
        forall|i: int| 0 <= i < parts.len() ==> !(#[trigger] parts[i]).contains(sep),
    ensures
        pieces(glued(parts, sep), sep) == parts,
    decreases parts.len(),
{
    if parts.len() == 1 {
        pieces_of_one(parts[0], sep);
        assert(seq![parts[0]] =~= parts);
    } else {
        let front = parts.drop_last();
        assert forall|i: int| 0 <= i < front.len() implies !(#[trigger] front[i]).contains(sep) by {
            assert(front[i] == parts[i]);
        }
        split_undoes_glue(front, sep);
        assert(parts.last() == parts[parts.len() - 1]);
        pieces_of_longer(glued(front, sep), parts.last(), sep);
        assert(front.push(parts.last()) =~= parts);
    }
}

/// The white-space separated words met so far, and the one under way.
pub open spec fn word_scan(s: Seq<char>) -> (Seq<Seq<char>>, Seq<char>)
    decreases s.len(),
{
    if s.len() == 0 {
        (Seq::<Seq<char>>::empty(), Seq::<char>::empty())
    } else {
        let (done, cur) = word_scan(s.drop_last());
        if is_white(s.last()) {
            (
                if cur.len() > 0 {
                    done.push(cur)
                } else {
                    done
                },
                Seq::<char>::empty(),
            )
        } else {
            (done, cur.push(s.last()))
        }
    }
}

/// The white-space separated words of `s`.
pub open spec fn words_of(s: Seq<char>) -> Seq<Seq<char>> {
    let (done, cur) = word_scan(s);
    if cur.len() > 0 {
        done.push(cur)
    } else {
        done
    }
}

/// The white-space separated words of `s`.
pub fn words(s: &[char]) -> (r: Vec<Vec<char>>)
    ensures
        views(r@) == words_of(s@),
{
    let mut done: Vec<Vec<char>> = Vec::new();
    let mut cur: Vec<char> = Vec::new();
    let mut i: usize = 0;
    assert(views(done@) =~= word_scan(s@.subrange(0, 0)).0);
    while i < s.len()
        invariant
            i <= s@.len(),
            (views(done@), cur@) == word_scan(s@.subrange(0, i as int)),
        decreases s@.len() - i,
    {
        let ghost next = s@.subrange(0, i + 1);
        assert(next.drop_last() =~= s@.subrange(0, i as int));
        let ghost before = views(done@);
        if white(s[i]) {
            if cur.len() > 0 {
                let ghost word = cur@;
                let mut fresh: Vec<char> = Vec::new();
                std::mem::swap(&mut fresh, &mut cur);
                done.push(fresh);
                assert(views(done@) =~= before.push(word));
            }
            assert(cur@ =~= Seq::<char>::empty());
        } else {
            cur.push(s[i]);
        }
        i = i + 1;
    }
    assert(s@.subrange(0, s@.len() as int) =~= s@);
    if cur.len() > 0 {
        let ghost before = views(done@);
        let ghost word = cur@;
        done.push(cur);
        assert(views(done@) =~= before.push(word));
    }
    done
}

/// A line without the carriage return at its end.
pub open spec fn without_cr(s: Seq<char>) -> Seq<char> {
    if s.len() > 0 && s.last() == '\r' {
        s.drop_last()
    } else {
        s
    }
}

/// The lines of `s`: each ends with a line feed, or a carriage return and a
/// line feed; the last one may have no ending.
pub open spec fn lines_of(s: Seq<char>) -> Seq<Seq<char>> {
    let p = pieces(s, '\n');
    let ended = p.drop_last().map_values(|l: Seq<char>| without_cr(l));
    if p.last().len() == 0 {
        ended
    } else {
        ended.push(p.last())
    }
}

/// The lines of `s`.
pub fn lines(s: &[char]) -> (r: Vec<Vec<char>>)
    ensures
        views(r@) == lines_of(s@),
{
    let p: Vec<Vec<char>> = split(s, '\n');
    let ghost all = pieces(s@, '\n');
    let n: usize = p.len();
    let mut out: Vec<Vec<char>> = Vec::new();
    let mut i: usize = 0;
    assert(views(out@) =~= all.subrange(0, 0).map_values(|l: Seq<char>| without_cr(l)));
    while i < n - 1
        invariant
            n == p@.len(),
            n >= 1,
            i <= n - 1,
            views(p@) == all,
            views(out@) == all.subrange(0, i as int).map_values(|l: Seq<char>| without_cr(l)),
        decreases n - i,
    {
        let l: &Vec<char> = &p[i];
        assert(all[i as int] == l@);
        let m: usize = l.len();
        let keep: usize = if m > 0 && l[m - 1] == '\r' {
            m - 1
        } else {
            m
        };
        let line: Vec<char> = slice_of(l.as_slice(), 0, keep);
        assert(line@ =~= without_cr(l@));
        let ghost before = views(out@);
        out.push(line);
        i = i + 1;
        assert(views(out@) =~= before.push(without_cr(all[i - 1])));
        assert(all.subrange(0, i as int).map_values(|l: Seq<char>| without_cr(l))
            =~= all.subrange(0, i - 1).map_values(|l: Seq<char>| without_cr(l)).push(
            without_cr(all[i - 1]),
        ));
    }
    assert(all.drop_last() =~= all.subrange(0, n - 1));
    let tail: &Vec<char> = &p[n - 1];
    assert(all.last() == tail@);
    if tail.len() > 0 {
        let ghost before = views(out@);
        let last: Vec<char> = slice_of(tail.as_slice(), 0, tail.len());
        assert(last@ =~= tail@);
        out.push(last);
        assert(views(out@) =~= before.push(tail@));
    }
    out
}

// ---------------------------------------------------------------- order

/// Whether `a` comes before `b` in dictionary order.
pub open spec fn before(a: Seq<char>, b: Seq<char>) -> bool
    decreases a.len(),
{
    if b.len() == 0 {
        false
    } else if a.len() == 0 {
        true
    } else if a[0] == b[0] {
        before(a.subrange(1, a.len() as int), b.subrange(1, b.len() as int))
    } else {
        a[0] < b[0]
    }
}

/// Whether each text of a list comes before the next ones.
pub open spec fn ascending(l: Seq<Seq<char>>) -> bool {
    forall|i: int, j: int| 0 <= i < j < l.len() ==> before(#[trigger] l[i], #[trigger] l[j])
}

proof fn before_irreflexive(a: Seq<char>)
    ensures
        !before(a, a),
    decreases a.len(),
{
    if a.len() > 0 {
        before_irreflexive(a.subrange(1, a.len() as int));
    }
}

proof fn before_transitive(a: Seq<char>, b: Seq<char>, c: Seq<char>)
    requires
        before(a, b),
        before(b, c),
    ensures
        before(a, c),
    decreases a.len(),
{
    if a.len() > 0 && a[0] == b[0] && b[0] == c[0] {
        before_transitive(
            a.subrange(1, a.len() as int),
            b.subrange(1, b.len() as int),
            c.subrange(1, c.len() as int),
        );
    }
}

proof fn before_total(a: Seq<char>, b: Seq<char>)
    ensures
        before(a, b) || before(b, a) || a == b,
    decreases a.len(),
{
    if a.len() == 0 || b.len() == 0 {
        if a.len() == 0 && b.len() == 0 {
            assert(a =~= b);
        }
    } else if a[0] == b[0] {
        let x = a.subrange(1, a.len() as int);
        let y = b.subrange(1, b.len() as int);
        before_total(x, y);
        if x == y {
            assert(a =~= seq![a[0]] + x);
            assert(b =~= seq![b[0]] + y);
        }
    }
}

/// Whether `a` comes before `b` in dictionary order.
pub fn comes_before(a: &[char], b: &[char]) -> (r: bool)
    ensures
        r == before(a@, b@),
{
    let mut i: usize = 0;
    assert(a@.subrange(0, a@.len() as int) =~= a@);
    assert(b@.subrange(0, b@.len() as int) =~= b@);
    loop
        invariant
            i <= a@.len(),
            i <= b@.len(),
            before(a@, b@) == before(
                a@.subrange(i as int, a@.len() as int),
                b@.subrange(i as int, b@.len() as int),
            ),
        decreases a@.len() - i,
    {
        if i == b.len() {
            return false;
        }
        if i == a.len() {
            return true;
        }
        if a[i] != b[i] {
            return a[i] < b[i];
        }
        assert(a@.subrange(i as int, a@.len() as int).subrange(1, a@.len() - i) =~= a@.subrange(
            i + 1,
            a@.len() as int,
        ));
        assert(b@.subrange(i as int, b@.len() as int).subrange(1, b@.len() - i) =~= b@.subrange(
            i + 1,
            b@.len() as int,
        ));
        i = i + 1;
    }
}

/// Puts a text into its place in an ascending list, unless it is there.
pub fn insert_ascending(l: &mut Vec<Vec<char>>, item: Vec<char>)
    requires
        ascending(views(old(l)@)),
    ensures
        ascending(views(final(l)@)),
        views(final(l)@).to_set() == views(old(l)@).to_set().insert(item@),
{
    let ghost start = views(l@);
    let ghost text = item@;
    let mut i: usize = 0;
    while i < l.len() && comes_before(l[i].as_slice(), item.as_slice())
        invariant
            i <= l@.len(),
            views(l@) == start,
            text == item@,
            forall|j: int| 0 <= j < i ==> before(#[trigger] start[j], text),
        decreases l@.len() - i,
    {
        assert(start[i as int] == l@[i as int]@);
        i = i + 1;
    }
    if i < l.len() {
        assert(start[i as int] == l@[i as int]@);
        if same_chars(l[i].as_slice(), item.as_slice()) {
            assert(start.contains(text));
            assert(start.to_set().insert(text) =~= start.to_set());
            return;
        }
    }
    l.insert(i, item);
    let ghost end = views(l@);
    proof {
        assert(end =~= start.insert(i as int, text));
        assert forall|a: int, b: int| 0 <= a < b < end.len() implies before(
            #[trigger] end[a],
            #[trigger] end[b],
        ) by {
            if i < start.len() {
                before_total(start[i as int], text);
                assert(before(text, start[i as int]));
            }
            if b == i {
                assert(end[a] == start[a]);
            } else if a == i {
                assert(end[b] == start[b - 1]);
                if b - 1 > i {
                    before_transitive(text, start[i as int], start[b - 1]);
                }
            } else {
                let a0 = if a < i {
                    a
                } else {
                    a - 1
                };
                let b0 = if b < i {
                    b
                } else {
                    b - 1
                };
                assert(end[a] == start[a0] && end[b] == start[b0]);
            }
        }
        assert forall|t: Seq<char>| end.to_set().contains(t) == start.to_set().insert(
            text,
        ).contains(t) by {
            if end.contains(t) {
                let k = choose|k: int| 0 <= k < end.len() && end[k] == t;
                if k < i {
                    assert(start[k] == t);
                } else if k > i {
                    assert(start[k - 1] == t);
                }
            }
            if start.contains(t) {
                let k = choose|k: int| 0 <= k < start.len() && start[k] == t;
                if k < i {
                    assert(end[k] == t);
                } else {
                    assert(end[k + 1] == t);
                }
            }
            if t == text {
                assert(end[i as int] == t);
            }
        }
        assert(end.to_set() =~= start.to_set().insert(text));
    }
}

/// An ascending list is fixed by what it holds.
pub proof fn ascending_lists_with_equal_contents_are_equal(a: Seq<Seq<char>>, b: Seq<Seq<char>>)
    requires
        ascending(a),
        ascending(b),
        a.to_set() == b.to_set(),
    ensures
        a == b,
    decreases a.len(),
{
    if a.len() == 0 {
        if b.len() > 0 {
            assert(b.to_set().contains(b[0]));
            assert(a.contains(b[0]));
        }
        assert(a =~= b);
    } else if b.len() == 0 {
        assert(a.to_set().contains(a[0]));
        assert(b.contains(a[0]));
    } else {
        let x = a.last();
        let y = b.last();
        assert(a.to_set().contains(x));
        assert(b.contains(x));
        let i = choose|i: int| 0 <= i < b.len() && b[i] == x;
        assert(b.to_set().contains(y));
        assert(a.contains(y));
        let j = choose|j: int| 0 <= j < a.len() && a[j] == y;
        if x != y {
            assert(before(b[i], b[b.len() - 1]));
            assert(before(a[j], a[a.len() - 1]));
            before_transitive(x, y, x);
            before_irreflexive(x);
        }
        let c = a.drop_last();
        let d = b.drop_last();
        assert forall|t: Seq<char>| c.to_set().contains(t) == d.to_set().contains(t) by {
            if c.contains(t) {
                let k = choose|k: int| 0 <= k < c.len() && c[k] == t;
                assert(a[k] == t);
                assert(a.to_set().contains(t));
                assert(b.contains(t));
                let m = choose|m: int| 0 <= m < b.len() && b[m] == t;
                assert(before(a[k], a[a.len() - 1]));
                before_irreflexive(x);
                assert(m != b.len() - 1);
                assert(d[m] == t);
            }
            if d.contains(t) {
                let k = choose|k: int| 0 <= k < d.len() && d[k] == t;
                assert(b[k] == t);
                assert(b.to_set().contains(t));
                assert(a.contains(t));
                let m = choose|m: int| 0 <= m < a.len() && a[m] == t;
                assert(before(b[k], b[b.len() - 1]));
                before_irreflexive(y);
                assert(m != a.len() - 1);
                assert(c[m] == t);
            }
        }
        assert(c.to_set() =~= d.to_set());
        ascending_lists_with_equal_contents_are_equal(c, d);
        assert(a =~= c.push(x));
        assert(b =~= d.push(y));
    }
}

// ---------------------------------------------------------------- paths

/// The path of a file in a directory. A file with a path from the root is
/// where that says.
pub open spec fn joined(dir: Seq<char>, file: Seq<char>) -> Seq<char> {
    if file.len() > 0 && file[0] == '/' {
        file
    } else if dir.len() == 0 || dir.last() == '/' {
        dir + file
    } else {
        dir.push('/') + file
    }
}

/// The path of a file in a directory.
pub fn join(dir: &str, file: &str) -> (r: String)
    ensures
        r@ == joined(dir@, file@),
{
    let tail: Vec<char> = chars_of(file);
    if tail.len() > 0 && tail[0] == '/' {
        return string_of(tail.as_slice());
    }
    let mut out: Vec<char> = chars_of(dir);
    let n: usize = out.len();
    if n > 0 && out[n - 1] != '/' {
        out.push('/');
    }
    append_chars(&mut out, tail.as_slice());
    string_of(out.as_slice())
}

/// The path of a file in the runtime directory, or in `/tmp` without one.
pub open spec fn runtime_path(dir: Option<String>, file: Seq<char>) -> Seq<char> {
    match dir {
        Some(d) => joined(d@, file),
        None => joined("/tmp"@, file),
    }
}

/// The path of a file in the runtime directory, or in `/tmp` without one.
pub fn in_runtime_dir(dir: &Option<String>, file: &str) -> (r: String)
    ensures
        r@ == runtime_path(*dir, file@),
{
    match dir {
        Some(d) => join(d.as_str(), file),
        None => join("/tmp", file),
    }
}

// ---------------------------------------------------------------- numbers

/// The value of a digit in bases up to sixteen; none for other characters.
pub open spec fn digit_of(c: char) -> Option<int> {
    if '0' <= c && c <= '9' {
        Some(c as u32 - 48)
    } else if 'a' <= c && c <= 'f' {
        Some(c as u32 - 87)
    } else if 'A' <= c && c <= 'F' {
        Some(c as u32 - 55)
    } else {
        None
    }
}

/// The value that the digits of `s` spell in base `radix`; none where a
/// character is no digit of that base.
pub open spec fn digits_value(s: Seq<char>, radix: int) -> Option<int>
    decreases s.len(),
{
    if s.len() == 0 {
        Some(0)
    } else {
        match (digits_value(s.drop_last(), radix), digit_of(s.last())) {
            (Some(v), Some(d)) => if d < radix {
                Some(v * radix + d)
            } else {
                None
            },
            _ => None,
        }
    }
}

/// The number that `s` spells in base `radix`: digits, at least one of them,
/// behind an optional plus sign.
pub open spec fn number(s: Seq<char>, radix: int) -> Option<int> {
    let t = if s.len() > 0 && s[0] == '+' {
        s.subrange(1, s.len() as int)
    } else {
        s
    };
    if t.len() == 0 {
        None
    } else {
        digits_value(t, radix)
    }
}

/// `number`, where it is at most `max`.
pub open spec fn bounded_number(s: Seq<char>, radix: int, max: int) -> Option<int> {
    match number(s, radix) {
        Some(v) => if v <= max {
            Some(v)
        } else {
            None
        },
        None => None,
    }
}

fn digit(c: char) -> (r: Option<u64>)
    ensures
        match r {
            Some(d) => digit_of(c) == Some(d as int) && d < 16,
            None => digit_of(c) is None,
        },
{
    let v: u32 = c as u32;
    if '0' <= c && c <= '9' {
        Some((v - 48) as u64)
    } else if 'a' <= c && c <= 'f' {
        Some((v - 87) as u64)
    } else if 'A' <= c && c <= 'F' {
        Some((v - 55) as u64)
    } else {
        None
    }
}

/// The number that `s` spells in base `radix`, where it is at most `max`.
pub fn parse_number(s: &[char], radix: u64, max: u64) -> (r: Option<u64>)
    requires
        2 <= radix <= 16,
    ensures
        match r {
            Some(v) => bounded_number(s@, radix as int, max as int) == Some(v as int),
            None => bounded_number(s@, radix as int, max as int) is None,
        },
{
    let from: usize = if s.len() > 0 && s[0] == '+' {
        1
    } else {
        0
    };
    let ghost t = if s@.len() > 0 && s@[0] == '+' {
        s@.subrange(1, s@.len() as int)
    } else {
        s@
    };
    assert(t =~= s@.subrange(from as int, s@.len() as int));
    if from == s.len() {
        return None;
    }
    let mut v: u128 = 0;
    let mut over: bool = false;
    let mut i: usize = from;
    while i < s.len()
        invariant
            from <= i <= s@.len(),
            t == s@.subrange(from as int, s@.len() as int),
            number(s@, radix as int) == digits_value(t, radix as int),
            2 <= radix <= 16,
            !over ==> v <= max && digits_value(t.subrange(0, i - from), radix as int) == Some(
                v as int,
            ),
            over ==> {
                let d = digits_value(t.subrange(0, i - from), radix as int);
                d is Some && d->0 > max
            },
        decreases s@.len() - i,
    {
        let ghost upto = t.subrange(0, i + 1 - from);
        assert(upto.drop_last() =~= t.subrange(0, i - from));
        assert(upto.last() == s@[i as int]);
        match digit(s[i]) {
            Some(d) => {
                if d < radix {
                    if over {
                        proof {
                            let w = digits_value(t.subrange(0, i - from), radix as int)->0;
                            assert(w * radix + d > max) by (nonlinear_arith)
                                requires
                                    w > max,
                                    radix >= 2,
                                    d >= 0,
                                    max >= 0,
                            ;
                        }
                    } else {
                        assert(v * radix + d <= max * 16 + 16) by (nonlinear_arith)
                            requires
                                v <= max,
                                0 <= radix <= 16,
                                d < 16,
                        ;
                        v = v * (radix as u128) + (d as u128);
                        if v > max as u128 {
                            over = true;
                        }
                    }
                } else {
                    proof {
                        digits_stay_none(t, radix as int, i + 1 - from);
                    }
                    return None;
                }
            },
            None => {
                proof {
                    digits_stay_none(t, radix as int, i + 1 - from);
                }
                return None;
            },
        }
        i = i + 1;
    }
    assert(t.subrange(0, t.len() as int) =~= t);
    if over {
        None
    } else {
        Some(v as u64)
    }
}

proof fn digits_stay_none(t: Seq<char>, radix: int, n: int)
    requires
        0 <= n <= t.len(),
        digits_value(t.subrange(0, n), radix) is None,
    ensures
        digits_value(t, radix) is None,
    decreases t.len() - n,
{
    if n == t.len() {
        assert(t.subrange(0, n) =~= t);
    } else {
        assert(t.subrange(0, n + 1).drop_last() =~= t.subrange(0, n));
        digits_stay_none(t, radix, n + 1);
    }
}

/// The number that `s` spells in decimal digits behind an optional sign, in
/// the range of 32 bits with a sign.
pub open spec fn signed_number(s: Seq<char>) -> Option<int> {
    if s.len() > 0 && s[0] == '-' {
        let t = s.subrange(1, s.len() as int);
        if t.len() == 0 || digits_value(t, 10) is None || digits_value(t, 10)->0 > 0x8000_0000 {
            None
        } else {
            Some(-(digits_value(t, 10)->0))
        }
    } else {
        bounded_number(s, 10, 0x7FFF_FFFF)
    }
}

/// The number that `s` spells in decimal digits behind an optional sign.
pub fn parse_i32(s: &[char]) -> (r: Option<i32>)
    ensures
        match r {
            Some(v) => signed_number(s@) == Some(v as int),
            None => signed_number(s@) is None,
        },
{
    if s.len() > 0 && s[0] == '-' {
        let t: Vec<char> = slice_of(s, 1, s.len());
        if t.len() > 0 && t[0] == '+' {
            proof {
                let first = t@.subrange(0, 1);
                assert(first.drop_last() =~= Seq::empty());
                assert(first.last() == '+');
                assert(digits_value(first, 10) is None);
                digits_stay_none(t@, 10, 1);
            }
            return None;
        }
        match parse_number(t.as_slice(), 10, 0x8000_0000) {
            Some(v) => {
                let w: i64 = v as i64;
                Some((-w) as i32)
            },
            None => None,
        }
    } else {
        match parse_number(s, 10, 0x7FFF_FFFF) {
            Some(v) => Some(v as i32),
            None => None,
        }
    }
}

/// The process id in a pidfile.
pub open spec fn pid_in(content: Seq<char>) -> Option<int> {
    signed_number(trimmed(content))
}

/// The process id in a pidfile.
pub fn parse_pid(content: &str) -> (r: Option<i32>)
    ensures
        match r {
            Some(v) => pid_in(content@) == Some(v as int),
            None => pid_in(content@) is None,
        },
{
    let t: Vec<char> = trim(chars_of(content).as_slice());
    parse_i32(t.as_slice())
}

/// The hex digit of `v`, in lower case.
pub open spec fn hex_digit(v: int) -> char {
    if v < 10 {
        (48 + v) as char
    } else {
        (87 + v) as char
    }
}

/// Two lower-case hex digits.
pub open spec fn hex_byte(b: u8) -> Seq<char> {
    seq![hex_digit(b as int / 16), hex_digit(b as int % 16)]
}

/// Two hex digits spell the byte that they were made of, and hold no colon.
pub proof fn hex_byte_is_the_byte(b: u8)
    ensures
        bounded_number(hex_byte(b), 16, 255) == Some(b as int),
        !hex_byte(b).contains(':'),
{
    let h = hex_digit(b as int / 16);
    let l = hex_digit(b as int % 16);
    let s = hex_byte(b);
    assert(digit_of(h) == Some(b as int / 16));
    assert(digit_of(l) == Some(b as int % 16));
    assert(s.drop_last() =~= seq![h]);
    assert(seq![h].drop_last() =~= Seq::empty());
    assert(digits_value(Seq::empty(), 16) == Some(0int));
    assert(digits_value(seq![h], 16) == Some(b as int / 16));
    assert(digits_value(s, 16) == Some(b as int));
    assert(s[0] != '+');
    if s.contains(':') {
        let k = choose|k: int| 0 <= k < s.len() && s[k] == ':';
        assert(k == 0 || k == 1);
    }
}

fn hex_char(v: u8) -> (r: char)
    requires
        v < 16,
    ensures
        r == hex_digit(v as int),
{
    if v < 10 {
        (48 + v) as char
    } else {
        (87 + v) as char
    }
}

/// Appends the two lower-case hex digits of `b`.
pub fn append_hex(out: &mut Vec<char>, b: u8)
    ensures
        final(out)@ == old(out)@ + hex_byte(b),
{
    out.push(hex_char(b / 16));
    out.push(hex_char(b % 16));
    assert(out@ =~= old(out)@ + hex_byte(b));
}

/// The decimal digits of `n`.
pub open spec fn decimal(n: nat) -> Seq<char>
    decreases n,
{
    if n < 10 {
        seq![(48 + n) as char]
    } else {
        decimal(n / 10).push((48 + n % 10) as char)
    }
}

/// The decimal digits of `n`.
pub fn decimal_of(n: u64) -> (r: Vec<char>)
    ensures
        r@ == decimal(n as nat),
    decreases n,
{
    if n < 10 {
        let d: u8 = n as u8;
        let mut out: Vec<char> = Vec::new();
        out.push((48 + d) as char);
        assert(out@ =~= decimal(n as nat));
        out
    } else {
        let mut out: Vec<char> = decimal_of(n / 10);
        let d: u8 = (n % 10) as u8;
        out.push((48 + d) as char);
        out
    }
}

/// A directory below one that the environment names, or below the home
/// directory, or `/tmp`.
pub open spec fn base_dir(named: Option<String>, home: Option<String>, below_home: Seq<char>) -> Seq<
    char,
> {
    match named {
        Some(d) => d@,
        None => match home {
            Some(h) => joined(h@, below_home),
            None => "/tmp"@,
        },
    }
}

pub fn base(named: &Option<String>, home: &Option<String>, below_home: &str) -> (r: String)
    ensures
        r@ == base_dir(*named, *home, below_home@),
{
    match named {
        Some(d) => d.clone(),
        None => match home {
            Some(h) => join(h.as_str(), below_home),
            None => "/tmp".to_owned(),
        },
    }
}

/// Whether every character is white space.
pub open spec fn all_white(s: Seq<char>) -> bool {
    forall|i: int| 0 <= i < s.len() ==> is_white(#[trigger] s[i])
}

/// Among ASCII, white space is the blank and the five characters from tab to
/// carriage return.
pub proof fn plain_white_space(c: char)
    requires
        c as u32 <= 0x7F,
    ensures
        is_white(c) <==> c == ' ' || 9 <= c as u32 <= 13,
{
}

proof fn white_tail_goes(t: Seq<char>, w: Seq<char>)
    requires
        all_white(w),
        t.len() > 0 ==> !is_white(t.last()),
    ensures
        trim_end(t + w) == t,
    decreases w.len(),
{
    if w.len() == 0 {
        assert(t + w =~= t);
    } else {
        assert((t + w).last() == w.last());
        assert(is_white(w[w.len() - 1]));
        assert((t + w).drop_last() =~= t + w.drop_last());
        assert forall|i: int| 0 <= i < w.drop_last().len() implies is_white(
            #[trigger] w.drop_last()[i],
        ) by {
            assert(w.drop_last()[i] == w[i]);
        }
        white_tail_goes(t, w.drop_last());
    }
}

/// Trimming takes all white space off both ends, and nothing else: a text that
/// neither begins nor ends with white space comes back from between any two
/// stretches of it.
pub proof fn trimming_takes_white_ends(a: Seq<char>, t: Seq<char>, b: Seq<char>)
    requires
        all_white(a),
        all_white(b),
        t.len() > 0,
        !is_white(t[0]),
        !is_white(t.last()),
    ensures
        trimmed(a + t + b) == t,
        trimmed(a).len() == 0,
    decreases a.len(),
{
    if a.len() == 0 {
        assert(a + t + b =~= t + b);
        assert((t + b)[0] == t[0]);
        white_tail_goes(t, b);
    } else {
        let rest = a.subrange(1, a.len() as int);
        assert(is_white(a[0]));
        assert((a + t + b)[0] == a[0]);
        assert((a + t + b).subrange(1, (a + t + b).len() as int) =~= rest + t + b);
        assert forall|i: int| 0 <= i < rest.len() implies is_white(#[trigger] rest[i]) by {
            assert(rest[i] == a[i + 1]);
        }
        trimming_takes_white_ends(rest, t, b);
    }
}

/// Words end at white space: one more white character behind a text ends its
/// last word and adds none, and a stretch without white space behind it is one
/// more word.
pub proof fn words_end_at_white_space(s: Seq<char>, c: char, w: Seq<char>)
    requires
        is_white(c),
        w.len() > 0,
        forall|i: int| 0 <= i < w.len() ==> !is_white(#[trigger] w[i]),
    ensures
        words_of(Seq::empty()).len() == 0,
        words_of(s.push(c)) == words_of(s),
        words_of(s.push(c) + w) == words_of(s).push(w),
{
    assert(s.push(c).drop_last() =~= s);
    word_under_way(s.push(c), w);
}

proof fn word_under_way(s: Seq<char>, w: Seq<char>)
    requires
        word_scan(s).1.len() == 0,
        forall|i: int| 0 <= i < w.len() ==> !is_white(#[trigger] w[i]),
    ensures
        word_scan(s + w).0 == word_scan(s).0,
        word_scan(s + w).1 == w,
    decreases w.len(),
{
    if w.len() == 0 {
        assert(s + w =~= s);
        assert(w =~= Seq::<char>::empty());
        assert(word_scan(s).1 =~= Seq::<char>::empty());
    } else {
        assert((s + w).drop_last() =~= s + w.drop_last());
        assert(!is_white(w[w.len() - 1]));
        assert forall|i: int| 0 <= i < w.drop_last().len() implies !is_white(
            #[trigger] w.drop_last()[i],
        ) by {
            assert(w.drop_last()[i] == w[i]);
        }
        word_under_way(s, w.drop_last());
        assert(w.drop_last().push(w.last()) =~= w);
    }
}

/// Lines stand between line feeds, in order, each without a carriage return in
/// front of its feed; what follows the last feed is a line unless it is empty.
pub proof fn lines_stand_between_feeds(parts: Seq<Seq<char>>, i: int)
    requires
        parts.len() >= 1,
        forall|k: int| 0 <= k < parts.len() ==> !(#[trigger] parts[k]).contains('\n'),
        0 <= i < parts.len(),
    ensures
        ({
            let l = lines_of(glued(parts, '\n'));
            let n = parts.len() as int;
            &&& parts.last().len() == 0 ==> l.len() == n - 1
            &&& parts.last().len() > 0 ==> l.len() == n && l[n - 1] == parts[n - 1]
            &&& i < n - 1 && parts[i].len() > 0 && parts[i].last() == '\r' ==> l[i]
                == parts[i].drop_last()
            &&& i < n - 1 && !(parts[i].len() > 0 && parts[i].last() == '\r') ==> l[i] == parts[i]
        }),
{
    split_undoes_glue(parts, '\n');
}

/// Lowering touches the 26 capitals of ASCII, each by its own small letter, 32
/// further on.
pub proof fn capitals_become_small(s: Seq<char>, i: int)
    requires
        0 <= i < s.len(),
    ensures
        lower(s).len() == s.len(),
        65 <= s[i] as u32 <= 90 ==> lower(s)[i] as u32 == s[i] as u32 + 32,
        !(65 <= s[i] as u32 <= 90) ==> lower(s)[i] == s[i],
{
}

/// The digits that a number prints as spell it, alone and behind a plus sign,
/// and behind a minus sign its negative.
pub proof fn printed_numbers_read_back(n: nat, max: int)
    ensures
        decimal(n).len() > 0,
        n <= max ==> bounded_number(decimal(n), 10, max) == Some(n as int),
        n <= max ==> bounded_number(seq!['+'] + decimal(n), 10, max) == Some(n as int),
        n > max ==> bounded_number(decimal(n), 10, max) is None,
        n <= 0x8000_0000 ==> signed_number(seq!['-'] + decimal(n)) == Some(-(n as int)),
        n <= 0x7FFF_FFFF ==> signed_number(decimal(n)) == Some(n as int),
        n > 0x8000_0000 ==> signed_number(seq!['-'] + decimal(n)) is None,
        bounded_number(Seq::empty(), 10, max) is None,
{
    decimal_spells(n);
    let d = decimal(n);
    assert((seq!['+'] + d).subrange(1, 1 + d.len() as int) =~= d);
    assert((seq!['-'] + d).subrange(1, 1 + d.len() as int) =~= d);
}

proof fn decimal_spells(n: nat)
    ensures
        digits_value(decimal(n), 10) == Some(n as int),
        decimal(n).len() > 0,
        48 <= decimal(n)[0] as u32 <= 57,
    decreases n,
{
    reveal_with_fuel(digits_value, 2);
    if n < 10 {
        let s = decimal(n);
        assert(s.drop_last() =~= Seq::<char>::empty());
        assert(digit_of(s.last()) == Some(n as int));
    } else {
        decimal_spells(n / 10);
        let s = decimal(n);
        assert(s.drop_last() =~= decimal(n / 10));
        assert(digit_of(s.last()) == Some(n as int % 10));
    }
}

/// The digits of bases up to sixteen: letters count on from ten, small or
/// capital.
pub proof fn digits_have_their_value(c: char, v: int)
    ensures
        0 <= v <= 9 && c as u32 == 48 + v ==> digit_of(c) == Some(v),
        10 <= v <= 15 && c as u32 == 97 + v - 10 ==> digit_of(c) == Some(v),
        10 <= v <= 15 && c as u32 == 65 + v - 10 ==> digit_of(c) == Some(v),
        digit_of(c) is Some ==> 48 <= c as u32 <= 57 || 97 <= c as u32 <= 102 || 65 <= c as u32
            <= 70,
{
}

/// One more digit behind a number multiplies it by the base and adds the
/// digit; a character that is no digit of the base spoils it.
pub proof fn digits_count_by_the_base(s: Seq<char>, c: char, radix: int)
    ensures
        digits_value(s, radix) is Some && digit_of(c) is Some && digit_of(c)->0 < radix
            ==> digits_value(s.push(c), radix) == Some(
            (digits_value(s, radix)->0) * radix + digit_of(c)->0,
        ),
        digits_value(s, radix) is None || digit_of(c) is None || digit_of(c)->0 >= radix
            ==> digits_value(s.push(c), radix) is None,
{
    assert(s.push(c).drop_last() =~= s);
}

/// Dictionary order: the first character that differs decides, and a text
/// comes before every longer one that begins with it.
pub proof fn first_difference_decides(p: Seq<char>, a: Seq<char>, b: Seq<char>)
    requires
        b.len() > 0,
        a.len() > 0 ==> a[0] != b[0],
    ensures
        a.len() > 0 ==> (before(p + a, p + b) <==> a[0] < b[0]),
        before(p, p + b),
        !before(p + b, p),
    decreases p.len(),
{
    if p.len() == 0 {
        assert(p + a =~= a);
        assert(p + b =~= b);
    } else {
        let q = p.subrange(1, p.len() as int);
        first_difference_decides(q, a, b);
        assert((p + a).subrange(1, (p + a).len() as int) =~= q + a);
        assert((p + b).subrange(1, (p + b).len() as int) =~= q + b);
    }
}

/// A file in a directory is behind it and one slash; a file with a path from
/// the root is where that says.
pub proof fn joined_paths_have_one_slash(dir: Seq<char>, file: Seq<char>)
    ensures
        file.len() > 0 && file[0] == '/' ==> joined(dir, file) == file,
        (file.len() == 0 || file[0] != '/') && dir.len() > 0 && dir.last() == '/' ==> joined(
            dir,
            file,
        ) == dir + file,
        (file.len() == 0 || file[0] != '/') && dir.len() > 0 && dir.last() != '/' ==> joined(
            dir,
            file,
        ) == dir + seq!['/'] + file,
        (file.len() == 0 || file[0] != '/') && dir.len() == 0 ==> joined(dir, file) == file,
{
    assert(dir.push('/') + file =~= dir + seq!['/'] + file);
    assert(Seq::<char>::empty() + file =~= file);
}

/// As many characters fit as there is room for: the next one would not.
pub proof fn no_more_characters_fit(s: Seq<char>, budget: int)
    requires
        fitting(s, budget) < s.len(),
    ensures
        byte_len(s.subrange(0, fitting(s, budget) as int + 1)) > budget,
    decreases s.len(),
{
    let n = fitting(s.drop_last(), budget);
    let m = s.len() - 1;
    if n == m {
        assert(s.subrange(0, m + 1) =~= s);
    } else {
        fitting_at_most(s.drop_last(), budget);
        no_more_characters_fit(s.drop_last(), budget);
        assert(s.drop_last().subrange(0, n as int + 1) =~= s.subrange(0, n as int + 1));
    }
}

proof fn fitting_at_most(s: Seq<char>, budget: int)
    ensures
        fitting(s, budget) <= s.len(),
    decreases s.len(),
{
    if s.len() > 0 {
        fitting_at_most(s.drop_last(), budget);
    }
}

/// Files of a session stand in the runtime directory, or in /tmp; other
/// directories where the environment names them, else below the home
/// directory, else /tmp.
pub proof fn directories_fall_back(
    dir: Option<String>,
    home: Option<String>,
    file: Seq<char>,
)
    ensures
        dir is Some ==> runtime_path(dir, file) == joined((dir->0)@, file),
        dir is None ==> runtime_path(dir, file) == joined("/tmp"@, file),
        dir is Some ==> base_dir(dir, home, file) == (dir->0)@,
        dir is None && home is Some ==> base_dir(dir, home, file) == joined((home->0)@, file),
        dir is None && home is None ==> base_dir(dir, home, file) == "/tmp"@,
{
}

/// A pidfile holds a number, whatever white space stands around it.
pub proof fn pids_are_read_from_their_digits(a: Seq<char>, n: nat, b: Seq<char>)
    requires
        all_white(a),
        all_white(b),
        n <= 0x7FFF_FFFF,
    ensures
        pid_in(a + decimal(n) + b) == Some(n as int),
{
    decimal_spells(n);
    decimal_ends(n);
    trimming_takes_white_ends(a, decimal(n), b);
    printed_numbers_read_back(n, 0x7FFF_FFFF);
}

proof fn decimal_ends(n: nat)
    ensures
        48 <= decimal(n).last() as u32 <= 57,
{
}

/// A text begins with another exactly where it is that one and something
/// behind it, which is what is left without it.
pub proof fn prefixes_come_off(p: Seq<char>, s: Seq<char>, t: Seq<char>)
    ensures
        has_prefix(p + s, p),
        without_prefix(p + s, p) == Some(s),
        has_prefix(t, p) ==> t == p + t.subrange(p.len() as int, t.len() as int),
        t.len() < p.len() ==> !has_prefix(t, p),
        occurs(t + p + s, p),
{
    assert((p + s).subrange(0, p.len() as int) =~= p);
    assert((p + s).subrange(p.len() as int, (p + s).len() as int) =~= s);
    if has_prefix(t, p) {
        assert(t =~= p + t.subrange(p.len() as int, t.len() as int));
    }
    let k = t.len() as int;
    assert((t + p + s).subrange(k, k + p.len()) =~= p);
}

/// A list of texts is what it holds, in order.
pub proof fn lists_are_what_they_hold(v: Seq<Vec<char>>, i: int)
    requires
        0 <= i < v.len(),
    ensures
        views(v).len() == v.len(),
        views(v)[i] == v[i]@,
{
}

} // verus!
