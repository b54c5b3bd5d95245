use vstd::prelude::*;
use vstd::string::StringSliceAdditionalSpecFns;

verus! {

/// ASCII whitespace: space, tab, line feed, carriage return, vertical tab, form feed.
pub open spec fn is_space(c: u8) -> bool {
    c == 32 || c == 9 || c == 10 || c == 13 || c == 11 || c == 12
}

pub open spec fn is_digit(c: u8) -> bool {
    48 <= c <= 57
}

/// Whether three bytes encode a whitespace character outside Latin-1:
/// U+1680, U+2000 to U+200A, U+2028, U+2029, U+202F, U+205F or U+3000.
pub open spec fn is_wide_space(a: u8, b: u8, c: u8) -> bool {
    (a == 0xe1 && b == 0x9a && c == 0x80) || (a == 0xe2 && b == 0x80 && ((0x80 <= c <= 0x8a)
        || c == 0xa8 || c == 0xa9 || c == 0xaf)) || (a == 0xe2 && b == 0x81 && c == 0x9f) || (a
        == 0xe3 && b == 0x80 && c == 0x80)
}

/// Whether two bytes encode U+0085 or U+00A0.
pub open spec fn is_latin_space(a: u8, b: u8) -> bool {
    a == 0xc2 && (b == 0x85 || b == 0xa0)
}

/// Length of the Unicode whitespace character that opens the UTF-8 text
/// `b`; 0 when it opens with none.
pub open spec fn space_len(b: Seq<u8>) -> int {
    if b.len() >= 1 && is_space(b[0]) {
        1
    } else if b.len() >= 2 && is_latin_space(b[0], b[1]) {
        2
    } else if b.len() >= 3 && is_wide_space(b[0], b[1], b[2]) {
        3
    } else {
        0
    }
}

/// Length of the Unicode whitespace character that ends the UTF-8 text
/// `b`; 0 when it ends with none.
pub open spec fn space_len_end(b: Seq<u8>) -> int {
    let n = b.len() as int;
    if n >= 1 && is_space(b[n - 1]) {
        1
    } else if n >= 2 && is_latin_space(b[n - 2], b[n - 1]) {
        2
    } else if n >= 3 && is_wide_space(b[n - 3], b[n - 2], b[n - 1]) {
        3
    } else {
        0
    }
}

/// Leading Unicode whitespace removed.
pub open spec fn trim_start(b: Seq<u8>) -> Seq<u8>
    decreases b.len(),
{
    if space_len(b) > 0 {
        trim_start(b.skip(space_len(b)))
    } else {
        b
    }
}

/// Trailing Unicode whitespace removed.
pub open spec fn trim_end(b: Seq<u8>) -> Seq<u8>
    decreases b.len(),
{
    if space_len_end(b) > 0 {
        trim_end(b.take(b.len() - space_len_end(b)))
    } else {
        b
    }
}

/// The UTF-8 text `b` without the Unicode whitespace around it.
pub open spec fn trim(b: Seq<u8>) -> Seq<u8> {
    trim_end(trim_start(b))
}

/// The number that decimal digits spell, most significant first.
pub open spec fn decimal_value(d: Seq<u8>) -> int
    decreases d.len(),
{
    if d.len() == 0 {
        0
    } else {
        decimal_value(d.drop_last()) * 10 + (d.last() - 48)
    }
}

/// `b` without its leading '+', if any.
pub open spec fn unsigned_part(b: Seq<u8>) -> Seq<u8> {
    if b.len() > 0 && b[0] == 43 {
        b.drop_first()
    } else {
        b
    }
}

pub open spec fn all_decimal(d: Seq<u8>) -> bool {
    forall|i: int| 0 <= i < d.len() ==> is_digit(#[trigger] d[i])
}

/// A `u8` written in decimal, with an optional leading '+'.
pub open spec fn parse_u8_spec(b: Seq<u8>) -> Option<u8> {
    let d = unsigned_part(b);
    if d.len() == 0 || !all_decimal(d) {
        None
    } else if decimal_value(d) > 255 {
        None
    } else {
        Some(decimal_value(d) as u8)
    }
}

pub open spec fn has_prefix(b: Seq<u8>, p: Seq<u8>) -> bool {
    p.len() <= b.len() && b.subrange(0, p.len() as int) == p
}

pub(crate) fn is_space_byte(c: u8) -> (r: bool)
    ensures
        r == is_space(c),
{
    c == 32 || c == 9 || c == 10 || c == 13 || c == 11 || c == 12
}

/// Length of the whitespace character that opens `b[s..e]`.
pub(crate) fn space_len_at(b: &[u8], s: usize, e: usize) -> (r: usize)
    requires
        s <= e <= b@.len(),
    ensures
        r == space_len(b@.subrange(s as int, e as int)),
{
    let n = e - s;
    if n >= 1 && is_space_byte(b[s]) {
        1
    } else if n >= 2 && b[s] == 0xc2 && (b[s + 1] == 0x85 || b[s + 1] == 0xa0) {
        2
    } else if n >= 3 && is_wide_space_bytes(b[s], b[s + 1], b[s + 2]) {
        3
    } else {
        0
    }
}

/// Length of the whitespace character that ends `b[s..e]`.
fn space_len_before(b: &[u8], s: usize, e: usize) -> (r: usize)
    requires
        s <= e <= b@.len(),
    ensures
        r == space_len_end(b@.subrange(s as int, e as int)),
{
    let n = e - s;
    if n >= 1 && is_space_byte(b[e - 1]) {
        1
    } else if n >= 2 && b[e - 2] == 0xc2 && (b[e - 1] == 0x85 || b[e - 1] == 0xa0) {
        2
    } else if n >= 3 && is_wide_space_bytes(b[e - 3], b[e - 2], b[e - 1]) {
        3
    } else {
        0
    }
}

fn is_wide_space_bytes(a: u8, b: u8, c: u8) -> (r: bool)
    ensures
        r == is_wide_space(a, b, c),
{
    (a == 0xe1 && b == 0x9a && c == 0x80) || (a == 0xe2 && b == 0x80 && ((0x80 <= c && c <= 0x8a)
        || c == 0xa8 || c == 0xa9 || c == 0xaf)) || (a == 0xe2 && b == 0x81 && c == 0x9f) || (a
        == 0xe3 && b == 0x80 && c == 0x80)
}

/// Bounds of `b` with the Unicode whitespace around it left out.
pub(crate) fn trim_bounds(b: &[u8]) -> (r: (usize, usize))
    ensures
        r.0 <= r.1 <= b@.len(),
        b@.subrange(r.0 as int, r.1 as int) == trim(b@),
{
    let n = b.len();
    let mut s: usize = 0;
    assert(b@.subrange(0, n as int) =~= b@);
    let mut k = space_len_at(b, 0, n);
    while k > 0
        invariant
            n == b@.len(),
            s <= n,
            k == space_len(b@.subrange(s as int, n as int)),
            trim_start(b@) == trim_start(b@.subrange(s as int, n as int)),
        decreases n - s,
    {
        assert(b@.subrange(s as int, n as int).skip(k as int) =~= b@.subrange(s + k, n as int));
        s = s + k;
        k = space_len_at(b, s, n);
    }
    let mut e: usize = n;
    let mut j = space_len_before(b, s, n);
    while j > 0
        invariant
            n == b@.len(),
            s <= e <= n,
            j == space_len_end(b@.subrange(s as int, e as int)),
            trim_end(b@.subrange(s as int, n as int)) == trim_end(b@.subrange(s as int, e as int)),
        decreases e - s,
    {
        assert(b@.subrange(s as int, e as int).take(e - s - j) =~= b@.subrange(s as int, e - j));
        e = e - j;
        j = space_len_before(b, s, e);
    }
    (s, e)
}

/// Parses a `u8` written in decimal with an optional leading '+'.
pub fn parse_u8(b: &[u8]) -> (r: Option<u8>)
    ensures
        r == parse_u8_spec(b@),
{
    let n = b.len();
    let start: usize = if n > 0 && b[0] == 43 { 1 } else { 0 };
    let ghost d = unsigned_part(b@);
    assert(d =~= b@.skip(start as int));
    if start == n {
        return None;
    }
    let mut val: u32 = 0;
    let mut i: usize = start;
    while i < n
        invariant
            n == b@.len(),
            start <= i <= n,
            d == b@.skip(start as int),
            d == unsigned_part(b@),
            forall|j: int| start <= j < i ==> is_digit(#[trigger] b@[j]),
            val == (if decimal_value(d.take(i - start)) > 255 {
                256
            } else {
                decimal_value(d.take(i - start))
            }),
        decreases n - i,
    {
        let c = b[i];
        if c < 48 || c > 57 {
            assert(d.len() == n - start);
            assert(d[i - start] == c);
            assert(!is_digit(d[i - start]));
            return None;
        }
        proof {
            assert(d.take(i - start + 1).drop_last() =~= d.take(i - start));
            assert(d.take(i - start + 1).last() == c);
        }
        if val <= 255 {
            val = val * 10 + (c - 48) as u32;
        }
        if val > 256 {
            val = 256;
        }
        i = i + 1;
    }
    assert(d.take(n - start) =~= d);
    assert forall|j: int| 0 <= j < d.len() implies is_digit(#[trigger] d[j]) by {
        assert(d[j] == b@[j + start]);
    }
    if val > 255 {
        None
    } else {
        Some(val as u8)
    }
}

/// Whether `b` opens with `p`.
pub(crate) fn starts_with(b: &[u8], p: &[u8]) -> (r: bool)
    ensures
        r == has_prefix(b@, p@),
{
    if p.len() > b.len() {
        return false;
    }
    let mut i: usize = 0;
    while i < p.len()
        invariant
            p@.len() <= b@.len(),
            i <= p@.len(),
            forall|j: int| 0 <= j < i ==> b@[j] == p@[j],
        decreases p@.len() - i,
    {
        if b[i] != p[i] {
            assert(b@.subrange(0, p@.len() as int)[i as int] != p@[i as int]);
            return false;
        }
        i = i + 1;
    }
    assert(b@.subrange(0, p@.len() as int) =~= p@);
    true
}

/// A `u32` written in decimal, with an optional leading '+'.
pub open spec fn parse_u32_spec(b: Seq<u8>) -> Option<u32> {
    let d = unsigned_part(b);
    if d.len() == 0 || !all_decimal(d) {
        None
    } else if decimal_value(d) > u32::MAX {
        None
    } else {
        Some(decimal_value(d) as u32)
    }
}

/// Parses a `u32` written in decimal with an optional leading '+'.
pub fn parse_u32(b: &[u8]) -> (r: Option<u32>)
    ensures
        r == parse_u32_spec(b@),
{
    let n = b.len();
    let start: usize = if n > 0 && b[0] == 43 { 1 } else { 0 };
    let ghost d = unsigned_part(b@);
    assert(d =~= b@.skip(start as int));
    if start == n {
        return None;
    }
    let mut val: u64 = 0;
    let mut i: usize = start;
    while i < n
        invariant
            n == b@.len(),
            start <= i <= n,
            d == b@.skip(start as int),
            d == unsigned_part(b@),
            forall|j: int| start <= j < i ==> is_digit(#[trigger] b@[j]),
            val == (if decimal_value(d.take(i - start)) > u32::MAX {
                u32::MAX + 1
            } else {
                decimal_value(d.take(i - start))
            }),
        decreases n - i,
    {
        let c = b[i];
        if c < 48 || c > 57 {
            assert(d.len() == n - start);
            assert(d[i - start] == c);
            assert(!is_digit(d[i - start]));
            return None;
        }
        proof {
            assert(d.take(i - start + 1).drop_last() =~= d.take(i - start));
            assert(d.take(i - start + 1).last() == c);
        }
        if val <= 0xffff_ffff {
            val = val * 10 + (c - 48) as u64;
        }
        if val > 0x1_0000_0000 {
            val = 0x1_0000_0000;
        }
        i = i + 1;
    }
    assert(d.take(n - start) =~= d);
    assert forall|j: int| 0 <= j < d.len() implies is_digit(#[trigger] d[j]) by {
        assert(d[j] == b@[j + start]);
    }
    if val > 0xffff_ffff {
        None
    } else {
        Some(val as u32)
    }
}

/// Parses a `u32` written in decimal, surrounding whitespace aside.
pub fn parse_trimmed_u32(text: &str) -> (r: Option<u32>)
    ensures
        r == parse_u32_spec(trim(text.spec_bytes())),
{
    let b = text.as_bytes();
    let (s, e) = trim_bounds(b);
    parse_u32(&b[s..e])
}

} // verus!
