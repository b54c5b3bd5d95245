use vstd::prelude::*;

verus! {

/// Little-endian bytes of a `u16`.
pub open spec fn u16_le(v: u16) -> Seq<u8> {
    seq![(v % 256) as u8, (v / 256) as u8]
}

/// Little-endian bytes of a `u32`.
pub open spec fn u32_le(v: u32) -> Seq<u8> {
    seq![
        (v % 256) as u8,
        ((v / 256) % 256) as u8,
        ((v / 65536) % 256) as u8,
        (v / 16777216) as u8,
    ]
}

/// Little-endian bytes of a `u64`: the low half, then the high half.
pub open spec fn u64_le(v: u64) -> Seq<u8> {
    u32_le((v % 4294967296) as u32) + u32_le((v / 4294967296) as u32)
}

/// The `u16` whose little-endian bytes open `b`.
pub open spec fn u16_from_le(b: Seq<u8>) -> u16 {
    (b[0] + 256 * b[1]) as u16
}

/// The `u32` whose little-endian bytes open `b`.
pub open spec fn u32_from_le(b: Seq<u8>) -> u32 {
    (b[0] + 256 * b[1] + 65536 * b[2] + 16777216 * b[3]) as u32
}

/// The `u64` whose little-endian bytes open `b`.
pub open spec fn u64_from_le(b: Seq<u8>) -> u64 {
    (u32_from_le(b) + 4294967296 * u32_from_le(b.subrange(4, 8))) as u64
}

pub proof fn lemma_u16_round_trip(v: u16)
    ensures
        u16_from_le(u16_le(v)) == v,
{
}

pub proof fn lemma_u32_round_trip(v: u32)
    ensures
        u32_from_le(u32_le(v)) == v,
{
}

pub proof fn lemma_u64_round_trip(v: u64)
    ensures
        u64_from_le(u64_le(v)) == v,
{
    let lo = (v % 4294967296) as u32;
    let hi = (v / 4294967296) as u32;
    lemma_u32_round_trip(lo);
    lemma_u32_round_trip(hi);
    assert(u64_le(v).subrange(4, 8) =~= u32_le(hi));
}

/// Appends the little-endian bytes of `value`.
pub fn write_u16(out: &mut Vec<u8>, value: u16)
    ensures
        final(out)@ == old(out)@ + u16_le(value),
{
    out.push((value % 256) as u8);
    out.push((value / 256) as u8);
    assert(out@ =~= old(out)@ + u16_le(value));
}

/// Appends the little-endian bytes of `value`.
pub fn write_u32(out: &mut Vec<u8>, value: u32)
    ensures
        final(out)@ == old(out)@ + u32_le(value),
{
    out.push((value % 256) as u8);
    out.push(((value / 256) % 256) as u8);
    out.push(((value / 65536) % 256) as u8);
    out.push((value / 16777216) as u8);
    assert(out@ =~= old(out)@ + u32_le(value));
}

/// Appends the little-endian bytes of `value`.
pub fn write_u64(out: &mut Vec<u8>, value: u64)
    ensures
        final(out)@ == old(out)@ + u64_le(value),
{
    let ghost start = out@;
    write_u32(out, (value % 4294967296) as u32);
    write_u32(out, (value / 4294967296) as u32);
    assert(out@ =~= start + u64_le(value));
}

/// Appends every byte of `src`.
pub fn write_bytes(out: &mut Vec<u8>, src: &[u8])
    ensures
        final(out)@ == old(out)@ + src@,
{
    let ghost start = out@;
    let mut i: usize = 0;
    while i < src.len()
        invariant
            i <= src@.len(),
            out@ == start + src@.subrange(0, i as int),
        decreases src@.len() - i,
    {
        out.push(src[i]);
        i = i + 1;
        assert(out@ =~= start + src@.subrange(0, i as int));
    }
    assert(src@.subrange(0, i as int) =~= src@);
}

/// Reads a little-endian `u16` at `pos`; `None` when fewer than two bytes remain.
pub fn read_u16(data: &[u8], pos: usize) -> (r: Option<u16>)
    ensures
        r is Some <==> pos + 2 <= data@.len(),
        r matches Some(v) ==> v == u16_from_le(data@.subrange(pos as int, pos + 2)),
{
    if pos > data.len() || data.len() - pos < 2 {
        return None;
    }
    Some(data[pos] as u16 + 256 * data[pos + 1] as u16)
}

/// Reads a little-endian `u32` at `pos`; `None` when fewer than four bytes remain.
pub fn read_u32(data: &[u8], pos: usize) -> (r: Option<u32>)
    ensures
        r is Some <==> pos + 4 <= data@.len(),
        r matches Some(v) ==> v == u32_from_le(data@.subrange(pos as int, pos + 4)),
{
    if pos > data.len() || data.len() - pos < 4 {
        return None;
    }
    Some(
        data[pos] as u32 + 256 * data[pos + 1] as u32 + 65536 * data[pos + 2] as u32
            + 16777216 * data[pos + 3] as u32,
    )
}

/// Reads a little-endian `u64` at `pos`; `None` when fewer than eight bytes remain.
pub fn read_u64(data: &[u8], pos: usize) -> (r: Option<u64>)
    ensures
        r is Some <==> pos + 8 <= data@.len(),
        r matches Some(v) ==> v == u64_from_le(data@.subrange(pos as int, pos + 8)),
{
    if pos > data.len() || data.len() - pos < 8 {
        return None;
    }
    let lo = read_u32(data, pos).unwrap();
    let hi = read_u32(data, pos + 4).unwrap();
    assert(data@.subrange(pos as int, pos + 8).subrange(4, 8) =~= data@.subrange(
        pos + 4,
        pos + 8,
    ));
    assert(data@.subrange(pos as int, pos + 8).subrange(0, 4) =~= data@.subrange(
        pos as int,
        pos + 4,
    ));
    Some(lo as u64 + 4294967296 * hi as u64)
}

/// Whether two byte strings are equal.
pub fn bytes_equal(a: &[u8], b: &[u8]) -> (r: bool)
    ensures
        r == (a@ == b@),
{
    if a.len() != b.len() {
        return false;
    }
    let mut i: usize = 0;
    while i < a.len()
        invariant
            a@.len() == b@.len(),
            i <= a@.len(),
            forall|j: int| 0 <= j < i ==> a@[j] == b@[j],
        decreases a@.len() - i,
    {
        if a[i] != b[i] {
            return false;
        }
        i = i + 1;
    }
    assert(a@ =~= b@);
    true
}

} // verus!
