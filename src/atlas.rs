use vstd::prelude::*;
use vstd::string::StringSliceAdditionalSpecFns;

use crate::bytes::{
    read_u16, read_u32, read_u64, u16_from_le, u16_le, u32_from_le, u32_le, u64_from_le, u64_le,
    write_bytes, write_u16, write_u32, write_u64,
};
use crate::glyph::{GlyphCache, GlyphView, RasterizedGlyph, GLYPH_COUNT};

verus! {

/// What identifies the font rasterization an atlas was built from, besides
/// the font's path: its modification time and the bit pattern of the size.
#[derive(Clone, Copy, Debug, PartialEq, Eq, Structural)]
pub struct AtlasKey {
    pub mtime_sec: u64,
    pub mtime_nsec: u32,
    pub size_bits: u32,
}

/// Why an atlas was refused.
#[derive(Clone, Copy, Debug, PartialEq, Eq, Structural)]
pub enum AtlasError {
    /// The bytes end before a field they announce.
    Truncated,
    /// The file does not open with the atlas tag.
    BadMagic,
    /// The atlas was built for another font path.
    PathMismatch,
    /// The font changed since the atlas was built.
    TimestampMismatch,
    /// The atlas was built for another size.
    SizeMismatch,
    /// A glyph's coverage length disagrees with its dimensions.
    BadGlyph,
}

/// The tag that opens every atlas: "LBAT1".
pub open spec fn magic() -> Seq<u8> {
    seq![76u8, 66u8, 65u8, 84u8, 49u8]
}

/// Bytes of one glyph record: width, height, coverage length, coverage.
pub open spec fn glyph_record(g: GlyphView) -> Seq<u8> {
    u16_le(g.width as u16) + u16_le(g.height as u16) + u32_le(g.coverage.len() as u32)
        + g.coverage
}

pub open spec fn glyph_records(gs: Seq<GlyphView>) -> Seq<u8>
    decreases gs.len(),
{
    if gs.len() == 0 {
        Seq::empty()
    } else {
        glyph_record(gs[0]) + glyph_records(gs.drop_first())
    }
}

pub open spec fn atlas_header(path: Seq<u8>, key: AtlasKey) -> Seq<u8> {
    magic() + u32_le(path.len() as u32) + path + u64_le(key.mtime_sec) + u32_le(key.mtime_nsec)
        + u32_le(key.size_bits)
}

/// The whole atlas file for glyphs `gs` of the font at `path`.
pub open spec fn atlas_bytes(path: Seq<u8>, key: AtlasKey, gs: Seq<GlyphView>) -> Seq<u8> {
    atlas_header(path, key) + glyph_records(gs)
}

/// Reads the glyph record at `pos`: the glyph and where the next record starts.
pub open spec fn parse_record(b: Seq<u8>, pos: int) -> Result<(GlyphView, int), AtlasError> {
    if pos + 8 > b.len() {
        Err(AtlasError::Truncated)
    } else {
        let w = u16_from_le(b.subrange(pos, pos + 2));
        let h = u16_from_le(b.subrange(pos + 2, pos + 4));
        let n = u32_from_le(b.subrange(pos + 4, pos + 8));
        if n != w * h {
            Err(AtlasError::BadGlyph)
        } else if pos + 8 + n > b.len() {
            Err(AtlasError::Truncated)
        } else {
            Ok(
                (
                    GlyphView {
                        width: w as nat,
                        height: h as nat,
                        coverage: b.subrange(pos + 8, pos + 8 + n),
                    },
                    pos + 8 + n,
                ),
            )
        }
    }
}

/// Reads `n` glyph records from `pos` on, after the glyphs `acc` already read.
pub open spec fn parse_records(b: Seq<u8>, pos: int, n: nat, acc: Seq<GlyphView>) -> Result<
    Seq<GlyphView>,
    AtlasError,
>
    decreases n,
{
    if n == 0 {
        Ok(acc)
    } else {
        match parse_record(b, pos) {
            Ok((g, next)) => parse_records(b, next, (n - 1) as nat, acc.push(g)),
            Err(e) => Err(e),
        }
    }
}

/// What loading the atlas bytes `b` yields when the font at `path`
/// currently has the identity `key`.
pub open spec fn parse_atlas(b: Seq<u8>, path: Seq<u8>, key: AtlasKey) -> Result<
    Seq<GlyphView>,
    AtlasError,
> {
    if b.len() < 5 {
        Err(AtlasError::Truncated)
    } else if b.subrange(0, 5) != magic() {
        Err(AtlasError::BadMagic)
    } else if b.len() < 9 {
        Err(AtlasError::Truncated)
    } else {
        let plen = u32_from_le(b.subrange(5, 9)) as int;
        if b.len() < plen + 25 {
            Err(AtlasError::Truncated)
        } else if b.subrange(9, 9 + plen) != path {
            Err(AtlasError::PathMismatch)
        } else if u64_from_le(b.subrange(9 + plen, 17 + plen)) != key.mtime_sec || u32_from_le(
            b.subrange(17 + plen, 21 + plen),
        ) != key.mtime_nsec {
            Err(AtlasError::TimestampMismatch)
        } else if u32_from_le(b.subrange(21 + plen, 25 + plen)) != key.size_bits {
            Err(AtlasError::SizeMismatch)
        } else {
            parse_records(b, plen + 25, GLYPH_COUNT as nat, Seq::empty())
        }
    }
}

proof fn lemma_records_push(gs: Seq<GlyphView>, g: GlyphView)
    ensures
        glyph_records(gs.push(g)) == glyph_records(gs) + glyph_record(g),
    decreases gs.len(),
{
    if gs.len() == 0 {
        assert(gs.push(g).drop_first() =~= Seq::<GlyphView>::empty());
        assert(gs.push(g)[0] == g);
        assert(glyph_records(Seq::<GlyphView>::empty()) =~= Seq::<u8>::empty());
        assert(glyph_records(gs) =~= Seq::<u8>::empty());
        assert(glyph_records(gs.push(g)) =~= glyph_records(gs) + glyph_record(g));
    } else {
        assert(gs.push(g).drop_first() =~= gs.drop_first().push(g));
        lemma_records_push(gs.drop_first(), g);
        assert(glyph_records(gs.push(g)) =~= glyph_records(gs) + glyph_record(g));
    }
}

/// Reading back the records of well-formed glyphs, with anything before and after them.
proof fn lemma_parse_records(pre: Seq<u8>, gs: Seq<GlyphView>, post: Seq<u8>, acc: Seq<GlyphView>)
    requires
        forall|i: int| 0 <= i < gs.len() ==> (#[trigger] gs[i]).wf(),
    ensures
        parse_records(pre + glyph_records(gs) + post, pre.len() as int, gs.len(), acc) == Ok::<
            Seq<GlyphView>,
            AtlasError,
        >(acc + gs),
    decreases gs.len(),
{
    let b = pre + glyph_records(gs) + post;
    if gs.len() == 0 {
        assert(acc + gs =~= acc);
    } else {
        let g = gs[0];
        assert(g.wf());
        let rec = glyph_record(g);
        let rest = gs.drop_first();
        let pre2 = pre + rec;
        assert(b =~= pre2 + glyph_records(rest) + post);
        let pos = pre.len() as int;
        assert(b.subrange(pos, pos + 2) =~= u16_le(g.width as u16));
        assert(b.subrange(pos + 2, pos + 4) =~= u16_le(g.height as u16));
        assert(b.subrange(pos + 4, pos + 8) =~= u32_le(g.coverage.len() as u32));
        crate::bytes::lemma_u16_round_trip(g.width as u16);
        crate::bytes::lemma_u16_round_trip(g.height as u16);
        crate::bytes::lemma_u32_round_trip(g.coverage.len() as u32);
        assert(g.width * g.height <= 65535 * 65535) by (nonlinear_arith)
            requires
                g.width <= 65535,
                g.height <= 65535,
        ;
        let n = g.coverage.len() as int;
        assert(b.subrange(pos + 8, pos + 8 + n) =~= g.coverage);
        assert(parse_record(b, pos) == Ok::<(GlyphView, int), AtlasError>((g, pos + 8 + n)));
        assert(pos + 8 + n == pre2.len());
        assert forall|i: int| 0 <= i < rest.len() implies (#[trigger] rest[i]).wf() by {
            assert(rest[i] == gs[i + 1]);
        }
        lemma_parse_records(pre2, rest, post, acc.push(g));
        assert(acc.push(g) + rest =~= acc + gs);
    }
}

/// Loading an atlas accepts exactly the file written for the same font path,
/// modification time and size, and gives back the glyphs it was written from.
pub proof fn lemma_atlas_round_trip(path: Seq<u8>, key: AtlasKey, gs: Seq<GlyphView>)
    requires
        gs.len() == GLYPH_COUNT,
        forall|i: int| 0 <= i < gs.len() ==> (#[trigger] gs[i]).wf(),
        path.len() <= u32::MAX,
    ensures
        parse_atlas(atlas_bytes(path, key, gs), path, key) == Ok::<Seq<GlyphView>, AtlasError>(gs),
{
    let b = atlas_bytes(path, key, gs);
    let plen = path.len() as int;
    lemma_header_fields(path, key, glyph_records(gs));
    lemma_parse_records(atlas_header(path, key), gs, Seq::empty(), Seq::empty());
    assert(atlas_header(path, key) + glyph_records(gs) + Seq::<u8>::empty() =~= b);
    assert(Seq::<GlyphView>::empty() + gs =~= gs);
}

/// The fields of an atlas header, read back from the header followed by anything.
proof fn lemma_header_fields(path: Seq<u8>, key: AtlasKey, rest: Seq<u8>)
    requires
        path.len() <= u32::MAX,
    ensures
        ({
            let b = atlas_header(path, key) + rest;
            let plen = path.len() as int;
            &&& b.len() == plen + 25 + rest.len()
            &&& atlas_header(path, key).len() == plen + 25
            &&& b.subrange(0, 5) == magic()
            &&& u32_from_le(b.subrange(5, 9)) == path.len()
            &&& b.subrange(9, 9 + plen) == path
            &&& u64_from_le(b.subrange(9 + plen, 17 + plen)) == key.mtime_sec
            &&& u32_from_le(b.subrange(17 + plen, 21 + plen)) == key.mtime_nsec
            &&& u32_from_le(b.subrange(21 + plen, 25 + plen)) == key.size_bits
        }),
{
    let b = atlas_header(path, key) + rest;
    let plen = path.len() as int;
    assert(b.subrange(0, 5) =~= magic());
    assert(b.subrange(5, 9) =~= u32_le(path.len() as u32));
    assert(b.subrange(9, 9 + plen) =~= path);
    assert(b.subrange(9 + plen, 17 + plen) =~= u64_le(key.mtime_sec));
    assert(b.subrange(17 + plen, 21 + plen) =~= u32_le(key.mtime_nsec));
    assert(b.subrange(21 + plen, 25 + plen) =~= u32_le(key.size_bits));
    crate::bytes::lemma_u32_round_trip(path.len() as u32);
    crate::bytes::lemma_u64_round_trip(key.mtime_sec);
    crate::bytes::lemma_u32_round_trip(key.mtime_nsec);
    crate::bytes::lemma_u32_round_trip(key.size_bits);
}

/// An atlas is refused when the font's modification time or the requested
/// size differ from those it was built for, and when it was built for
/// another font path, even if every other byte agrees.
pub proof fn lemma_atlas_invalidation(
    path: Seq<u8>,
    key: AtlasKey,
    gs: Seq<GlyphView>,
    other_path: Seq<u8>,
    other_key: AtlasKey,
)
    requires
        path.len() <= u32::MAX,
    ensures
        (other_key.mtime_sec != key.mtime_sec || other_key.mtime_nsec != key.mtime_nsec)
            ==> parse_atlas(atlas_bytes(path, key, gs), path, other_key) == Err::<
            Seq<GlyphView>,
            AtlasError,
        >(AtlasError::TimestampMismatch),
        other_key.mtime_sec == key.mtime_sec && other_key.mtime_nsec == key.mtime_nsec
            && other_key.size_bits != key.size_bits ==> parse_atlas(
            atlas_bytes(path, key, gs),
            path,
            other_key,
        ) == Err::<Seq<GlyphView>, AtlasError>(AtlasError::SizeMismatch),
        other_path != path ==> parse_atlas(atlas_bytes(path, key, gs), other_path, key) == Err::<
            Seq<GlyphView>,
            AtlasError,
        >(AtlasError::PathMismatch),
{
    lemma_header_fields(path, key, glyph_records(gs));
}

/// A copy of `data[start..end]`.
fn copy_range(data: &[u8], start: usize, end: usize) -> (r: Vec<u8>)
    requires
        start <= end <= data@.len(),
    ensures
        r@ == data@.subrange(start as int, end as int),
{
    let mut out: Vec<u8> = Vec::new();
    write_bytes(&mut out, &data[start..end]);
    assert(out@ =~= data@.subrange(start as int, end as int));
    out
}

/// Whether `data[start..start + want.len()]` equals `want`.
fn bytes_match(data: &[u8], start: usize, want: &[u8]) -> (r: bool)
    requires
        start + want@.len() <= data@.len(),
    ensures
        r == (data@.subrange(start as int, start + want@.len()) == want@),
{
    let len = data.len();
    let mut i: usize = 0;
    while i < want.len()
        invariant
            len == data@.len(),
            start + want@.len() <= data@.len(),
            i <= want@.len(),
            forall|j: int| 0 <= j < i ==> data@[start + j] == want@[j],
        decreases want@.len() - i,
    {
        if data[start + i] != want[i] {
            assert(data@.subrange(start as int, start + want@.len())[i as int] != want@[i as int]);
            return false;
        }
        i = i + 1;
    }
    assert(data@.subrange(start as int, start + want@.len()) =~= want@);
    true
}

impl GlyphCache {
    /// The atlas file for this cache, built from the font at `font_path`
    /// whose identity is `key`.
    pub fn write_atlas(&self, font_path: &str, key: AtlasKey) -> (r: Vec<u8>)
        requires
            self.wf(),
            font_path.spec_bytes().len() <= u32::MAX,
        ensures
            r@ == atlas_bytes(font_path.spec_bytes(), key, self@),
    {
        let path = font_path.as_bytes();
        let mut out: Vec<u8> = Vec::new();
        out.push(76u8);
        out.push(66u8);
        out.push(65u8);
        out.push(84u8);
        out.push(49u8);
        assert(out@ =~= magic());
        write_u32(&mut out, path.len() as u32);
        write_bytes(&mut out, path);
        write_u64(&mut out, key.mtime_sec);
        write_u32(&mut out, key.mtime_nsec);
        write_u32(&mut out, key.size_bits);
        let ghost header = out@;
        assert(header =~= atlas_header(path@, key));
        let ordered = self.as_slice_ordered();
        let mut i: usize = 0;
        while i < GLYPH_COUNT
            invariant
                self.wf(),
                i <= GLYPH_COUNT,
                forall|k: int| 0 <= k < GLYPH_COUNT ==> (#[trigger] ordered@[k])@ == self@[k],
                out@ == header + glyph_records(self@.subrange(0, i as int)),
            decreases GLYPH_COUNT - i,
        {
            let g = ordered[i];
            assert(g@ == self@[i as int]);
            assert(g@.wf());
            let ghost before = out@;
            write_u16(&mut out, g.width as u16);
            write_u16(&mut out, g.height as u16);
            write_u32(&mut out, g.coverage.len() as u32);
            write_bytes(&mut out, g.coverage.as_slice());
            proof {
                lemma_records_push(self@.subrange(0, i as int), g@);
                assert(self@.subrange(0, i + 1) =~= self@.subrange(0, i as int).push(g@));
                assert(out@ =~= before + glyph_record(g@));
            }
            i = i + 1;
        }
        assert(self@.subrange(0, GLYPH_COUNT as int) =~= self@);
        out
    }

    /// Loads a cache from atlas bytes, checking them against the font at
    /// `expected_font_path` whose current identity is `key`.
    pub fn load_from_atlas(data: &[u8], expected_font_path: &str, key: AtlasKey) -> (r: Result<
        GlyphCache,
        AtlasError,
    >)
        ensures
            match parse_atlas(data@, expected_font_path.spec_bytes(), key) {
                Ok(gs) => r matches Ok(c) && c@ == gs && c.wf(),
                Err(e) => r == Err::<GlyphCache, AtlasError>(e),
            },
    {
        let ghost b = data@;
        if data.len() < 5 {
            return Err(AtlasError::Truncated);
        }
        if data[0] != 76u8 || data[1] != 66u8 || data[2] != 65u8 || data[3] != 84u8 || data[4]
            != 49u8 {
            assert(b.subrange(0, 5) != magic()) by {
                if b.subrange(0, 5) == magic() {
                    assert(b.subrange(0, 5)[0] == b[0]);
                    assert(b.subrange(0, 5)[1] == b[1]);
                    assert(b.subrange(0, 5)[2] == b[2]);
                    assert(b.subrange(0, 5)[3] == b[3]);
                    assert(b.subrange(0, 5)[4] == b[4]);
                }
            }
            return Err(AtlasError::BadMagic);
        }
        assert(b.subrange(0, 5) =~= magic());
        let plen = match read_u32(data, 5) {
            Some(v) => v as usize,
            None => {
                return Err(AtlasError::Truncated);
            },
        };
        if data.len() - 9 < plen || data.len() - 9 - plen < 16 {
            return Err(AtlasError::Truncated);
        }
        let path = expected_font_path.as_bytes();
        if path.len() != plen || !bytes_match(data, 9, path) {
            assert(b.subrange(9, 9 + plen) != path@) by {
                if b.subrange(9, 9 + plen) == path@ {
                    assert(path@.len() == plen);
                }
            }
            return Err(AtlasError::PathMismatch);
        }
        let sec = read_u64(data, 9 + plen).unwrap();
        let nsec = read_u32(data, 17 + plen).unwrap();
        let size_bits = read_u32(data, 21 + plen).unwrap();
        if sec != key.mtime_sec || nsec != key.mtime_nsec {
            return Err(AtlasError::TimestampMismatch);
        }
        if size_bits != key.size_bits {
            return Err(AtlasError::SizeMismatch);
        }
        let mut glyphs: Vec<RasterizedGlyph> = Vec::new();
        let mut pos: usize = 25 + plen;
        assert(b.subrange(9, 9 + plen) == path@);
        assert(glyphs@.map_values(|g: RasterizedGlyph| g@) =~= Seq::<GlyphView>::empty());
        let mut k: usize = 0;
        while k < GLYPH_COUNT
            invariant
                data@ == b,
                k <= GLYPH_COUNT,
                pos <= b.len(),
                glyphs@.len() == k,
                forall|i: int| 0 <= i < k ==> (#[trigger] glyphs@[i])@.wf(),
                parse_atlas(b, expected_font_path.spec_bytes(), key) == parse_records(
                    b,
                    pos as int,
                    (GLYPH_COUNT - k) as nat,
                    glyphs@.map_values(|g: RasterizedGlyph| g@),
                ),
            decreases GLYPH_COUNT - k,
        {
            let ghost acc = glyphs@.map_values(|g: RasterizedGlyph| g@);
            if data.len() - pos < 8 {
                return Err(AtlasError::Truncated);
            }
            let w = read_u16(data, pos).unwrap();
            let h = read_u16(data, pos + 2).unwrap();
            let n = read_u32(data, pos + 4).unwrap();
            assert(w * h <= 65535 * 65535) by (nonlinear_arith)
                requires
                    w <= 65535,
                    h <= 65535,
            ;
            if n as u64 != w as u64 * h as u64 {
                return Err(AtlasError::BadGlyph);
            }
            if data.len() - pos - 8 < n as usize {
                return Err(AtlasError::Truncated);
            }
            let coverage = copy_range(data, pos + 8, pos + 8 + n as usize);
            let g = RasterizedGlyph { width: w as usize, height: h as usize, coverage };
            proof {
                assert(parse_record(b, pos as int) == Ok::<(GlyphView, int), AtlasError>(
                    (g@, pos + 8 + n),
                ));
            }
            glyphs.push(g);
            assert(glyphs@.map_values(|g: RasterizedGlyph| g@) =~= acc.push(g@));
            pos = pos + 8 + n as usize;
            k = k + 1;
        }
        let ghost views = glyphs@.map_values(|g: RasterizedGlyph| g@);
        let c = GlyphCache::from_vec(glyphs).unwrap();
        assert(c@ == views);
        Ok(c)
    }
}

} // verus!
