use leanbar::atlas::AtlasError;
use leanbar::{
    read_u16, read_u32, read_u64, write_u16, write_u32, write_u64, AtlasKey, GlyphCache,
    RasterizedGlyph,
};

fn glyph(width: usize, height: usize, seed: u8) -> RasterizedGlyph {
    let coverage = (0..width * height).map(|i| (i as u8).wrapping_mul(7).wrapping_add(seed)).collect();
    RasterizedGlyph { width, height, coverage }
}

fn sample_glyphs() -> Vec<RasterizedGlyph> {
    (0..19).map(|i| glyph(i % 5 + 1, i % 3 + 2, i as u8)).collect()
}

fn sample_cache() -> GlyphCache {
    GlyphCache::from_vec(sample_glyphs()).unwrap()
}

fn key() -> AtlasKey {
    AtlasKey { mtime_sec: 1_700_000_000, mtime_nsec: 123_456_789, size_bits: 0x4180_0000 }
}

fn same_glyphs(a: &GlyphCache, b: &GlyphCache) -> bool {
    a.as_slice_ordered()
        .iter()
        .zip(b.as_slice_ordered().iter())
        .all(|(x, y)| x.width == y.width && x.height == y.height && x.coverage == y.coverage)
}

#[test]
fn integers_are_little_endian() {
    let mut out = Vec::new();
    write_u16(&mut out, 0x1234);
    write_u32(&mut out, 0xdead_beef);
    write_u64(&mut out, 0x0102_0304_0506_0708);
    assert_eq!(
        out,
        vec![0x34, 0x12, 0xef, 0xbe, 0xad, 0xde, 8, 7, 6, 5, 4, 3, 2, 1]
    );
    assert_eq!(read_u16(&out, 0), Some(0x1234));
    assert_eq!(read_u32(&out, 2), Some(0xdead_beef));
    assert_eq!(read_u64(&out, 6), Some(0x0102_0304_0506_0708));
    assert_eq!(read_u64(&out, 7), None);
    assert_eq!(read_u16(&out, 13), None);
    assert_eq!(read_u32(&out, 100), None);
}

#[test]
fn from_vec_needs_nineteen_glyphs() {
    let mut glyphs = sample_glyphs();
    glyphs.pop();
    assert!(GlyphCache::from_vec(glyphs).is_none());
    let cache = sample_cache();
    assert_eq!(cache.numbers[3].width, 4);
    assert_eq!(cache.full.width, 4);
    assert_eq!(cache.am.coverage, glyph(1, 3, 10).coverage);
}

#[test]
fn atlas_layout_matches_format() {
    let bytes = sample_cache().write_atlas("/f.ttf", key());
    assert_eq!(&bytes[0..5], b"LBAT1");
    assert_eq!(&bytes[5..9], &[6, 0, 0, 0]);
    assert_eq!(&bytes[9..15], b"/f.ttf");
    assert_eq!(&bytes[15..23], &1_700_000_000u64.to_le_bytes());
    assert_eq!(&bytes[23..27], &123_456_789u32.to_le_bytes());
    assert_eq!(&bytes[27..31], &0x4180_0000u32.to_le_bytes());
    // first record: digit 0, 1 x 2
    assert_eq!(&bytes[31..39], &[1, 0, 2, 0, 2, 0, 0, 0]);
    let total: usize = sample_glyphs().iter().map(|g| 8 + g.coverage.len()).sum();
    assert_eq!(bytes.len(), 31 + total);
}

#[test]
fn atlas_round_trip() {
    let cache = sample_cache();
    let bytes = cache.write_atlas("/usr/share/fonts/a.ttf", key());
    let loaded = GlyphCache::load_from_atlas(&bytes, "/usr/share/fonts/a.ttf", key()).unwrap();
    assert!(same_glyphs(&cache, &loaded));
}

#[test]
fn atlas_rejects_changed_mtime() {
    let bytes = sample_cache().write_atlas("/a.ttf", key());
    let mut k = key();
    k.mtime_nsec += 1;
    assert_eq!(
        GlyphCache::load_from_atlas(&bytes, "/a.ttf", k).err(),
        Some(AtlasError::TimestampMismatch)
    );
    let mut k = key();
    k.mtime_sec -= 1;
    assert_eq!(
        GlyphCache::load_from_atlas(&bytes, "/a.ttf", k).err(),
        Some(AtlasError::TimestampMismatch)
    );
}

#[test]
fn atlas_rejects_other_size() {
    let bytes = sample_cache().write_atlas("/a.ttf", key());
    let mut k = key();
    k.size_bits = 0x4190_0000;
    assert_eq!(
        GlyphCache::load_from_atlas(&bytes, "/a.ttf", k).err(),
        Some(AtlasError::SizeMismatch)
    );
}

#[test]
fn atlas_rejects_other_path() {
    let bytes = sample_cache().write_atlas("/fonts/A.ttf", key());
    assert_eq!(
        GlyphCache::load_from_atlas(&bytes, "/fonts/B.ttf", key()).err(),
        Some(AtlasError::PathMismatch)
    );
    assert_eq!(
        GlyphCache::load_from_atlas(&bytes, "/fonts/A.ttf2", key()).err(),
        Some(AtlasError::PathMismatch)
    );
}

#[test]
fn atlas_rejects_bad_magic_and_truncation() {
    let mut bytes = sample_cache().write_atlas("/a.ttf", key());
    assert_eq!(
        GlyphCache::load_from_atlas(&bytes[0..3], "/a.ttf", key()).err(),
        Some(AtlasError::Truncated)
    );
    assert_eq!(
        GlyphCache::load_from_atlas(&bytes[0..20], "/a.ttf", key()).err(),
        Some(AtlasError::Truncated)
    );
    let n = bytes.len();
    assert_eq!(
        GlyphCache::load_from_atlas(&bytes[0..n - 1], "/a.ttf", key()).err(),
        Some(AtlasError::Truncated)
    );
    assert_eq!(GlyphCache::load_from_atlas(&[], "/a.ttf", key()).err(), Some(AtlasError::Truncated));
    bytes[4] = b'2';
    assert_eq!(
        GlyphCache::load_from_atlas(&bytes, "/a.ttf", key()).err(),
        Some(AtlasError::BadMagic)
    );
}

#[test]
fn atlas_rejects_inconsistent_glyph() {
    let mut bytes = sample_cache().write_atlas("/a.ttf", key());
    // first record's width: 1 -> 2, so 2 x 2 no longer matches 2 coverage bytes
    bytes[31] = 2;
    assert_eq!(
        GlyphCache::load_from_atlas(&bytes, "/a.ttf", key()).err(),
        Some(AtlasError::BadGlyph)
    );
}

#[test]
fn atlas_ignores_trailing_bytes() {
    let cache = sample_cache();
    let mut bytes = cache.write_atlas("/a.ttf", key());
    bytes.extend_from_slice(&[1, 2, 3]);
    let loaded = GlyphCache::load_from_atlas(&bytes, "/a.ttf", key()).unwrap();
    assert!(same_glyphs(&cache, &loaded));
}
