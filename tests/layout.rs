use leanbar::canvas::{clear_columns, draw_glyph, shade};
use leanbar::layout::{
    battery_glyphs, clock_glyphs, content_width, date_glyphs, display_hour, spaced_items,
    workspace_items, Item,
};
use leanbar::{Color, GlyphCache, GlyphId, Pixel, RasterizedGlyph};

fn d(n: u8) -> GlyphId {
    GlyphId::Digit(n)
}

fn unit_cache() -> GlyphCache {
    let glyphs = (0..19)
        .map(|i| RasterizedGlyph { width: i + 1, height: 2, coverage: vec![255; 2 * (i + 1)] })
        .collect();
    GlyphCache::from_vec(glyphs).unwrap()
}

#[test]
fn percent_digit_counts() {
    for p in 0u8..=100 {
        let g = battery_glyphs(p, 1, 0);
        let digits = g.iter().take_while(|x| matches!(x, GlyphId::Digit(_))).count();
        let expected = if p == 100 { 3 } else if p >= 10 { 2 } else { 1 };
        assert_eq!(digits, expected, "percent {}", p);
        let value = g[..digits].iter().fold(0u32, |acc, x| match x {
            GlyphId::Digit(v) => acc * 10 + *v as u32,
            _ => acc,
        });
        assert_eq!(value, p as u32);
    }
    assert_eq!(&battery_glyphs(100, 2, 0)[..4], &[d(1), d(0), d(0), GlyphId::Percent]);
}

#[test]
fn battery_seven_percent_discharging() {
    assert_eq!(
        battery_glyphs(7, 1, 125),
        vec![
            d(7),
            GlyphId::Percent,
            GlyphId::Space,
            GlyphId::Minus,
            GlyphId::Space,
            d(0),
            d(2),
            GlyphId::Colon,
            d(0),
            d(5)
        ]
    );
}

#[test]
fn battery_charging_full_and_disabled() {
    assert_eq!(battery_glyphs(42, 2, 61)[4], GlyphId::Plus);
    assert_eq!(battery_glyphs(42, 0, 61)[4], GlyphId::Minus);
    assert_eq!(battery_glyphs(80, 3, 10), vec![GlyphId::Full]);
    assert_eq!(battery_glyphs(255, 3, 10), vec![GlyphId::Full]);
    assert!(battery_glyphs(80, 255, 10).is_empty());
    assert!(battery_glyphs(255, 1, 10).is_empty());
    // estimates of 100 hours or more show 99:59
    assert_eq!(&battery_glyphs(5, 1, 6000)[5..], &[d(9), d(9), GlyphId::Colon, d(5), d(9)]);
    assert_eq!(&battery_glyphs(5, 1, 5999)[5..], &[d(9), d(9), GlyphId::Colon, d(5), d(9)]);
    assert_eq!(&battery_glyphs(5, 1, 5940)[5..], &[d(9), d(9), GlyphId::Colon, d(0), d(0)]);
}

#[test]
fn twelve_hour_clock() {
    for h in 0u8..24 {
        let expected = if h == 0 { 12 } else if h > 12 { h - 12 } else { h };
        assert_eq!(display_hour(h), expected);
        let g = clock_glyphs(h, 5);
        assert_eq!(g[0], d(expected / 10));
        assert_eq!(g[1], d(expected % 10));
        assert_eq!(g[6], if h >= 12 { GlyphId::Pm } else { GlyphId::Am });
    }
    assert_eq!(
        clock_glyphs(13, 7),
        vec![d(0), d(1), GlyphId::Colon, d(0), d(7), GlyphId::Space, GlyphId::Pm]
    );
    assert_eq!(clock_glyphs(0, 59)[..5], [d(1), d(2), GlyphId::Colon, d(5), d(9)]);
    assert_eq!(clock_glyphs(12, 0)[6], GlyphId::Pm);
    assert_eq!(clock_glyphs(11, 0)[6], GlyphId::Am);
}

#[test]
fn date_is_zero_padded() {
    assert_eq!(
        date_glyphs(3, 11, 26),
        vec![d(0), d(3), GlyphId::Slash, d(1), d(1), GlyphId::Slash, d(2), d(6)]
    );
}

#[test]
fn workspaces_active_three_of_one_three_five() {
    let mut occupied = [false; 10];
    occupied[0] = true;
    occupied[2] = true;
    occupied[4] = true;
    let items = workspace_items(3, &occupied);
    let focused = Color { b: 0xff, g: 0xff, r: 0xff, a: 0xff };
    let other = Color { b: 0xf7, g: 0xa6, r: 0xcb, a: 0xff };
    assert_eq!(
        items,
        vec![
            Item { glyph: d(1), color: other, gap: 10 },
            Item { glyph: d(3), color: focused, gap: 10 },
            Item { glyph: d(5), color: other, gap: 10 },
        ]
    );
}

#[test]
fn workspace_ten_is_two_digits() {
    let mut occupied = [false; 10];
    occupied[9] = true;
    let items = workspace_items(2, &occupied);
    let glyphs: Vec<GlyphId> = items.iter().map(|i| i.glyph).collect();
    assert_eq!(glyphs, vec![d(2), d(1), d(0)]);
    assert_eq!(items[1].gap, 1);
    assert_eq!(items[2].gap, 10);
    assert!(workspace_items(0, &[false; 10]).is_empty());
}

#[test]
fn content_width_adds_widths_and_gaps() {
    let cache = unit_cache();
    let text = vec![d(0), d(1), GlyphId::Colon];
    let items = spaced_items(&text, Color { b: 1, g: 2, r: 3, a: 4 });
    assert_eq!(items.iter().map(|i| i.gap).collect::<Vec<_>>(), vec![1, 1, 0]);
    // widths 1, 2 and 14, gaps 1, 1, 0
    assert_eq!(content_width(&cache, &items), 1 + 2 + 14 + 2);
}

#[test]
fn shade_premultiplies() {
    let c = Color { b: 0xf7, g: 0xa6, r: 0xcb, a: 0xff };
    assert_eq!(shade(c, 255), Pixel { b: 0xf7, g: 0xa6, r: 0xcb, a: 0xff });
    // alpha 255 * 128 / 255 = 128; blue 247 * 128 / 255 = 123
    assert_eq!(shade(c, 128), Pixel { b: 123, g: 83, r: 101, a: 128 });
    let half = Color { b: 200, g: 100, r: 50, a: 128 };
    // alpha 128 * 200 / 255 = 100; blue 200 * 100 / 255 = 78
    assert_eq!(shade(half, 200), Pixel { b: 78, g: 39, r: 19, a: 100 });
}

#[test]
fn draw_glyph_clips_and_skips_empty_coverage() {
    let zero = Pixel { b: 0, g: 0, r: 0, a: 0 };
    let mut px = vec![zero; 4 * 3];
    let g = RasterizedGlyph { width: 2, height: 2, coverage: vec![255, 0, 255, 255] };
    let white = Color { b: 255, g: 255, r: 255, a: 255 };
    let full = Pixel { b: 255, g: 255, r: 255, a: 255 };
    draw_glyph(&mut px, 4, 3, 2, 4, white, &g);
    // rows beyond the buffer are dropped, column 4 does not exist
    let mut expected = vec![zero; 12];
    expected[2 * 4 + 3] = full;
    assert_eq!(px, expected);
    // cut off at column 1: only column 0 is drawn
    draw_glyph(&mut px, 4, 0, 0, 1, white, &g);
    expected[0] = full;
    expected[4] = full;
    assert_eq!(px, expected);
    draw_glyph(&mut px, 4, 0, 0, 4, white, &g);
    expected[5] = full;
    assert_eq!(px, expected);
    clear_columns(&mut px, 4, 0, 1);
    expected[0] = zero;
    expected[4] = zero;
    assert_eq!(px, expected);
}
