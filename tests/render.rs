use leanbar::{AppState, ConfigureOutcome, GlyphCache, Pixel, RasterizedGlyph, Rect, StateSnapshot};

fn cache() -> GlyphCache {
    let glyphs = (0..19)
        .map(|i| RasterizedGlyph { width: 6, height: 10, coverage: vec![(i as u8) * 10 + 5; 60] })
        .collect();
    GlyphCache::from_vec(glyphs).unwrap()
}

fn snapshot() -> StateSnapshot {
    let mut occupied = [false; 10];
    occupied[0] = true;
    occupied[4] = true;
    StateSnapshot {
        active_workspace: 1,
        occupied,
        hour: 14,
        minute: 5,
        day: 18,
        month: 10,
        year: 26,
        battery_percent: 77,
        battery_state: 1,
        battery_estimate: 95,
    }
}

#[test]
fn nothing_drawn_before_configuration() {
    let mut st = AppState::new(Some(cache()));
    assert!(st.draw_bar(&snapshot()).is_empty());
    assert!(st.force_full_redraw);
}

#[test]
fn zero_width_configure_is_default_width_and_full_damage() {
    let mut st = AppState::new(Some(cache()));
    assert_eq!(st.configure(0, 0), ConfigureOutcome::Reallocated);
    assert_eq!(st.width, 1920);
    assert_eq!(st.height, 28);
    assert_eq!(st.pixels.len(), 1920 * 28);
    assert!(st.configured && st.force_full_redraw);
    let damage = st.draw_bar(&snapshot());
    assert_eq!(damage, vec![Rect { x: 0, y: 0, width: 1920, height: 28 }]);
    assert!(!st.force_full_redraw);
    assert!(st.pixels.iter().any(|p| p.a != 0));
}

#[test]
fn second_pass_without_change_has_no_damage() {
    let mut st = AppState::new(Some(cache()));
    st.configure(800, 30);
    let s = snapshot();
    assert_eq!(st.draw_bar(&s).len(), 1);
    let before = st.pixels.clone();
    assert!(st.draw_bar(&s).is_empty());
    assert_eq!(st.pixels, before);
}

#[test]
fn only_changed_slots_are_damaged() {
    let mut st = AppState::new(Some(cache()));
    st.configure(1000, 28);
    let mut s = snapshot();
    st.draw_bar(&s);
    s.minute = 6;
    // digits 6 wide: clock slot 4 * 6 + 6 + 6 + 6 + 6 = 48 wide at 500 + 12
    assert_eq!(st.draw_bar(&s), vec![Rect { x: 512, y: 0, width: 48, height: 28 }]);
    s.occupied[2] = true;
    s.day = 19;
    let damage = st.draw_bar(&s);
    // date slot 6 * 6 + 2 * 6 + 7 = 55 wide, ending 12 left of the middle
    assert_eq!(
        damage,
        vec![
            Rect { x: 0, y: 0, width: 600, height: 28 },
            Rect { x: 433, y: 0, width: 55, height: 28 },
        ]
    );
    s.battery_estimate = 94;
    assert_eq!(st.draw_bar(&s), vec![Rect { x: 840, y: 0, width: 160, height: 28 }]);
}

#[test]
fn damage_is_clipped_to_buffer() {
    let mut st = AppState::new(Some(cache()));
    st.configure(300, 28);
    let mut s = snapshot();
    st.draw_bar(&s);
    s.active_workspace = 5;
    s.minute = 7;
    // workspace slot clipped to 300; clock slot at 162, 48 wide, fits
    assert_eq!(
        st.draw_bar(&s),
        vec![Rect { x: 0, y: 0, width: 300, height: 28 }, Rect { x: 162, y: 0, width: 48, height: 28 }]
    );
}

#[test]
fn configure_same_size_keeps_buffer_and_forces_redraw() {
    let mut st = AppState::new(Some(cache()));
    st.configure(640, 28);
    st.draw_bar(&snapshot());
    let before = st.pixels.clone();
    assert_eq!(st.configure(640, 0), ConfigureOutcome::Kept);
    assert_eq!(st.pixels, before);
    assert_eq!(st.draw_bar(&snapshot()), vec![Rect { x: 0, y: 0, width: 640, height: 28 }]);
    assert_eq!(st.configure(641, 28), ConfigureOutcome::Reallocated);
    assert!(st.pixels.iter().all(|p| *p == Pixel { b: 0, g: 0, r: 0, a: 0 }));
}

#[test]
fn configure_refuses_oversized_buffer() {
    let mut st = AppState::new(None);
    assert_eq!(st.configure(100_000, 10_000), ConfigureOutcome::TooLarge);
    assert!(!st.configured);
    assert_eq!(st.width, 0);
}

#[test]
fn without_glyphs_only_full_redraws_are_reported() {
    let mut st = AppState::new(None);
    st.configure(0, 0);
    let mut s = snapshot();
    assert_eq!(st.draw_bar(&s), vec![Rect { x: 0, y: 0, width: 1920, height: 28 }]);
    s.minute = 9;
    assert!(st.draw_bar(&s).is_empty());
    assert!(st.pixels.iter().all(|p| p.a == 0));
}

#[test]
fn workspace_glyph_pixels_are_shaded() {
    let mut st = AppState::new(Some(cache()));
    st.configure(700, 28);
    st.draw_bar(&snapshot());
    // workspace 1 is focused (white) and drawn at column 10, rows 9 to 18;
    // digit 1's coverage is 15
    let p = st.pixels[9 * 700 + 10];
    assert_eq!(p, Pixel { b: 15, g: 15, r: 15, a: 15 });
    assert_eq!(st.pixels[8 * 700 + 10].a, 0);
    assert_eq!(st.pixels[9 * 700 + 9].a, 0);
    // workspace 5 follows after 6 + 10 pixels in the unfocused color
    let q = st.pixels[9 * 700 + 26];
    assert_eq!(q.a, 55);
}

#[test]
fn copy_rect_writes_bgra_inside_rect_only() {
    let mut st = AppState::new(None);
    st.configure(3, 2);
    st.pixels[1] = Pixel { b: 1, g: 2, r: 3, a: 4 };
    st.pixels[4] = Pixel { b: 5, g: 6, r: 7, a: 8 };
    st.pixels[5] = Pixel { b: 9, g: 9, r: 9, a: 9 };
    assert_eq!(st.stride(), 12);
    let mut out = vec![0xaa; 24];
    st.copy_rect(Rect { x: 1, y: 0, width: 1, height: 2 }, &mut out);
    let mut expected = vec![0xaa; 24];
    expected[4..8].copy_from_slice(&[1, 2, 3, 4]);
    expected[16..20].copy_from_slice(&[5, 6, 7, 8]);
    assert_eq!(out, expected);
}

fn uniform_cache(width: usize, height: usize) -> GlyphCache {
    let glyphs = (0..19)
        .map(|_| RasterizedGlyph { width, height, coverage: vec![255; width * height] })
        .collect();
    GlyphCache::from_vec(glyphs).unwrap()
}

fn changes_covered(before: &[Pixel], after: &[Pixel], width: usize, damage: &[Rect]) -> bool {
    before.iter().zip(after.iter()).enumerate().all(|(i, (b, a))| {
        let (x, y) = ((i % width) as u32, (i / width) as u32);
        b == a
            || damage
                .iter()
                .any(|r| r.x <= x && x < r.x + r.width && r.y <= y && y < r.y + r.height)
    })
}

#[test]
fn clock_text_stays_in_clock_damage() {
    let mut st = AppState::new(Some(uniform_cache(1, 1)));
    st.configure(100, 28);
    let mut s = snapshot();
    s.hour = 11;
    st.draw_bar(&s);
    let before = st.pixels.clone();
    s.hour = 12;
    let damage = st.draw_bar(&s);
    // 1-pixel glyphs: clock slot 4 + 1 + 1 + 1 + 6 = 13 wide at 62
    assert_eq!(damage, vec![Rect { x: 62, y: 0, width: 13, height: 28 }]);
    assert!(changes_covered(&before, &st.pixels, 100, &damage));
    // "12:05 PM": the last glyph's column is 62 + 12
    assert_ne!(st.pixels[13 * 100 + 74].a, 0);
}

#[test]
fn wide_battery_text_stays_in_battery_slot() {
    let mut st = AppState::new(Some(uniform_cache(20, 10)));
    st.configure(1000, 28);
    let mut s = snapshot();
    st.draw_bar(&s);
    let before = st.pixels.clone();
    s.battery_estimate = 300;
    let damage = st.draw_bar(&s);
    assert_eq!(damage, vec![Rect { x: 840, y: 0, width: 160, height: 28 }]);
    assert!(changes_covered(&before, &st.pixels, 1000, &damage));
    // the text is far wider than the slot: it starts at the slot's left edge
    assert_ne!(st.pixels[9 * 1000 + 840].a, 0);
    assert_eq!(st.pixels[9 * 1000 + 839], before[9 * 1000 + 839]);
}

#[test]
fn full_battery_shows_label_whatever_percent() {
    let mut st = AppState::new(Some(uniform_cache(3, 3)));
    st.configure(400, 28);
    let mut s = snapshot();
    s.battery_state = 3;
    s.battery_percent = 255;
    st.draw_bar(&s);
    // the full label, 3 wide, ends 10 pixels from the right edge
    assert_ne!(st.pixels[12 * 400 + 387].a, 0);
    assert_eq!(st.pixels[12 * 400 + 386].a, 0);
}

#[test]
fn new_renderer_holds_sentinels() {
    let st = AppState::new(None);
    assert_eq!(st.last.active_workspace, 255);
    assert_eq!(st.last.occupied, [false; 10]);
    assert_eq!((st.last.hour, st.last.minute), (255, 255));
    assert_eq!((st.last.day, st.last.month, st.last.year), (255, 255, 255));
    assert_eq!((st.last.battery_percent, st.last.battery_state), (255, 255));
    assert_eq!(st.last.battery_estimate, 65535);
}
