use leanbar::compose::{compose_glyphs, CharBitmap};

fn ch(xmin: i32, ymin: i32, advance: i32, width: usize, height: usize, coverage: Vec<u8>) -> CharBitmap {
    CharBitmap { xmin, ymin, advance, width, height, coverage }
}

#[test]
fn composes_with_bearings_and_baseline() {
    // 'A': 2 x 3 from the baseline; 'm': 2 x 2 one pixel below, advanced by 3
    let chars = vec![
        ch(0, 0, 3, 2, 3, vec![1, 2, 3, 4, 5, 6]),
        ch(1, -1, 3, 2, 2, vec![7, 8, 9, 10]),
    ];
    let g = compose_glyphs(&chars).unwrap();
    // box: left 0, right 3 + 1 + 2 = 6, bottom -1, top 3
    assert_eq!((g.width, g.height), (6, 4));
    let expected = vec![
        1, 2, 0, 0, 0, 0,
        3, 4, 0, 0, 0, 0,
        5, 6, 0, 0, 7, 8,
        0, 0, 0, 0, 9, 10,
    ];
    assert_eq!(g.coverage, expected);
}

#[test]
fn overlapping_ink_keeps_larger_coverage() {
    let chars = vec![ch(0, 0, 1, 2, 1, vec![10, 200]), ch(0, 0, 1, 2, 1, vec![50, 60])];
    let g = compose_glyphs(&chars).unwrap();
    assert_eq!((g.width, g.height), (3, 1));
    assert_eq!(g.coverage, vec![10, 200, 60]);
}

#[test]
fn negative_bearing_widens_box_and_blank_chars_add_advance_only() {
    let chars = vec![
        ch(-1, 0, 2, 1, 1, vec![9]),
        ch(0, 0, 4, 0, 0, vec![]),
        ch(0, 0, 2, 1, 1, vec![5]),
    ];
    let g = compose_glyphs(&chars).unwrap();
    // ink at -1 and at 6
    assert_eq!((g.width, g.height), (8, 1));
    assert_eq!(g.coverage, vec![9, 0, 0, 0, 0, 0, 0, 5]);
}

#[test]
fn no_ink_gives_empty_glyph_and_oversized_box_none() {
    let g = compose_glyphs(&vec![ch(0, 0, 5, 0, 0, vec![])]).unwrap();
    assert_eq!((g.width, g.height, g.coverage.len()), (0, 0, 0));
    let wide = vec![ch(0, 0, 70000, 1, 1, vec![1]), ch(0, 0, 1, 1, 1, vec![1])];
    assert!(compose_glyphs(&wide).is_none());
}
