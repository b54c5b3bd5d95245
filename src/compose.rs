use vstd::prelude::*;

use crate::glyph::{GlyphView, RasterizedGlyph, MAX_GLYPH_SIDE};

verus! {

/// One character's bitmap and where it sits: `xmin` is the horizontal
/// bearing from the pen position to the bitmap's left edge, `ymin` the
/// height of its bottom edge above the baseline, and `advance` how far the
/// pen moves after it.
pub struct CharBitmap {
    pub xmin: i32,
    pub ymin: i32,
    pub advance: i32,
    pub width: usize,
    pub height: usize,
    pub coverage: Vec<u8>,
}

pub ghost struct CharView {
    pub xmin: int,
    pub ymin: int,
    pub advance: int,
    pub width: nat,
    pub height: nat,
    pub coverage: Seq<u8>,
}

impl View for CharBitmap {
    type V = CharView;

    open spec fn view(&self) -> CharView {
        CharView {
            xmin: self.xmin as int,
            ymin: self.ymin as int,
            advance: self.advance as int,
            width: self.width as nat,
            height: self.height as nat,
            coverage: self.coverage@,
        }
    }
}

impl CharView {
    pub open spec fn wf(self) -> bool {
        &&& self.width <= MAX_GLYPH_SIDE
        &&& self.height <= MAX_GLYPH_SIDE
        &&& self.coverage.len() == self.width * self.height
    }

    pub open spec fn has_ink(self) -> bool {
        self.width > 0 && self.height > 0
    }
}

/// Pen position before character `k`: the advances of those before it.
pub open spec fn pen(cs: Seq<CharView>, k: int) -> int
    decreases k,
{
    if k <= 0 {
        0
    } else {
        pen(cs, k - 1) + cs[k - 1].advance
    }
}

/// Left, right, bottom and top edges of character `k`'s ink; rows count
/// upwards from the baseline.
pub open spec fn char_box(cs: Seq<CharView>, k: int) -> (int, int, int, int) {
    let l = pen(cs, k) + cs[k].xmin;
    (l, l + cs[k].width, cs[k].ymin, cs[k].ymin + cs[k].height)
}

pub open spec fn union_box(a: (int, int, int, int), b: (int, int, int, int)) -> (int, int, int, int) {
    (
        if a.0 < b.0 { a.0 } else { b.0 },
        if a.1 > b.1 { a.1 } else { b.1 },
        if a.2 < b.2 { a.2 } else { b.2 },
        if a.3 > b.3 { a.3 } else { b.3 },
    )
}

/// The box spanning the ink of the first `n` characters; none without ink.
pub open spec fn ink_box(cs: Seq<CharView>, n: int) -> Option<(int, int, int, int)>
    decreases n,
{
    if n <= 0 {
        None
    } else {
        let prev = ink_box(cs, n - 1);
        if !cs[n - 1].has_ink() {
            prev
        } else {
            match prev {
                Some(b) => Some(union_box(b, char_box(cs, n - 1))),
                None => Some(char_box(cs, n - 1)),
            }
        }
    }
}

/// Coverage that character `k` gives the cell at row `r` (from the top)
/// and column `c` of a box whose left edge is `left` and top edge `top`.
pub open spec fn char_cell(cs: Seq<CharView>, k: int, left: int, top: int, r: int, c: int) -> u8 {
    let x0 = pen(cs, k) + cs[k].xmin - left;
    let y0 = top - (cs[k].ymin + cs[k].height);
    if y0 <= r < y0 + cs[k].height && x0 <= c < x0 + cs[k].width {
        cs[k].coverage[(r - y0) * cs[k].width + (c - x0)]
    } else {
        0
    }
}

/// Largest coverage the first `n` characters give a cell.
pub open spec fn cell(cs: Seq<CharView>, n: int, left: int, top: int, r: int, c: int) -> u8
    decreases n,
{
    if n <= 0 {
        0
    } else {
        let a = cell(cs, n - 1, left, top, r, c);
        let b = char_cell(cs, n - 1, left, top, r, c);
        if a > b {
            a
        } else {
            b
        }
    }
}

/// The glyph of a string: one bitmap as large as the box spanning every
/// character's ink, each character composited at its pen position and
/// bearing, overlapping cells keeping the larger coverage. No glyph when
/// the box is wider or taller than a glyph may be.
pub open spec fn composed(cs: Seq<CharView>) -> Option<GlyphView> {
    match ink_box(cs, cs.len() as int) {
        None => Some(GlyphView { width: 0, height: 0, coverage: Seq::empty() }),
        Some(b) => {
            let w = b.1 - b.0;
            let h = b.3 - b.2;
            if w > MAX_GLYPH_SIDE || h > MAX_GLYPH_SIDE {
                None
            } else {
                Some(
                    GlyphView {
                        width: w as nat,
                        height: h as nat,
                        coverage: Seq::new(
                            (w * h) as nat,
                            |i: int| cell(cs, cs.len() as int, b.0, b.3, i / w, i % w),
                        ),
                    },
                )
            }
        },
    }
}

pub open spec fn chars_ok(cs: Seq<CharView>) -> bool {
    forall|k: int| 0 <= k < cs.len() ==> (#[trigger] cs[k]).wf()
}

proof fn lemma_pen_bound(cs: Seq<CharView>, k: int)
    requires
        0 <= k <= cs.len(),
        forall|j: int| 0 <= j < cs.len() ==> i32::MIN <= (#[trigger] cs[j]).advance <= i32::MAX,
    ensures
        -k * 0x8000_0000 <= pen(cs, k) <= k * 0x8000_0000,
    decreases k,
{
    if k > 0 {
        lemma_pen_bound(cs, k - 1);
        assert(i32::MIN <= cs[k - 1].advance <= i32::MAX);
    }
}

/// Composes the bitmaps of a string's characters into one glyph.
pub fn compose_glyphs(chars: &Vec<CharBitmap>) -> (r: Option<RasterizedGlyph>)
    requires
        chars@.len() <= 0x4000_0000,
        chars_ok(chars@.map_values(|c: CharBitmap| c@)),
    ensures
        match composed(chars@.map_values(|c: CharBitmap| c@)) {
            Some(g) => r matches Some(out) && out@ == g && out@.wf(),
            None => r is None,
        },
{
    let ghost cs = chars@.map_values(|c: CharBitmap| c@);
    let n = chars.len();
    let mut pen_x: i64 = 0;
    let mut found = false;
    let mut left: i64 = 0;
    let mut right: i64 = 0;
    let mut bottom: i64 = 0;
    let mut top: i64 = 0;
    let mut k: usize = 0;
    while k < n
        invariant
            n == chars@.len(),
            n <= 0x4000_0000,
            cs == chars@.map_values(|c: CharBitmap| c@),
            chars_ok(cs),
            k <= n,
            pen_x == pen(cs, k as int),
            found == (ink_box(cs, k as int) is Some),
            found ==> ink_box(cs, k as int) == Some((left as int, right as int, bottom as int, top as int)),
            found ==> left < right && bottom < top,
            -0x2000_0001_0000_0000 <= left <= 0x2000_0001_0000_0000,
            -0x2000_0001_0000_0000 <= right <= 0x2000_0001_0000_0000,
            -0x1_0000_0000 <= bottom <= 0x1_0000_0000,
            -0x1_0000_0000 <= top <= 0x1_0000_0000,
        decreases n - k,
    {
        let c = &chars[k];
        assert(cs[k as int] == c@);
        assert(cs[k as int].wf());
        proof {
            assert forall|j: int| 0 <= j < cs.len() implies i32::MIN <= (#[trigger] cs[j]).advance <= i32::MAX by {
                assert(cs[j] == chars@[j]@);
            }
            lemma_pen_bound(cs, k as int);
            assert(-(k as int) * 0x8000_0000 >= -0x4000_0000 * 0x8000_0000) by (nonlinear_arith)
                requires k <= 0x4000_0000;
            assert((k as int) * 0x8000_0000 <= 0x4000_0000 * 0x8000_0000) by (nonlinear_arith)
                requires k <= 0x4000_0000;
        }
        if c.width > 0 && c.height > 0 {
            let l = pen_x + c.xmin as i64;
            let rr = l + c.width as i64;
            let b = c.ymin as i64;
            let t = b + c.height as i64;
            if found {
                if l < left {
                    left = l;
                }
                if rr > right {
                    right = rr;
                }
                if b < bottom {
                    bottom = b;
                }
                if t > top {
                    top = t;
                }
            } else {
                left = l;
                right = rr;
                bottom = b;
                top = t;
                found = true;
            }
        }
        pen_x = pen_x + c.advance as i64;
        k = k + 1;
    }
    if !found {
        return Some(RasterizedGlyph { width: 0, height: 0, coverage: Vec::new() });
    }
    if right - left > 65535 || top - bottom > 65535 {
        return None;
    }
    let w = (right - left) as usize;
    let h = (top - bottom) as usize;
    assert(w * h <= 65535 * 65535) by (nonlinear_arith)
        requires
            w <= 65535,
            h <= 65535,
    ;
    let total = w * h;
    let mut out: Vec<u8> = Vec::new();
    let mut i: usize = 0;
    while i < total
        invariant
            i <= total,
            out@ =~= Seq::new(i as nat, |j: int| 0u8),
        decreases total - i,
    {
        out.push(0);
        i = i + 1;
    }
    let ghost wi = w as int;
    let mut pen_x: i64 = 0;
    let mut k: usize = 0;
    while k < n
        invariant
            n == chars@.len(),
            n <= 0x4000_0000,
            cs == chars@.map_values(|c: CharBitmap| c@),
            chars_ok(cs),
            k <= n,
            w > 0,
            w <= 65535,
            wi == w,
            total == w * h,
            pen_x == pen(cs, k as int),
            total <= 65535 * 65535,
            -0x2000_0001_0000_0000 <= left <= 0x2000_0001_0000_0000,
            -0x1_0000_0000 <= top <= 0x1_0000_0000,
            out@.len() == total,
            forall|j: int| 0 <= j < total ==> #[trigger] out@[j] == cell(cs, k as int, left as int, top as int, j / wi, j % wi),
        decreases n - k,
    {
        let c = &chars[k];
        assert(cs[k as int] == c@);
        assert(cs[k as int].wf());
        proof {
            assert forall|j: int| 0 <= j < cs.len() implies i32::MIN <= (#[trigger] cs[j]).advance <= i32::MAX by {
                assert(cs[j] == chars@[j]@);
            }
            lemma_pen_bound(cs, k as int);
            assert(-(k as int) * 0x8000_0000 >= -0x4000_0000 * 0x8000_0000) by (nonlinear_arith)
                requires k <= 0x4000_0000;
            assert((k as int) * 0x8000_0000 <= 0x4000_0000 * 0x8000_0000) by (nonlinear_arith)
                requires k <= 0x4000_0000;
        }
        let cw = c.width;
        let ch = c.height;
        let x0: i64 = pen_x + c.xmin as i64 - left;
        let y0: i64 = top - (c.ymin as i64 + ch as i64);
        let mut i: usize = 0;
        while i < total
            invariant
                cs[k as int] == c@,
                c@.wf(),
                w <= 65535,
                cw == c@.width,
                ch == c@.height,
                w > 0,
                wi == w,
                k < n,
                n == cs.len(),
                x0 == pen(cs, k as int) + cs[k as int].xmin - left,
                y0 == top - (cs[k as int].ymin + cs[k as int].height),
                -0x4100_0000_0000_0000 <= x0 <= 0x4100_0000_0000_0000,
                -0x10_0000_0000 <= y0 <= 0x10_0000_0000,
                total <= 65535 * 65535,
                i <= total,
                out@.len() == total,
                forall|j: int| 0 <= j < total ==> #[trigger] out@[j] == if j < i {
                    cell(cs, k + 1, left as int, top as int, j / wi, j % wi)
                } else {
                    cell(cs, k as int, left as int, top as int, j / wi, j % wi)
                },
            decreases total - i,
        {
            assert(i / w <= i && i % w < w) by (nonlinear_arith)
                requires
                    w > 0,
            ;
            let r = (i / w) as i64;
            let col = (i % w) as i64;
            if r >= y0 && r - y0 < ch as i64 && col >= x0 && col - x0 < cw as i64 {
                let dr = (r - y0) as usize;
                let dc = (col - x0) as usize;
                assert(dr * cw + dc < cw * ch) by (nonlinear_arith)
                    requires
                        dr < ch,
                        dc < cw,
                ;
                assert(dr * cw + dc <= 65535 * 65535) by (nonlinear_arith)
                    requires
                        dr < ch,
                        dc < cw,
                        ch <= 65535,
                        cw <= 65535,
                ;
                let v = c.coverage[dr * cw + dc];
                assert(char_cell(cs, k as int, left as int, top as int, i as int / wi, i as int % wi) == v);
                if v > out[i] {
                    out.set(i, v);
                }
            } else {
                assert(char_cell(cs, k as int, left as int, top as int, i as int / wi, i as int % wi) == 0);
            }
            assert(out@[i as int] == cell(cs, k + 1, left as int, top as int, i as int / wi, i as int % wi));
            i = i + 1;
        }
        pen_x = pen_x + c.advance as i64;
        k = k + 1;
    }
    let g = RasterizedGlyph { width: w, height: h, coverage: out };
    assert(g@.coverage =~= Seq::new((wi * h) as nat, |j: int| cell(cs, cs.len() as int, left as int, top as int, j / wi, j % wi)));
    Some(g)
}

} // verus!
