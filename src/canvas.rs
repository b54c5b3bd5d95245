use vstd::prelude::*;

use crate::glyph::{GlyphView, RasterizedGlyph};

verus! {

/// One premultiplied pixel, in the byte order blue, green, red, alpha.
#[derive(Clone, Copy, Debug, PartialEq, Eq, Structural)]
pub struct Pixel {
    pub b: u8,
    pub g: u8,
    pub r: u8,
    pub a: u8,
}

/// A straight (not premultiplied) drawing color.
#[derive(Clone, Copy, Debug, PartialEq, Eq, Structural)]
pub struct Color {
    pub b: u8,
    pub g: u8,
    pub r: u8,
    pub a: u8,
}

pub open spec fn transparent() -> Pixel {
    Pixel { b: 0, g: 0, r: 0, a: 0 }
}

/// The pixel that `color` at coverage `cov` leaves over a black background:
/// alpha is scaled by the coverage, then each channel by that alpha.
pub open spec fn shade_spec(color: Color, cov: u8) -> Pixel {
    let a = color.a * cov / 255;
    Pixel { b: (color.b * a / 255) as u8, g: (color.g * a / 255) as u8, r: (color.r * a / 255) as u8, a: a as u8 }
}

/// Whether the glyph placed with its top-left corner at column `x0`, row
/// `y0`, and cut off at column `limit`, leaves ink on the cell at row `r`,
/// column `c`.
pub open spec fn covers(g: GlyphView, x0: int, y0: int, limit: int, r: int, c: int) -> bool {
    &&& y0 <= r < y0 + g.height
    &&& x0 <= c < x0 + g.width
    &&& c < limit
    &&& g.coverage[(r - y0) * g.width + (c - x0)] != 0
}

pub open spec fn glyph_pixel(
    old: Pixel,
    g: GlyphView,
    x0: int,
    y0: int,
    limit: int,
    color: Color,
    r: int,
    c: int,
) -> Pixel {
    if covers(g, x0, y0, limit, r, c) {
        shade_spec(color, g.coverage[(r - y0) * g.width + (c - x0)])
    } else {
        old
    }
}

/// The rows of `width` pixels in `px` after compositing glyph `g` at (`x0`, `y0`).
/// Cells outside the buffer or from column `limit` on are dropped; cells of
/// zero coverage keep their pixel.
pub open spec fn paint_glyph(
    px: Seq<Pixel>,
    width: int,
    x0: int,
    y0: int,
    limit: int,
    color: Color,
    g: GlyphView,
) -> Seq<Pixel> {
    Seq::new(px.len(), |i: int| glyph_pixel(px[i], g, x0, y0, limit, color, i / width, i % width))
}

/// The rows of `width` pixels in `px` with columns `x0 .. x0 + w` made transparent.
pub open spec fn clear_columns_spec(px: Seq<Pixel>, width: int, x0: int, w: int) -> Seq<Pixel> {
    Seq::new(
        px.len(),
        |i: int|
            if x0 <= i % width < x0 + w {
                transparent()
            } else {
                px[i]
            },
    )
}

/// Applies `shade_spec`.
pub fn shade(color: Color, cov: u8) -> (p: Pixel)
    ensures
        p == shade_spec(color, cov),
{
    assert(color.a * cov <= 255 * 255) by (nonlinear_arith)
        requires
            color.a <= 255,
            cov <= 255,
    ;
    let a: u32 = (color.a as u32 * cov as u32) / 255;
    assert(a <= 255) by (nonlinear_arith)
        requires
            a == color.a * cov / 255,
            color.a * cov <= 255 * 255,
    ;
    assert(color.b * a <= 255 * 255 && color.g * a <= 255 * 255 && color.r * a <= 255 * 255)
        by (nonlinear_arith)
        requires
            a <= 255,
            color.b <= 255,
            color.g <= 255,
            color.r <= 255,
    ;
    let b: u32 = (color.b as u32 * a) / 255;
    let g: u32 = (color.g as u32 * a) / 255;
    let r: u32 = (color.r as u32 * a) / 255;
    Pixel { b: b as u8, g: g as u8, r: r as u8, a: a as u8 }
}

/// Makes columns `x0 .. x0 + w` of every row transparent.
pub fn clear_columns(pixels: &mut Vec<Pixel>, width: usize, x0: usize, w: usize)
    requires
        width > 0,
    ensures
        final(pixels)@ == clear_columns_spec(old(pixels)@, width as int, x0 as int, w as int),
{
    let ghost start = pixels@;
    let n = pixels.len();
    let mut i: usize = 0;
    while i < n
        invariant
            width > 0,
            n == start.len(),
            pixels@.len() == n,
            i <= n,
            forall|j: int|
                0 <= j < n ==> #[trigger] pixels@[j] == if j < i {
                    clear_columns_spec(start, width as int, x0 as int, w as int)[j]
                } else {
                    start[j]
                },
        decreases n - i,
    {
        let c = i % width;
        if x0 <= c && c - x0 < w {
            pixels.set(i, Pixel { b: 0, g: 0, r: 0, a: 0 });
        }
        i = i + 1;
    }
    assert(pixels@ =~= clear_columns_spec(start, width as int, x0 as int, w as int));
}

/// Composites glyph `g` in `color` with its top-left corner at (`x0`, `y0`),
/// leaving the columns from `limit` on untouched.
pub fn draw_glyph(
    pixels: &mut Vec<Pixel>,
    width: usize,
    x0: usize,
    y0: usize,
    limit: usize,
    color: Color,
    g: &RasterizedGlyph,
)
    requires
        width > 0,
        g@.wf(),
    ensures
        final(pixels)@ == paint_glyph(old(pixels)@, width as int, x0 as int, y0 as int, limit as int, color, g@),
{
    let ghost start = pixels@;
    let n = pixels.len();
    let gw = g.width;
    let gh = g.height;
    let mut i: usize = 0;
    while i < n
        invariant
            width > 0,
            g@.wf(),
            gw == g@.width,
            gh == g@.height,
            n == start.len(),
            pixels@.len() == n,
            i <= n,
            forall|j: int|
                0 <= j < n ==> #[trigger] pixels@[j] == if j < i {
                    paint_glyph(start, width as int, x0 as int, y0 as int, limit as int, color, g@)[j]
                } else {
                    start[j]
                },
        decreases n - i,
    {
        let r = i / width;
        let c = i % width;
        if r >= y0 && r - y0 < gh && c >= x0 && c - x0 < gw && c < limit {
            let dr = r - y0;
            let dc = c - x0;
            assert(dr * gw + dc < gw * gh) by (nonlinear_arith)
                requires
                    dr < gh,
                    dc < gw,
            ;
            assert(dr * gw + dc <= 65535 * 65535) by (nonlinear_arith)
                requires
                    dr < gh,
                    dc < gw,
                    gh <= 65535,
                    gw <= 65535,
            ;
            let cov = g.coverage[dr * gw + dc];
            if cov != 0 {
                pixels.set(i, shade(color, cov));
            }
        }
        i = i + 1;
    }
    assert(pixels@ =~= paint_glyph(start, width as int, x0 as int, y0 as int, limit as int, color, g@));
}

} // verus!
