use vstd::prelude::*;

use crate::bus::{BATTERY_CHARGING, BATTERY_DISABLED, BATTERY_FULL};
use crate::canvas::{draw_glyph, paint_glyph, Color, Pixel};
use crate::glyph::{GlyphCache, GlyphId, GlyphView};

verus! {

/// Height of the bar in pixels; glyphs are centred vertically in it.
pub const BAR_HEIGHT: usize = 28;

/// Most glyphs one slot holds.
pub const MAX_ITEMS: usize = 64;

/// Largest gap that follows a glyph.
pub const MAX_GAP: usize = 10;

/// A glyph to draw, its color and the gap in pixels that follows it.
#[derive(Clone, Copy, Debug, PartialEq, Eq, Structural)]
pub struct Item {
    pub glyph: GlyphId,
    pub color: Color,
    pub gap: usize,
}

pub open spec fn time_color() -> Color {
    Color { b: 0xf7, g: 0xa6, r: 0xcb, a: 0xff }
}

pub open spec fn focused_color() -> Color {
    Color { b: 0xff, g: 0xff, r: 0xff, a: 0xff }
}

pub open spec fn unfocused_color() -> Color {
    Color { b: 0xf7, g: 0xa6, r: 0xcb, a: 0xff }
}

pub open spec fn date_color() -> Color {
    Color { b: 0xec, g: 0xc7, r: 0x74, a: 0xff }
}

pub open spec fn battery_color() -> Color {
    Color { b: 0xa1, g: 0xe3, r: 0xa6, a: 0xff }
}

pub open spec fn digit(v: int) -> GlyphId {
    GlyphId::Digit(v as u8)
}

/// Tens and units of `v`, zero-padded.
pub open spec fn two_digits(v: int) -> Seq<GlyphId> {
    seq![digit((v / 10) % 10), digit(v % 10)]
}

/// The hour as a 12-hour clock shows it.
pub open spec fn hour12(h: int) -> int {
    if h == 0 {
        12
    } else if h > 12 {
        h - 12
    } else {
        h
    }
}

/// `HH:MM AM` or `HH:MM PM`.
pub open spec fn clock_text(h: u8, m: u8) -> Seq<GlyphId> {
    two_digits(hour12(h as int)) + seq![GlyphId::Colon] + two_digits(m as int) + seq![
        GlyphId::Space,
        if h >= 12 {
            GlyphId::Pm
        } else {
            GlyphId::Am
        },
    ]
}

/// `DD/MM/YY`.
pub open spec fn date_text(day: u8, month: u8, year: u8) -> Seq<GlyphId> {
    two_digits(day as int) + seq![GlyphId::Slash] + two_digits(month as int) + seq![
        GlyphId::Slash,
    ] + two_digits(year as int)
}

/// A percentage in as many digits as it needs.
pub open spec fn percent_text(p: u8) -> Seq<GlyphId> {
    if p == 100 {
        seq![digit(1), digit(0), digit(0)]
    } else if p >= 10 {
        seq![digit(p as int / 10), digit(p as int % 10)]
    } else {
        seq![digit(p as int)]
    }
}

/// Hours shown for a remaining-time estimate; two digits cap it at 99.
pub open spec fn estimate_hours(est: u16) -> int {
    if est / 60 > 99 {
        99
    } else {
        est as int / 60
    }
}

/// Minutes shown for a remaining-time estimate.
pub open spec fn estimate_minutes(est: u16) -> int {
    if est / 60 > 99 {
        59
    } else {
        est as int % 60
    }
}

/// Nothing when battery reporting is disabled; only the full label when
/// the battery is full; nothing when its level is unknown (above 100); else
/// `P% + HH:MM` with `+` while charging and `-` otherwise. The estimate
/// shows hours and minutes in two digits each, so from 100 hours on it
/// shows 99:59.
pub open spec fn battery_text(p: u8, state: u8, est: u16) -> Seq<GlyphId> {
    if state == BATTERY_DISABLED {
        Seq::empty()
    } else if state == BATTERY_FULL {
        seq![GlyphId::Full]
    } else if p > 100 {
        Seq::empty()
    } else {
        percent_text(p) + seq![
            GlyphId::Percent,
            GlyphId::Space,
            if state == BATTERY_CHARGING {
                GlyphId::Plus
            } else {
                GlyphId::Minus
            },
            GlyphId::Space,
        ] + two_digits(estimate_hours(est)) + seq![GlyphId::Colon] + two_digits(
            estimate_minutes(est),
        )
    }
}

/// The glyphs of a text in one color, one pixel apart.
pub open spec fn spaced(text: Seq<GlyphId>, color: Color) -> Seq<Item> {
    Seq::new(
        text.len(),
        |i: int| Item { glyph: text[i], color, gap: if i + 1 < text.len() { 1 } else { 0 } },
    )
}

/// The glyphs of workspace `n`: its digit, or "1" and "0" for workspace 10.
pub open spec fn workspace_glyphs(n: int, color: Color) -> Seq<Item> {
    if n == 10 {
        seq![
            Item { glyph: digit(1), color, gap: 1 },
            Item { glyph: digit(0), color, gap: MAX_GAP },
        ]
    } else {
        seq![Item { glyph: digit(n), color, gap: MAX_GAP }]
    }
}

/// The workspaces among 1 to `n` that are occupied or active, in ascending
/// order, the active one in the focused color.
pub open spec fn workspace_row(active: u8, occupied: Seq<bool>, n: int) -> Seq<Item>
    decreases n,
{
    if n <= 0 {
        Seq::empty()
    } else {
        let before = workspace_row(active, occupied, n - 1);
        if occupied[n - 1] || active == n {
            before + workspace_glyphs(
                n,
                if active == n {
                    focused_color()
                } else {
                    unfocused_color()
                },
            )
        } else {
            before
        }
    }
}

/// Every item names a glyph of the cache and has a gap of at most `MAX_GAP`.
pub open spec fn items_ok(items: Seq<Item>) -> bool {
    &&& items.len() <= MAX_ITEMS
    &&& forall|i: int| 0 <= i < items.len() ==> (#[trigger] items[i]).glyph.valid() && items[i].gap <= MAX_GAP
}

/// Horizontal room the items take: each glyph's width and its gap.
pub open spec fn items_width(items: Seq<Item>, gv: Seq<GlyphView>) -> int
    decreases items.len(),
{
    if items.len() == 0 {
        0
    } else {
        items_width(items.drop_last(), gv) + gv[items.last().glyph.index()].width
            + items.last().gap
    }
}

/// Row of a glyph's top when it is centred in the bar.
pub open spec fn glyph_top(g: GlyphView) -> int {
    if g.height <= BAR_HEIGHT {
        (BAR_HEIGHT - g.height) / 2
    } else {
        0
    }
}

/// The rows of `width` pixels in `px` after drawing the items left to
/// right from column `x0`, cut off at column `limit`.
pub open spec fn paint_items(
    px: Seq<Pixel>,
    width: int,
    x0: int,
    limit: int,
    items: Seq<Item>,
    gv: Seq<GlyphView>,
) -> Seq<Pixel>
    decreases items.len(),
{
    if items.len() == 0 {
        px
    } else {
        let g = gv[items.last().glyph.index()];
        paint_glyph(
            paint_items(px, width, x0, limit, items.drop_last(), gv),
            width,
            x0 + items_width(items.drop_last(), gv),
            glyph_top(g),
            limit,
            items.last().color,
            g,
        )
    }
}

proof fn lemma_items_width_bound(items: Seq<Item>, gv: Seq<GlyphView>)
    requires
        items_ok(items),
        forall|i: int| 0 <= i < gv.len() ==> (#[trigger] gv[i]).wf(),
        gv.len() == 19,
    ensures
        0 <= items_width(items, gv) <= items.len() * (65535 + MAX_GAP),
    decreases items.len(),
{
    if items.len() > 0 {
        let rest = items.drop_last();
        assert forall|i: int| 0 <= i < rest.len() implies (#[trigger] rest[i]).glyph.valid()
            && rest[i].gap <= MAX_GAP by {
            assert(rest[i] == items[i]);
        }
        lemma_items_width_bound(rest, gv);
        assert(items.last() == items[items.len() - 1]);
        assert(gv[items.last().glyph.index()].wf());
    }
}

/// The total width of the items in this cache's glyphs.
pub fn content_width(cache: &GlyphCache, items: &Vec<Item>) -> (r: usize)
    requires
        cache.wf(),
        items_ok(items@),
    ensures
        r == items_width(items@, cache@),
        r <= MAX_ITEMS * (65535 + MAX_GAP),
{
    let mut total: usize = 0;
    let mut k: usize = 0;
    while k < items.len()
        invariant
            cache.wf(),
            items_ok(items@),
            k <= items@.len(),
            total == items_width(items@.take(k as int), cache@),
        decreases items@.len() - k,
    {
        let it = items[k];
        proof {
            assert(items@.take(k + 1).drop_last() =~= items@.take(k as int));
            assert(items@.take(k + 1).last() == it);
            lemma_items_width_bound(items@.take(k as int), cache@);
            assert(it.glyph.valid() && it.gap <= MAX_GAP);
            assert(cache@[it.glyph.index()].wf());
        }
        total = total + cache.glyph(it.glyph).width + it.gap;
        k = k + 1;
    }
    assert(items@.take(k as int) =~= items@);
    proof {
        lemma_items_width_bound(items@, cache@);
    }
    total
}

/// Draws the items left to right from column `x0`, each centred
/// vertically, leaving the columns from `limit` on untouched.
pub fn draw_items(
    pixels: &mut Vec<Pixel>,
    width: usize,
    x0: usize,
    limit: usize,
    items: &Vec<Item>,
    cache: &GlyphCache,
)
    requires
        width > 0,
        x0 <= 0x4000_0000,
        cache.wf(),
        items_ok(items@),
    ensures
        final(pixels)@ == paint_items(old(pixels)@, width as int, x0 as int, limit as int, items@, cache@),
        final(pixels)@.len() == old(pixels)@.len(),
{
    let ghost start = pixels@;
    let mut x = x0;
    let mut k: usize = 0;
    while k < items.len()
        invariant
            width > 0,
            x0 <= 0x4000_0000,
            cache.wf(),
            items_ok(items@),
            k <= items@.len(),
            x == x0 + items_width(items@.take(k as int), cache@),
            pixels@.len() == start.len(),
            pixels@ == paint_items(start, width as int, x0 as int, limit as int, items@.take(k as int), cache@),
        decreases items@.len() - k,
    {
        let it = items[k];
        proof {
            assert(items@.take(k + 1).drop_last() =~= items@.take(k as int));
            assert(items@.take(k + 1).last() == it);
            lemma_items_width_bound(items@.take(k as int), cache@);
            assert(it.glyph.valid() && it.gap <= MAX_GAP);
            assert(cache@[it.glyph.index()].wf());
        }
        let g = cache.glyph(it.glyph);
        let top = if g.height <= BAR_HEIGHT {
            (BAR_HEIGHT - g.height) / 2
        } else {
            0
        };
        draw_glyph(pixels, width, x, top, limit, it.color, g);
        x = x + g.width + it.gap;
        k = k + 1;
    }
    assert(items@.take(k as int) =~= items@);
}

/// The number a sequence of digit glyphs spells, most significant first.
pub open spec fn digits_value(s: Seq<GlyphId>) -> int
    decreases s.len(),
{
    if s.len() == 0 {
        0
    } else {
        digits_value(s.drop_last()) * 10 + match s.last() {
            GlyphId::Digit(d) => d as int,
            _ => 0,
        }
    }
}

pub open spec fn all_digits(s: Seq<GlyphId>) -> bool {
    forall|i: int| 0 <= i < s.len() ==> ((#[trigger] s[i]) matches GlyphId::Digit(d) && d < 10)
}

/// A battery percentage shows as "100" exactly when it is 100, as two
/// digits exactly when it is from 10 to 99, and as one digit exactly when
/// it is below 10; the digits spell the percentage, and they open the
/// battery slot unless the battery is full or disabled.
pub proof fn lemma_percent_digits(p: u8, state: u8, est: u16)
    requires
        p <= 100,
    ensures
        percent_text(p).len() == 3 <==> p == 100,
        percent_text(p).len() == 2 <==> 10 <= p < 100,
        percent_text(p).len() == 1 <==> p < 10,
        all_digits(percent_text(p)),
        digits_value(percent_text(p)) == p,
        state != BATTERY_FULL && state != BATTERY_DISABLED ==> battery_text(p, state, est).subrange(
            0,
            percent_text(p).len() as int,
        ) == percent_text(p),
{
    let t = percent_text(p);
    reveal_with_fuel(digits_value, 4);
    if t.len() == 3 {
        assert(t.drop_last() =~= seq![digit(1), digit(0)]);
        assert(t.drop_last().drop_last() =~= seq![digit(1)]);
        assert(t.drop_last().drop_last().drop_last() =~= Seq::<GlyphId>::empty());
    } else if t.len() == 2 {
        assert(t.drop_last() =~= seq![digit(p as int / 10)]);
        assert(t.drop_last().drop_last() =~= Seq::<GlyphId>::empty());
    } else {
        assert(t.drop_last() =~= Seq::<GlyphId>::empty());
    }
    if state != BATTERY_FULL && state != BATTERY_DISABLED {
        assert(battery_text(p, state, est).subrange(0, t.len() as int) =~= t);
    }
}

/// For every hour of the day the clock shows 12 for hour 0, the hour less
/// 12 after noon, and the hour itself otherwise, followed by the minutes;
/// it shows PM exactly from hour 12 on.
pub proof fn lemma_clock_display(h: u8, m: u8)
    requires
        h < 24,
        m < 60,
    ensures
        all_digits(clock_text(h, m).subrange(0, 2)),
        digits_value(clock_text(h, m).subrange(0, 2)) == (if h == 0 {
            12
        } else if h > 12 {
            h - 12
        } else {
            h as int
        }),
        digits_value(clock_text(h, m).subrange(3, 5)) == m,
        clock_text(h, m).last() == GlyphId::Pm <==> h >= 12,
        clock_text(h, m).last() == GlyphId::Am <==> h < 12,
{
    let t = clock_text(h, m);
    let hh = hour12(h as int);
    assert(t.subrange(0, 2) =~= two_digits(hh));
    assert(t.subrange(3, 5) =~= two_digits(m as int));
    lemma_two_digits_value(hh);
    lemma_two_digits_value(m as int);
}

proof fn lemma_two_digits_value(v: int)
    requires
        0 <= v < 100,
    ensures
        all_digits(two_digits(v)),
        digits_value(two_digits(v)) == v,
{
    let t = two_digits(v);
    reveal_with_fuel(digits_value, 3);
    assert(t.drop_last() =~= seq![digit((v / 10) % 10)]);
    assert(t.drop_last().drop_last() =~= Seq::<GlyphId>::empty());
}

/// Appends the two digits of `v`, which is below 100.
fn push_two_digits(out: &mut Vec<GlyphId>, v: u16)
    ensures
        final(out)@ == old(out)@ + two_digits(v as int),
{
    out.push(GlyphId::Digit(((v / 10) % 10) as u8));
    out.push(GlyphId::Digit((v % 10) as u8));
    assert(out@ =~= old(out)@ + two_digits(v as int));
}

/// The hour as a 12-hour clock shows it.
pub fn display_hour(h: u8) -> (r: u8)
    ensures
        r == hour12(h as int),
{
    if h == 0 {
        12
    } else if h > 12 {
        h - 12
    } else {
        h
    }
}

/// The glyphs of the clock slot.
pub fn clock_glyphs(h: u8, m: u8) -> (r: Vec<GlyphId>)
    ensures
        r@ == clock_text(h, m),
{
    let mut out: Vec<GlyphId> = Vec::new();
    push_two_digits(&mut out, display_hour(h) as u16);
    out.push(GlyphId::Colon);
    push_two_digits(&mut out, m as u16);
    out.push(GlyphId::Space);
    out.push(if h >= 12 { GlyphId::Pm } else { GlyphId::Am });
    assert(out@ =~= clock_text(h, m));
    out
}

/// The glyphs of the date slot.
pub fn date_glyphs(day: u8, month: u8, year: u8) -> (r: Vec<GlyphId>)
    ensures
        r@ == date_text(day, month, year),
{
    let mut out: Vec<GlyphId> = Vec::new();
    push_two_digits(&mut out, day as u16);
    out.push(GlyphId::Slash);
    push_two_digits(&mut out, month as u16);
    out.push(GlyphId::Slash);
    push_two_digits(&mut out, year as u16);
    assert(out@ =~= date_text(day, month, year));
    out
}

/// The glyphs of the battery slot.
pub fn battery_glyphs(percent: u8, state: u8, estimate: u16) -> (r: Vec<GlyphId>)
    ensures
        r@ == battery_text(percent, state, estimate),
{
    let mut out: Vec<GlyphId> = Vec::new();
    if state == BATTERY_DISABLED {
        return out;
    }
    if state == BATTERY_FULL {
        out.push(GlyphId::Full);
        assert(out@ =~= battery_text(percent, state, estimate));
        return out;
    }
    if percent > 100 {
        return out;
    }
    if percent == 100 {
        out.push(GlyphId::Digit(1));
        out.push(GlyphId::Digit(0));
        out.push(GlyphId::Digit(0));
    } else if percent >= 10 {
        out.push(GlyphId::Digit(percent / 10));
        out.push(GlyphId::Digit(percent % 10));
    } else {
        out.push(GlyphId::Digit(percent));
    }
    assert(out@ =~= percent_text(percent));
    out.push(GlyphId::Percent);
    out.push(GlyphId::Space);
    out.push(if state == BATTERY_CHARGING { GlyphId::Plus } else { GlyphId::Minus });
    out.push(GlyphId::Space);
    let (hours, minutes) = if estimate / 60 > 99 {
        (99u16, 59u16)
    } else {
        (estimate / 60, estimate % 60)
    };
    push_two_digits(&mut out, hours);
    out.push(GlyphId::Colon);
    push_two_digits(&mut out, minutes);
    assert(out@ =~= battery_text(percent, state, estimate));
    out
}

/// The glyphs of a text in one color, one pixel apart.
pub fn spaced_items(text: &Vec<GlyphId>, color: Color) -> (r: Vec<Item>)
    ensures
        r@ == spaced(text@, color),
{
    let mut out: Vec<Item> = Vec::new();
    let mut i: usize = 0;
    while i < text.len()
        invariant
            i <= text@.len(),
            out@ =~= spaced(text@, color).take(i as int),
        decreases text@.len() - i,
    {
        let gap: usize = if i + 1 < text.len() { 1 } else { 0 };
        out.push(Item { glyph: text[i], color, gap });
        i = i + 1;
    }
    out
}

/// The workspace slot: workspaces 1 to 10 that are occupied or active, in
/// ascending order, the active one in the focused color.
pub fn workspace_items(active: u8, occupied: &[bool; 10]) -> (r: Vec<Item>)
    ensures
        r@ == workspace_row(active, occupied@, 10),
{
    let mut out: Vec<Item> = Vec::new();
    let mut n: u8 = 1;
    while n <= 10
        invariant
            1 <= n <= 11,
            out@ == workspace_row(active, occupied@, n - 1),
        decreases 11 - n,
    {
        if occupied[(n - 1) as usize] || active == n {
            let color = if active == n {
                Color { b: 0xff, g: 0xff, r: 0xff, a: 0xff }
            } else {
                Color { b: 0xf7, g: 0xa6, r: 0xcb, a: 0xff }
            };
            let ghost before = out@;
            if n == 10 {
                out.push(Item { glyph: GlyphId::Digit(1), color, gap: 1 });
                out.push(Item { glyph: GlyphId::Digit(0), color, gap: MAX_GAP });
            } else {
                out.push(Item { glyph: GlyphId::Digit(n), color, gap: MAX_GAP });
            }
            assert(out@ =~= before + workspace_glyphs(n as int, color));
        }
        n = n + 1;
    }
    out
}

} // verus!
