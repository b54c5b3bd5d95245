use vstd::prelude::*;

use crate::canvas::{clear_columns, clear_columns_spec, transparent, Color, Pixel};
use crate::glyph::{GlyphCache, GlyphId, GlyphView};
use crate::layout::{
    battery_color, battery_glyphs, battery_text, clock_glyphs, clock_text, content_width,
    date_color, date_glyphs, date_text, draw_items, items_ok, items_width, paint_items, spaced,
    spaced_items, time_color, workspace_items, workspace_row, Item, BAR_HEIGHT, MAX_GAP,
    MAX_ITEMS,
};

verus! {

/// Width assumed when the compositor leaves the choice to the client.
pub const DEFAULT_WIDTH: u32 = 1920;

/// Largest pixel buffer, in bytes, that a shared-memory pool can hold.
pub const MAX_BUFFER_BYTES: u64 = 0x7fff_ffff;

/// Width of the workspace slot at the left edge.
pub const WORKSPACE_SLOT_WIDTH: usize = 600;

/// Column where the first workspace is drawn.
pub const LEFT_MARGIN: usize = 10;

/// Room between the date slot and the clock slot, around the middle.
pub const CENTER_GAP: usize = 24;

/// Width of the battery slot at the right edge.
pub const BATTERY_SLOT_WIDTH: usize = 160;

/// Room between the battery text and the right edge.
pub const RIGHT_MARGIN: usize = 10;

/// What the producers last published: one value per field, read at once.
#[derive(Clone, Copy, Debug)]
pub struct StateSnapshot {
    pub active_workspace: u8,
    pub occupied: [bool; 10],
    pub hour: u8,
    pub minute: u8,
    pub day: u8,
    pub month: u8,
    pub year: u8,
    pub battery_percent: u8,
    pub battery_state: u8,
    pub battery_estimate: u16,
}

/// A changed region of the buffer, in pixels.
#[derive(Clone, Copy, Debug, PartialEq, Eq, Structural)]
pub struct Rect {
    pub x: u32,
    pub y: u32,
    pub width: u32,
    pub height: u32,
}

/// What a surface configuration did to the pixel buffer.
#[derive(Clone, Copy, Debug, PartialEq, Eq, Structural)]
pub enum ConfigureOutcome {
    /// A new zeroed buffer of the new size replaced the old one.
    Reallocated,
    /// The size did not change; the buffer was kept.
    Kept,
    /// The size does not fit a shared-memory pool; nothing changed.
    TooLarge,
}

/// The renderer: the pixel buffer, the surface's configuration state,
/// what each slot last showed, and the glyphs to draw with.
pub struct AppState {
    pub width: u32,
    pub height: u32,
    pub pixels: Vec<Pixel>,
    pub configured: bool,
    pub force_full_redraw: bool,
    pub last: StateSnapshot,
    pub glyphs: Option<GlyphCache>,
}

/// Mathematical view of the renderer.
pub ghost struct RenderModel {
    pub width: nat,
    pub height: nat,
    pub pixels: Seq<Pixel>,
    pub configured: bool,
    pub force_full_redraw: bool,
    pub last: StateSnapshot,
    pub glyphs: Option<Seq<GlyphView>>,
}

impl View for AppState {
    type V = RenderModel;

    open spec fn view(&self) -> RenderModel {
        RenderModel {
            width: self.width as nat,
            height: self.height as nat,
            pixels: self.pixels@,
            configured: self.configured,
            force_full_redraw: self.force_full_redraw,
            last: self.last,
            glyphs: match self.glyphs {
                Some(c) => Some(c@),
                None => None,
            },
        }
    }
}

pub open spec fn sat_sub(a: int, b: int) -> int {
    if a > b {
        a - b
    } else {
        0
    }
}

pub open spec fn min(a: int, b: int) -> int {
    if a < b {
        a
    } else {
        b
    }
}

pub open spec fn max(a: int, b: int) -> int {
    if a > b {
        a
    } else {
        b
    }
}

/// Widest of the first `n` digit glyphs.
pub open spec fn max_digit_width(gv: Seq<GlyphView>, n: int) -> int
    decreases n,
{
    if n <= 0 {
        0
    } else {
        max(max_digit_width(gv, n - 1), gv[n - 1].width as int)
    }
}

pub open spec fn date_slot_width(gv: Seq<GlyphView>) -> int {
    max_digit_width(gv, 10) * 6 + gv[GlyphId::Slash.index()].width * 2 + 7
}

pub open spec fn clock_slot_width(gv: Seq<GlyphView>) -> int {
    max_digit_width(gv, 10) * 4 + gv[GlyphId::Colon.index()].width + gv[GlyphId::Space.index()].width
        + max(gv[GlyphId::Am.index()].width as int, gv[GlyphId::Pm.index()].width as int) + 6
}

/// The date slot ends half the centre gap left of the middle.
pub open spec fn date_slot_x(width: int, gv: Seq<GlyphView>) -> int {
    sat_sub(sat_sub(width / 2, (CENTER_GAP / 2) as int), date_slot_width(gv))
}

/// The clock slot starts half the centre gap right of the middle.
pub open spec fn clock_slot_x(width: int) -> int {
    width / 2 + (CENTER_GAP / 2) as int
}

pub open spec fn battery_slot_x(width: int) -> int {
    sat_sub(width, BATTERY_SLOT_WIDTH as int)
}

/// Where battery text of `content` pixels starts: right-aligned to the
/// margin, but never left of its slot.
pub open spec fn battery_start(width: int, content: int) -> int {
    max(battery_slot_x(width), sat_sub(width, RIGHT_MARGIN + content))
}

pub open spec fn workspace_layout(s: StateSnapshot) -> Seq<Item> {
    workspace_row(s.active_workspace, s.occupied@, 10)
}

pub open spec fn date_layout(s: StateSnapshot) -> Seq<Item> {
    spaced(date_text(s.day, s.month, s.year), date_color())
}

pub open spec fn clock_layout(s: StateSnapshot) -> Seq<Item> {
    spaced(clock_text(s.hour, s.minute), time_color())
}

pub open spec fn battery_layout(s: StateSnapshot) -> Seq<Item> {
    spaced(
        battery_text(s.battery_percent, s.battery_state, s.battery_estimate),
        battery_color(),
    )
}

/// Where text of `content` pixels starts when centred in a slot.
pub open spec fn centred(slot_x: int, slot_w: int, content: int) -> int {
    slot_x + sat_sub(slot_w, content) / 2
}

/// The slot's columns cleared, then its items drawn from `start` and cut
/// off where the slot ends.
pub open spec fn repaint(
    px: Seq<Pixel>,
    width: int,
    slot_x: int,
    slot_w: int,
    start: int,
    items: Seq<Item>,
    gv: Seq<GlyphView>,
) -> Seq<Pixel> {
    paint_items(clear_columns_spec(px, width, slot_x, slot_w), width, start, slot_x + slot_w, items, gv)
}

pub open spec fn workspaces_changed(last: StateSnapshot, s: StateSnapshot) -> bool {
    last.active_workspace != s.active_workspace || last.occupied@ != s.occupied@
}

pub open spec fn date_changed(last: StateSnapshot, s: StateSnapshot) -> bool {
    last.day != s.day || last.month != s.month || last.year != s.year
}

pub open spec fn clock_changed(last: StateSnapshot, s: StateSnapshot) -> bool {
    last.hour != s.hour || last.minute != s.minute
}

pub open spec fn battery_changed(last: StateSnapshot, s: StateSnapshot) -> bool {
    last.battery_percent != s.battery_percent || last.battery_state != s.battery_state
        || last.battery_estimate != s.battery_estimate
}

/// The buffer after repainting, in the order workspaces, date, clock,
/// battery, the slots whose flag is set.
pub open spec fn paint_slots(
    px: Seq<Pixel>,
    width: int,
    gv: Seq<GlyphView>,
    s: StateSnapshot,
    ws: bool,
    date: bool,
    clock: bool,
    battery: bool,
) -> Seq<Pixel> {
    let after_ws = if ws {
        repaint(px, width, 0, WORKSPACE_SLOT_WIDTH as int, LEFT_MARGIN as int, workspace_layout(s), gv)
    } else {
        px
    };
    let dx = date_slot_x(width, gv);
    let dw = date_slot_width(gv);
    let after_date = if date {
        repaint(after_ws, width, dx, dw, centred(dx, dw, items_width(date_layout(s), gv)), date_layout(s), gv)
    } else {
        after_ws
    };
    let cx = clock_slot_x(width);
    let cw = clock_slot_width(gv);
    let after_clock = if clock {
        repaint(after_date, width, cx, cw, centred(cx, cw, items_width(clock_layout(s), gv)), clock_layout(s), gv)
    } else {
        after_date
    };
    if battery {
        repaint(
            after_clock,
            width,
            battery_slot_x(width),
            BATTERY_SLOT_WIDTH as int,
            battery_start(width, items_width(battery_layout(s), gv)),
            battery_layout(s),
            gv,
        )
    } else {
        after_clock
    }
}

/// The damage of one slot: its columns clipped to the buffer, if any remain.
pub open spec fn slot_damage(changed: bool, x: int, w: int, width: int, height: int) -> Seq<Rect> {
    if changed && x < width {
        seq![Rect { x: x as u32, y: 0, width: min(w, width - x) as u32, height: height as u32 }]
    } else {
        Seq::empty()
    }
}

impl RenderModel {
    pub open spec fn size_fits(width: int, height: int) -> bool {
        width * height * 4 <= MAX_BUFFER_BYTES
    }

    pub open spec fn wf(self) -> bool {
        &&& self.width <= u32::MAX
        &&& self.height <= u32::MAX
        &&& self.pixels.len() == self.width * self.height
        &&& Self::size_fits(self.width as int, self.height as int)
        &&& self.configured ==> self.width > 0 && self.height > 0
        &&& self.glyphs matches Some(gv) ==> gv.len() == 19 && forall|i: int|
            0 <= i < 19 ==> (#[trigger] gv[i]).wf()
    }

    /// The buffer after a repaint pass over snapshot `s`.
    pub open spec fn pass_pixels(self, s: StateSnapshot) -> Seq<Pixel> {
        match self.glyphs {
            Some(gv) => if self.configured {
                let f = self.force_full_redraw;
                paint_slots(
                    self.pixels,
                    self.width as int,
                    gv,
                    s,
                    f || workspaces_changed(self.last, s),
                    f || date_changed(self.last, s),
                    f || clock_changed(self.last, s),
                    f || battery_changed(self.last, s),
                )
            } else {
                self.pixels
            },
            None => self.pixels,
        }
    }

    /// The renderer after a repaint pass over snapshot `s`: every slot now
    /// shows `s`. Before the first configuration nothing happens.
    pub open spec fn after_pass(self, s: StateSnapshot) -> RenderModel {
        if self.configured {
            RenderModel { pixels: self.pass_pixels(s), force_full_redraw: false, last: s, ..self }
        } else {
            self
        }
    }

    /// The rectangles a repaint pass over `s` reports: the whole buffer when
    /// a full redraw is due, else one per changed slot that reaches into the
    /// buffer; none before the first configuration or without glyphs.
    pub open spec fn pass_damage(self, s: StateSnapshot) -> Seq<Rect> {
        let w = self.width as int;
        let h = self.height as int;
        if !self.configured {
            Seq::empty()
        } else if self.force_full_redraw {
            seq![Rect { x: 0, y: 0, width: w as u32, height: h as u32 }]
        } else {
            match self.glyphs {
                Some(gv) => slot_damage(
                    workspaces_changed(self.last, s),
                    0,
                    WORKSPACE_SLOT_WIDTH as int,
                    w,
                    h,
                ) + slot_damage(date_changed(self.last, s), date_slot_x(w, gv), date_slot_width(gv), w, h)
                    + slot_damage(clock_changed(self.last, s), clock_slot_x(w), clock_slot_width(gv), w, h)
                    + slot_damage(
                    battery_changed(self.last, s),
                    battery_slot_x(w),
                    BATTERY_SLOT_WIDTH as int,
                    w,
                    h,
                ),
                None => Seq::empty(),
            }
        }
    }

    /// The renderer after the surface was configured to `width` by `height`
    /// (zero meaning the default): a new zeroed buffer when the size
    /// changed, and a full redraw due in any case.
    pub open spec fn after_configure(self, width: u32, height: u32) -> RenderModel {
        let w = if width == 0 { DEFAULT_WIDTH as nat } else { width as nat };
        let h = if height == 0 { BAR_HEIGHT as nat } else { height as nat };
        if !Self::size_fits(w as int, h as int) {
            self
        } else if w == self.width && h == self.height {
            RenderModel { configured: true, force_full_redraw: true, ..self }
        } else {
            RenderModel {
                width: w,
                height: h,
                pixels: Seq::new(w * h, |i: int| transparent()),
                configured: true,
                force_full_redraw: true,
                ..self
            }
        }
    }
}

proof fn lemma_spaced_ok(text: Seq<GlyphId>, color: Color)
    requires
        text.len() <= MAX_ITEMS,
        forall|i: int| 0 <= i < text.len() ==> (#[trigger] text[i]).valid(),
    ensures
        items_ok(spaced(text, color)),
{
    let items = spaced(text, color);
    assert forall|i: int| 0 <= i < items.len() implies (#[trigger] items[i]).glyph.valid()
        && items[i].gap <= MAX_GAP by {
        assert(items[i].glyph == text[i]);
    }
}

proof fn lemma_workspace_row_ok(active: u8, occupied: Seq<bool>, n: int)
    requires
        0 <= n <= 10,
        occupied.len() == 10,
    ensures
        workspace_row(active, occupied, n).len() <= (if n == 10 {
            11
        } else {
            n
        }),
        items_ok(workspace_row(active, occupied, n)),
    decreases n,
{
    if n > 0 {
        lemma_workspace_row_ok(active, occupied, n - 1);
        let before = workspace_row(active, occupied, n - 1);
        let row = workspace_row(active, occupied, n);
        if occupied[n - 1] || active == n {
            assert forall|i: int| 0 <= i < row.len() implies (#[trigger] row[i]).glyph.valid()
                && row[i].gap <= MAX_GAP by {
                if i < before.len() {
                    assert(row[i] == before[i]);
                }
            }
        }
    }
}

proof fn lemma_layouts_ok(s: StateSnapshot)
    ensures
        items_ok(workspace_layout(s)),
        items_ok(date_layout(s)),
        items_ok(clock_layout(s)),
        items_ok(battery_layout(s)),
{
    lemma_workspace_row_ok(s.active_workspace, s.occupied@, 10);
    lemma_spaced_ok(date_text(s.day, s.month, s.year), date_color());
    lemma_spaced_ok(clock_text(s.hour, s.minute), time_color());
    lemma_spaced_ok(
        battery_text(s.battery_percent, s.battery_state, s.battery_estimate),
        battery_color(),
    );
}

/// Widest digit glyph of the cache.
fn widest_digit(cache: &GlyphCache) -> (r: usize)
    requires
        cache.wf(),
    ensures
        r == max_digit_width(cache@, 10),
        r <= 65535,
{
    let mut best: usize = 0;
    let mut d: u8 = 0;
    while d < 10
        invariant
            cache.wf(),
            d <= 10,
            best == max_digit_width(cache@, d as int),
            best <= 65535,
        decreases 10 - d,
    {
        assert(cache@[d as int].wf());
        let w = cache.glyph(GlyphId::Digit(d)).width;
        if w > best {
            best = w;
        }
        d = d + 1;
    }
    best
}

/// Whether two sets of workspace flags agree.
fn same_flags(a: &[bool; 10], b: &[bool; 10]) -> (r: bool)
    ensures
        r == (a@ == b@),
{
    let mut i: usize = 0;
    while i < 10
        invariant
            i <= 10,
            a@.len() == 10,
            b@.len() == 10,
            forall|j: int| 0 <= j < i ==> a@[j] == b@[j],
        decreases 10 - i,
    {
        if a[i] != b[i] {
            return false;
        }
        i = i + 1;
    }
    assert(a@ =~= b@);
    true
}

/// Clears a slot's columns and draws its items from `start`.
fn repaint_slot(
    pixels: &mut Vec<Pixel>,
    width: usize,
    slot_x: usize,
    slot_w: usize,
    start: usize,
    items: &Vec<Item>,
    cache: &GlyphCache,
)
    requires
        width > 0,
        start <= 0x4000_0000,
        slot_x <= 0x4000_0000,
        slot_w <= 0x4000_0000,
        cache.wf(),
        items_ok(items@),
    ensures
        final(pixels)@ == repaint(
            old(pixels)@,
            width as int,
            slot_x as int,
            slot_w as int,
            start as int,
            items@,
            cache@,
        ),
        final(pixels)@.len() == old(pixels)@.len(),
{
    clear_columns(pixels, width, slot_x, slot_w);
    draw_items(pixels, width, start, slot_x + slot_w, items, cache);
}

/// The damage of one slot, pushed when the slot changed and reaches into the buffer.
fn push_slot_damage(damage: &mut Vec<Rect>, changed: bool, x: usize, w: usize, width: u32, height: u32)
    ensures
        final(damage)@ == old(damage)@ + slot_damage(changed, x as int, w as int, width as int, height as int),
{
    if changed && x < width as usize {
        let avail = width as usize - x;
        let dw = if w < avail { w } else { avail };
        damage.push(Rect { x: x as u32, y: 0, width: dw as u32, height });
    }
    assert(damage@ =~= old(damage)@ + slot_damage(changed, x as int, w as int, width as int, height as int));
}

/// Columns of the date slot: where it starts and how wide it is.
fn date_slot(cache: &GlyphCache, width: usize) -> (r: (usize, usize))
    requires
        cache.wf(),
        width <= 0x2000_0000,
    ensures
        r.0 == date_slot_x(width as int, cache@),
        r.1 == date_slot_width(cache@),
        r.0 <= width,
        r.1 <= 0x10_0000,
{
    let digit_w = widest_digit(cache);
    assert(cache@[GlyphId::Slash.index()].wf());
    let date_w = digit_w * 6 + cache.slash.width * 2 + 7;
    let half = width / 2;
    let date_end = if half > CENTER_GAP / 2 {
        half - CENTER_GAP / 2
    } else {
        0
    };
    let date_x = if date_end > date_w {
        date_end - date_w
    } else {
        0
    };
    (date_x, date_w)
}

/// Columns of the clock slot: where it starts and how wide it is.
fn clock_slot(cache: &GlyphCache, width: usize) -> (r: (usize, usize))
    requires
        cache.wf(),
        width <= 0x2000_0000,
    ensures
        r.0 == clock_slot_x(width as int),
        r.1 == clock_slot_width(cache@),
        r.0 <= width / 2 + CENTER_GAP / 2,
        r.1 <= 0x10_0000,
{
    let digit_w = widest_digit(cache);
    assert(cache@[GlyphId::Colon.index()].wf());
    assert(cache@[GlyphId::Space.index()].wf());
    assert(cache@[GlyphId::Am.index()].wf());
    assert(cache@[GlyphId::Pm.index()].wf());
    let am_pm_w = if cache.am.width > cache.pm.width {
        cache.am.width
    } else {
        cache.pm.width
    };
    let clock_w = digit_w * 4 + cache.colon.width + cache.space.width + am_pm_w + 6;
    (width / 2 + CENTER_GAP / 2, clock_w)
}

fn paint_workspaces(pixels: &mut Vec<Pixel>, width: usize, cache: &GlyphCache, s: &StateSnapshot)
    requires
        width > 0,
        cache.wf(),
    ensures
        final(pixels)@ == repaint(
            old(pixels)@,
            width as int,
            0,
            WORKSPACE_SLOT_WIDTH as int,
            LEFT_MARGIN as int,
            workspace_layout(*s),
            cache@,
        ),
        final(pixels)@.len() == old(pixels)@.len(),
{
    proof {
        lemma_layouts_ok(*s);
    }
    let items = workspace_items(s.active_workspace, &s.occupied);
    repaint_slot(pixels, width, 0, WORKSPACE_SLOT_WIDTH, LEFT_MARGIN, &items, cache);
}

fn paint_date(pixels: &mut Vec<Pixel>, width: usize, cache: &GlyphCache, s: &StateSnapshot)
    requires
        width > 0,
        width <= 0x2000_0000,
        cache.wf(),
    ensures
        final(pixels)@ == ({
            let dx = date_slot_x(width as int, cache@);
            let dw = date_slot_width(cache@);
            repaint(
                old(pixels)@,
                width as int,
                dx,
                dw,
                centred(dx, dw, items_width(date_layout(*s), cache@)),
                date_layout(*s),
                cache@,
            )
        }),
        final(pixels)@.len() == old(pixels)@.len(),
{
    proof {
        lemma_layouts_ok(*s);
    }
    let (x, w) = date_slot(cache, width);
    let text = date_glyphs(s.day, s.month, s.year);
    let items = spaced_items(&text, Color { b: 0xec, g: 0xc7, r: 0x74, a: 0xff });
    let content = content_width(cache, &items);
    let spare = if w > content {
        w - content
    } else {
        0
    };
    repaint_slot(pixels, width, x, w, x + spare / 2, &items, cache);
}

fn paint_clock(pixels: &mut Vec<Pixel>, width: usize, cache: &GlyphCache, s: &StateSnapshot)
    requires
        width > 0,
        width <= 0x2000_0000,
        cache.wf(),
    ensures
        final(pixels)@ == ({
            let cx = clock_slot_x(width as int);
            let cw = clock_slot_width(cache@);
            repaint(
                old(pixels)@,
                width as int,
                cx,
                cw,
                centred(cx, cw, items_width(clock_layout(*s), cache@)),
                clock_layout(*s),
                cache@,
            )
        }),
        final(pixels)@.len() == old(pixels)@.len(),
{
    proof {
        lemma_layouts_ok(*s);
    }
    let (x, w) = clock_slot(cache, width);
    let text = clock_glyphs(s.hour, s.minute);
    let items = spaced_items(&text, Color { b: 0xf7, g: 0xa6, r: 0xcb, a: 0xff });
    let content = content_width(cache, &items);
    let spare = if w > content {
        w - content
    } else {
        0
    };
    repaint_slot(pixels, width, x, w, x + spare / 2, &items, cache);
}

fn paint_battery(pixels: &mut Vec<Pixel>, width: usize, cache: &GlyphCache, s: &StateSnapshot)
    requires
        width > 0,
        width <= 0x2000_0000,
        cache.wf(),
    ensures
        final(pixels)@ == repaint(
            old(pixels)@,
            width as int,
            battery_slot_x(width as int),
            BATTERY_SLOT_WIDTH as int,
            battery_start(width as int, items_width(battery_layout(*s), cache@)),
            battery_layout(*s),
            cache@,
        ),
        final(pixels)@.len() == old(pixels)@.len(),
{
    proof {
        lemma_layouts_ok(*s);
    }
    let text = battery_glyphs(s.battery_percent, s.battery_state, s.battery_estimate);
    let items = spaced_items(&text, Color { b: 0xa1, g: 0xe3, r: 0xa6, a: 0xff });
    let content = content_width(cache, &items);
    let x = if width > BATTERY_SLOT_WIDTH {
        width - BATTERY_SLOT_WIDTH
    } else {
        0
    };
    let aligned = if width > RIGHT_MARGIN + content {
        width - (RIGHT_MARGIN + content)
    } else {
        0
    };
    let start = if aligned > x {
        aligned
    } else {
        x
    };
    repaint_slot(pixels, width, x, BATTERY_SLOT_WIDTH, start, &items, cache);
}

/// Repaints the slots whose flag is set.
fn paint_changed_slots(
    pixels: &mut Vec<Pixel>,
    width: usize,
    cache: &GlyphCache,
    s: &StateSnapshot,
    ws: bool,
    date: bool,
    clock: bool,
    battery: bool,
)
    requires
        width > 0,
        width <= 0x2000_0000,
        cache.wf(),
    ensures
        final(pixels)@ == paint_slots(old(pixels)@, width as int, cache@, *s, ws, date, clock, battery),
        final(pixels)@.len() == old(pixels)@.len(),
{
    if ws {
        paint_workspaces(pixels, width, cache, s);
    }
    if date {
        paint_date(pixels, width, cache, s);
    }
    if clock {
        paint_clock(pixels, width, cache, s);
    }
    if battery {
        paint_battery(pixels, width, cache, s);
    }
}

/// One rectangle per changed slot that reaches into the buffer.
fn changed_slot_damage(
    cache: &GlyphCache,
    width: u32,
    height: u32,
    ws: bool,
    date: bool,
    clock: bool,
    battery: bool,
) -> (r: Vec<Rect>)
    requires
        cache.wf(),
        width <= 0x2000_0000,
    ensures
        r@ == slot_damage(ws, 0, WORKSPACE_SLOT_WIDTH as int, width as int, height as int)
            + slot_damage(date, date_slot_x(width as int, cache@), date_slot_width(cache@), width as int, height as int)
            + slot_damage(clock, clock_slot_x(width as int), clock_slot_width(cache@), width as int, height as int)
            + slot_damage(battery, battery_slot_x(width as int), BATTERY_SLOT_WIDTH as int, width as int, height as int),
{
    let w = width as usize;
    let (date_x, date_w) = date_slot(cache, w);
    let (clock_x, clock_w) = clock_slot(cache, w);
    let battery_x = if w > BATTERY_SLOT_WIDTH {
        w - BATTERY_SLOT_WIDTH
    } else {
        0
    };
    let mut damage: Vec<Rect> = Vec::new();
    push_slot_damage(&mut damage, ws, 0, WORKSPACE_SLOT_WIDTH, width, height);
    push_slot_damage(&mut damage, date, date_x, date_w, width, height);
    push_slot_damage(&mut damage, clock, clock_x, clock_w, width, height);
    push_slot_damage(&mut damage, battery, battery_x, BATTERY_SLOT_WIDTH, width, height);
    assert(damage@ =~= slot_damage(ws, 0, WORKSPACE_SLOT_WIDTH as int, width as int, height as int)
            + slot_damage(date, date_slot_x(width as int, cache@), date_slot_width(cache@), width as int, height as int)
            + slot_damage(clock, clock_slot_x(width as int), clock_slot_width(cache@), width as int, height as int)
            + slot_damage(battery, battery_slot_x(width as int), BATTERY_SLOT_WIDTH as int, width as int, height as int));
    damage
}

impl AppState {
    pub open spec fn wf(&self) -> bool {
        &&& self@.wf()
        &&& self.glyphs matches Some(c) ==> c.wf()
    }

    /// A renderer with no buffer yet, a full redraw due, and no slot drawn:
    /// what each slot last showed is set to sentinel values (255, and 65535
    /// for the estimate).
    pub fn new(glyphs: Option<GlyphCache>) -> (r: Self)
        requires
            glyphs matches Some(c) ==> c.wf(),
        ensures
            r.wf(),
            r.glyphs == glyphs,
            r@.width == 0,
            r@.height == 0,
            r@.pixels.len() == 0,
            !r@.configured,
            r@.force_full_redraw,
            r.last.active_workspace == 255,
            r.last.occupied@ == seq![false, false, false, false, false, false, false, false, false, false],
            r.last.hour == 255 && r.last.minute == 255,
            r.last.day == 255 && r.last.month == 255 && r.last.year == 255,
            r.last.battery_percent == 255 && r.last.battery_state == 255,
            r.last.battery_estimate == 65535,
    {
        AppState {
            width: 0,
            height: 0,
            pixels: Vec::new(),
            configured: false,
            force_full_redraw: true,
            last: StateSnapshot {
                active_workspace: 255,
                occupied: [false; 10],
                hour: 255,
                minute: 255,
                day: 255,
                month: 255,
                year: 255,
                battery_percent: 255,
                battery_state: 255,
                battery_estimate: 65535,
            },
            glyphs,
        }
    }

    /// Handles a surface configuration of `width` by `height`, zero meaning
    /// the default width and the bar's height.
    pub fn configure(&mut self, width: u32, height: u32) -> (r: ConfigureOutcome)
        requires
            old(self).wf(),
        ensures
            final(self).wf(),
            final(self)@ == old(self)@.after_configure(width, height),
            final(self).glyphs == old(self).glyphs,
            r == (if final(self)@ == old(self)@ && !RenderModel::size_fits(
                (if width == 0 { DEFAULT_WIDTH as int } else { width as int }),
                (if height == 0 { BAR_HEIGHT as int } else { height as int }),
            ) {
                ConfigureOutcome::TooLarge
            } else if old(self)@.width == final(self)@.width && old(self)@.height
                == final(self)@.height {
                ConfigureOutcome::Kept
            } else {
                ConfigureOutcome::Reallocated
            }),
    {
        let w: u32 = if width == 0 { DEFAULT_WIDTH } else { width };
        let h: u32 = if height == 0 { BAR_HEIGHT as u32 } else { height };
        assert(w * h <= 0xffff_ffff * 0xffff_ffff) by (nonlinear_arith)
            requires
                w <= 0xffff_ffff,
                h <= 0xffff_ffff,
        ;
        if (w as u64) * (h as u64) > MAX_BUFFER_BYTES / 4 {
            return ConfigureOutcome::TooLarge;
        }
        let outcome = if w != self.width || h != self.height {
            let n: usize = (w as u64 * h as u64) as usize;
            let mut pixels: Vec<Pixel> = Vec::new();
            let mut i: usize = 0;
            while i < n
                invariant
                    i <= n,
                    pixels@ =~= Seq::new(i as nat, |j: int| transparent()),
                decreases n - i,
            {
                pixels.push(Pixel { b: 0, g: 0, r: 0, a: 0 });
                i = i + 1;
            }
            self.pixels = pixels;
            self.width = w;
            self.height = h;
            ConfigureOutcome::Reallocated
        } else {
            ConfigureOutcome::Kept
        };
        self.configured = true;
        self.force_full_redraw = true;
        outcome
    }

    /// One repaint pass over snapshot `s`: every slot whose content differs
    /// from what it last showed, or all of them when a full redraw is due, is
    /// cleared and drawn again. Returns the changed regions, which hold every
    /// pixel the pass changed; none means nothing needs to be submitted.
    pub fn draw_bar(&mut self, s: &StateSnapshot) -> (damage: Vec<Rect>)
        requires
            old(self).wf(),
        ensures
            final(self).wf(),
            final(self)@ == old(self)@.after_pass(*s),
            final(self).glyphs == old(self).glyphs,
            damage@ == old(self)@.pass_damage(*s),
            damage_covers(old(self)@.pixels, final(self)@.pixels, old(self).width as int, damage@),
    {
        if !self.configured {
            return Vec::new();
        }
        proof {
            lemma_damage_covers_changes(self@, *s);
        }
        let force = self.force_full_redraw;
        let ws_changed = force || self.last.active_workspace != s.active_workspace || !same_flags(
            &self.last.occupied,
            &s.occupied,
        );
        let date_changed = force || self.last.day != s.day || self.last.month != s.month
            || self.last.year != s.year;
        let clock_changed = force || self.last.hour != s.hour || self.last.minute != s.minute;
        let battery_changed = force || self.last.battery_percent != s.battery_percent
            || self.last.battery_state != s.battery_state || self.last.battery_estimate
            != s.battery_estimate;
        assert(self.width <= 0x2000_0000) by (nonlinear_arith)
            requires
                self.width * self.height * 4 <= MAX_BUFFER_BYTES,
                self.height >= 1,
        ;
        let glyphs = self.glyphs.take();
        let mut damage: Vec<Rect> = Vec::new();
        if let Some(cache) = &glyphs {
            paint_changed_slots(
                &mut self.pixels,
                self.width as usize,
                cache,
                s,
                ws_changed,
                date_changed,
                clock_changed,
                battery_changed,
            );
            if !force {
                damage = changed_slot_damage(
                    cache,
                    self.width,
                    self.height,
                    ws_changed,
                    date_changed,
                    clock_changed,
                    battery_changed,
                );
            }
        }
        if force {
            damage.push(Rect { x: 0, y: 0, width: self.width, height: self.height });
            assert(damage@ =~= old(self)@.pass_damage(*s));
        }
        self.glyphs = glyphs;
        self.last = *s;
        self.force_full_redraw = false;
        damage
    }
}

/// Byte `k` of a pixel in memory order: blue, green, red, alpha.
pub open spec fn channel(p: Pixel, k: int) -> u8 {
    if k == 0 {
        p.b
    } else if k == 1 {
        p.g
    } else if k == 2 {
        p.r
    } else {
        p.a
    }
}

pub open spec fn in_rect(r: Rect, x: int, y: int) -> bool {
    r.x <= x < r.x + r.width && r.y <= y < r.y + r.height
}

/// Byte `i` of a buffer of rows of `width` pixels, four bytes each, after
/// the pixels of `rect` were copied into it from `px`.
pub open spec fn copied_byte(old: u8, px: Seq<Pixel>, width: int, rect: Rect, i: int) -> u8 {
    let p = i / 4;
    if in_rect(rect, p % width, p / width) {
        channel(px[p], i % 4)
    } else {
        old
    }
}

impl AppState {
    /// Bytes per row of the pixel buffer's memory.
    pub fn stride(&self) -> (r: u64)
        ensures
            r == self.width * 4,
    {
        self.width as u64 * 4
    }

    /// Copies the pixels of `rect` into `out`, the buffer's memory of
    /// `stride() * height` bytes, four bytes per pixel in the order blue,
    /// green, red, alpha. Bytes outside the rectangle keep their value.
    pub fn copy_rect(&self, rect: Rect, out: &mut [u8])
        requires
            self.wf(),
            old(out)@.len() == self.pixels@.len() * 4,
        ensures
            final(out)@.len() == old(out)@.len(),
            forall|i: int|
                0 <= i < old(out)@.len() ==> #[trigger] final(out)@[i] == copied_byte(
                    old(out)@[i],
                    self.pixels@,
                    self.width as int,
                    rect,
                    i,
                ),
    {
        let w = self.width as usize;
        let n = out.len();
        if w == 0 {
            assert(self.pixels@.len() == 0) by (nonlinear_arith)
                requires
                    self.pixels@.len() == self.width * self.height,
                    self.width == 0,
            ;
            return;
        }
        let ghost start = out@;
        let mut i: usize = 0;
        while i < n
            invariant
                w > 0,
                w == self.width,
                n == start.len(),
                n == self.pixels@.len() * 4,
                out@.len() == n,
                i <= n,
                forall|j: int|
                    0 <= j < n ==> #[trigger] out@[j] == if j < i {
                        copied_byte(start[j], self.pixels@, w as int, rect, j)
                    } else {
                        start[j]
                    },
            decreases n - i,
        {
            let p = i / 4;
            let x = p % w;
            let y = p / w;
            let rx = rect.x as usize;
            let ry = rect.y as usize;
            let rw = rect.width as usize;
            let rh = rect.height as usize;
            if x >= rx && x - rx < rw && y >= ry && y - ry < rh {
                let px = self.pixels[p];
                let k = i % 4;
                let v = if k == 0 {
                    px.b
                } else if k == 1 {
                    px.g
                } else if k == 2 {
                    px.r
                } else {
                    px.a
                };
                out[i] = v;
            }
            i = i + 1;
        }
    }
}

/// Pixels of rows `width` long that differ between `a` and `b` all lie in
/// columns `lo .. hi`.
pub open spec fn changes_within(a: Seq<Pixel>, b: Seq<Pixel>, width: int, lo: int, hi: int) -> bool {
    &&& a.len() == b.len()
    &&& forall|i: int| 0 <= i < a.len() && #[trigger] b[i] != a[i] ==> lo <= i % width < hi
}

/// Every pixel that differs between `old` and `new`, in rows `width` long,
/// lies in one of the rectangles.
pub open spec fn damage_covers(old: Seq<Pixel>, new: Seq<Pixel>, width: int, damage: Seq<Rect>) -> bool {
    forall|i: int|
        0 <= i < old.len() && #[trigger] new[i] != old[i] ==> exists|k: int|
            0 <= k < damage.len() && in_rect(damage[k], i % width, i / width)
}

proof fn lemma_changes_chain(a: Seq<Pixel>, b: Seq<Pixel>, c: Seq<Pixel>, width: int, lo: int, hi: int)
    requires
        changes_within(a, b, width, lo, hi),
        changes_within(b, c, width, lo, hi),
    ensures
        changes_within(a, c, width, lo, hi),
{
    assert forall|i: int| 0 <= i < a.len() && #[trigger] c[i] != a[i] implies lo <= i % width < hi by {
        if b[i] != a[i] {
        } else {
            assert(c[i] != b[i]);
        }
    }
}

proof fn lemma_items_width_nonneg(items: Seq<Item>, gv: Seq<GlyphView>)
    ensures
        items_width(items, gv) >= 0,
    decreases items.len(),
{
    if items.len() > 0 {
        lemma_items_width_nonneg(items.drop_last(), gv);
    }
}

/// Drawing items from column `x0` on, cut off at `limit`, changes only
/// columns `x0 .. limit`.
proof fn lemma_paint_items_within(
    px: Seq<Pixel>,
    width: int,
    x0: int,
    limit: int,
    items: Seq<Item>,
    gv: Seq<GlyphView>,
)
    requires
        width > 0,
    ensures
        changes_within(px, paint_items(px, width, x0, limit, items, gv), width, x0, limit),
    decreases items.len(),
{
    if items.len() > 0 {
        let prev = paint_items(px, width, x0, limit, items.drop_last(), gv);
        lemma_paint_items_within(px, width, x0, limit, items.drop_last(), gv);
        lemma_items_width_nonneg(items.drop_last(), gv);
        let next = paint_items(px, width, x0, limit, items, gv);
        assert(changes_within(prev, next, width, x0, limit));
        lemma_changes_chain(px, prev, next, width, x0, limit);
    } else {
        assert(changes_within(px, px, width, x0, limit));
    }
}

/// Repainting a slot changes only the slot's columns.
proof fn lemma_repaint_within(
    px: Seq<Pixel>,
    width: int,
    slot_x: int,
    slot_w: int,
    start: int,
    items: Seq<Item>,
    gv: Seq<GlyphView>,
)
    requires
        width > 0,
        slot_x <= start,
    ensures
        changes_within(px, repaint(px, width, slot_x, slot_w, start, items, gv), width, slot_x, slot_x + slot_w),
{
    let cleared = clear_columns_spec(px, width, slot_x, slot_w);
    assert(changes_within(px, cleared, width, slot_x, slot_x + slot_w));
    lemma_paint_items_within(cleared, width, start, slot_x + slot_w, items, gv);
    let painted = repaint(px, width, slot_x, slot_w, start, items, gv);
    assert(changes_within(cleared, painted, width, slot_x, slot_x + slot_w));
    lemma_changes_chain(px, cleared, painted, width, slot_x, slot_x + slot_w);
}

proof fn lemma_row_in_buffer(i: int, width: int, height: int)
    requires
        0 <= i < width * height,
        width > 0,
    ensures
        0 <= i / width < height,
        0 <= i % width < width,
{
    vstd::arithmetic::div_mod::lemma_fundamental_div_mod(i, width);
    if i / width >= height {
        assert(width * (i / width) >= width * height) by (nonlinear_arith)
            requires
                i / width >= height,
                width > 0,
        ;
    }
    assert(i / width >= 0) by (nonlinear_arith)
        requires
            i >= 0,
            width > 0,
    ;
}

/// A pixel changed by a slot's repaint lies in the slot's damage.
proof fn lemma_slot_rect(i: int, x: int, w: int, width: int, height: int)
    requires
        0 <= i < width * height,
        width > 0,
        x <= i % width < x + w,
        x >= 0,
        width <= u32::MAX,
        height <= u32::MAX,
    ensures
        slot_damage(true, x, w, width, height).len() == 1,
        in_rect(slot_damage(true, x, w, width, height)[0], i % width, i / width),
{
    lemma_row_in_buffer(i, width, height);
}

/// A repaint pass over `s` changes only pixels inside the rectangles it
/// reports.
pub proof fn lemma_damage_covers_changes(m: RenderModel, s: StateSnapshot)
    requires
        m.wf(),
    ensures
        damage_covers(m.pixels, m.after_pass(s).pixels, m.width as int, m.pass_damage(s)),
{
    let w = m.width as int;
    let h = m.height as int;
    let old = m.pixels;
    let new = m.after_pass(s).pixels;
    let damage = m.pass_damage(s);
    if m.configured {
        if let Some(gv) = m.glyphs {
            let f = m.force_full_redraw;
            let ws = f || workspaces_changed(m.last, s);
            let date = f || date_changed(m.last, s);
            let clock = f || clock_changed(m.last, s);
            let battery = f || battery_changed(m.last, s);
            let dx = date_slot_x(w, gv);
            let dw = date_slot_width(gv);
            let cx = clock_slot_x(w);
            let cw = clock_slot_width(gv);
            let bx = battery_slot_x(w);
            let after_ws = if ws {
                repaint(old, w, 0, WORKSPACE_SLOT_WIDTH as int, LEFT_MARGIN as int, workspace_layout(s), gv)
            } else {
                old
            };
            let after_date = if date {
                repaint(after_ws, w, dx, dw, centred(dx, dw, items_width(date_layout(s), gv)), date_layout(s), gv)
            } else {
                after_ws
            };
            let after_clock = if clock {
                repaint(after_date, w, cx, cw, centred(cx, cw, items_width(clock_layout(s), gv)), clock_layout(s), gv)
            } else {
                after_date
            };
            assert(new == paint_slots(old, w, gv, s, ws, date, clock, battery));
            if ws {
                lemma_repaint_within(old, w, 0, WORKSPACE_SLOT_WIDTH as int, LEFT_MARGIN as int, workspace_layout(s), gv);
            }
            if date {
                lemma_repaint_within(after_ws, w, dx, dw, centred(dx, dw, items_width(date_layout(s), gv)), date_layout(s), gv);
            }
            if clock {
                lemma_repaint_within(after_date, w, cx, cw, centred(cx, cw, items_width(clock_layout(s), gv)), clock_layout(s), gv);
            }
            if battery {
                lemma_repaint_within(after_clock, w, bx, BATTERY_SLOT_WIDTH as int, battery_start(w, items_width(battery_layout(s), gv)), battery_layout(s), gv);
            }
            let d1 = slot_damage(workspaces_changed(m.last, s), 0, WORKSPACE_SLOT_WIDTH as int, w, h);
            let d2 = slot_damage(date_changed(m.last, s), dx, dw, w, h);
            let d3 = slot_damage(clock_changed(m.last, s), cx, cw, w, h);
            let d4 = slot_damage(battery_changed(m.last, s), bx, BATTERY_SLOT_WIDTH as int, w, h);
            assert forall|i: int| 0 <= i < old.len() && #[trigger] new[i] != old[i] implies exists|k: int|
                0 <= k < damage.len() && in_rect(damage[k], i % w, i / w) by {
                lemma_row_in_buffer(i, w, h);
                if f {
                    assert(in_rect(damage[0], i % w, i / w));
                } else {
                    assert(damage == d1 + d2 + d3 + d4);
                    if ws && after_ws[i] != old[i] {
                        lemma_slot_rect(i, 0, WORKSPACE_SLOT_WIDTH as int, w, h);
                        assert(damage[0] == d1[0]);
                    } else if date && after_date[i] != after_ws[i] {
                        lemma_slot_rect(i, dx, dw, w, h);
                        let k = d1.len() as int;
                        assert(damage[k] == d2[0]);
                    } else if clock && after_clock[i] != after_date[i] {
                        lemma_slot_rect(i, cx, cw, w, h);
                        let k = (d1.len() + d2.len()) as int;
                        assert(damage[k] == d3[0]);
                    } else {
                        assert(battery);
                        lemma_slot_rect(i, bx, BATTERY_SLOT_WIDTH as int, w, h);
                        let k = (d1.len() + d2.len() + d3.len()) as int;
                        assert(damage[k] == d4[0]);
                    }
                }
            }
        }
    }
}

/// Two repaint passes over the same snapshot with nothing changed in
/// between: the second reports no damage and leaves the buffer as it is.
pub proof fn lemma_repaint_idempotent(m: RenderModel, s: StateSnapshot)
    ensures
        m.after_pass(s).pass_damage(s).len() == 0,
        m.after_pass(s).after_pass(s).pixels == m.after_pass(s).pixels,
{
}

/// A surface configured with width 0 gets a buffer 1920 pixels wide (and
/// the bar's height when the height is 0 too), and the next repaint pass
/// reports one rectangle covering the whole new buffer.
pub proof fn lemma_configure_default_width(m: RenderModel, height: u32, s: StateSnapshot)
    requires
        height <= 279620,
    ensures
        ({
            let h = if height == 0 {
                BAR_HEIGHT as nat
            } else {
                height as nat
            };
            let c = m.after_configure(0, height);
            &&& c.width == DEFAULT_WIDTH
            &&& c.height == h
            &&& c.configured
            &&& c.force_full_redraw
            &&& c.pass_damage(s) == seq![Rect { x: 0, y: 0, width: DEFAULT_WIDTH, height: h as u32 }]
        }),
{
    let h: int = if height == 0 {
        BAR_HEIGHT as int
    } else {
        height as int
    };
    assert(DEFAULT_WIDTH * h * 4 <= MAX_BUFFER_BYTES) by (nonlinear_arith)
        requires
            1 <= h <= 279620,
    ;
}

} // verus!
