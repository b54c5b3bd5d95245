use vstd::prelude::*;

verus! {

/// Number of glyphs a cache holds: ten digits and nine labels.
pub const GLYPH_COUNT: usize = 19;

/// Largest width or height a glyph may have; the atlas stores both as `u16`.
pub const MAX_GLYPH_SIDE: usize = 65535;

/// One glyph bitmap: `width * height` coverage bytes, row by row.
pub struct RasterizedGlyph {
    pub width: usize,
    pub height: usize,
    pub coverage: Vec<u8>,
}

/// Mathematical view of a glyph.
pub ghost struct GlyphView {
    pub width: nat,
    pub height: nat,
    pub coverage: Seq<u8>,
}

impl GlyphView {
    /// The coverage buffer matches the dimensions and both fit the atlas format.
    pub open spec fn wf(self) -> bool {
        &&& self.width <= MAX_GLYPH_SIDE
        &&& self.height <= MAX_GLYPH_SIDE
        &&& self.coverage.len() == self.width * self.height
    }
}

impl View for RasterizedGlyph {
    type V = GlyphView;

    open spec fn view(&self) -> GlyphView {
        GlyphView { width: self.width as nat, height: self.height as nat, coverage: self.coverage@ }
    }
}

/// Names of the glyphs a cache holds.
#[derive(Clone, Copy, Debug, PartialEq, Eq, Structural)]
pub enum GlyphId {
    Digit(u8),
    Am,
    Pm,
    Slash,
    Colon,
    Space,
    Percent,
    Plus,
    Minus,
    Full,
}

impl GlyphId {
    pub open spec fn valid(self) -> bool {
        self matches GlyphId::Digit(d) ==> d < 10
    }

    /// Position of the glyph in the cache's fixed order.
    pub open spec fn index(self) -> int {
        match self {
            GlyphId::Digit(d) => d as int,
            GlyphId::Am => 10,
            GlyphId::Pm => 11,
            GlyphId::Slash => 12,
            GlyphId::Colon => 13,
            GlyphId::Space => 14,
            GlyphId::Percent => 15,
            GlyphId::Plus => 16,
            GlyphId::Minus => 17,
            GlyphId::Full => 18,
        }
    }
}

/// The fixed set of glyphs the bar draws with.
pub struct GlyphCache {
    pub numbers: [RasterizedGlyph; 10],
    pub am: RasterizedGlyph,
    pub pm: RasterizedGlyph,
    pub slash: RasterizedGlyph,
    pub colon: RasterizedGlyph,
    pub space: RasterizedGlyph,
    pub percent: RasterizedGlyph,
    pub plus: RasterizedGlyph,
    pub minus: RasterizedGlyph,
    pub full: RasterizedGlyph,
}

impl View for GlyphCache {
    type V = Seq<GlyphView>;

    /// The glyphs in their fixed order: digits 0 to 9, then AM, PM, '/', ':',
    /// ' ', '%', '+', '-' and "Full".
    open spec fn view(&self) -> Seq<GlyphView> {
        seq![
            self.numbers@[0]@, self.numbers@[1]@, self.numbers@[2]@, self.numbers@[3]@,
            self.numbers@[4]@, self.numbers@[5]@, self.numbers@[6]@, self.numbers@[7]@,
            self.numbers@[8]@, self.numbers@[9]@, self.am@, self.pm@, self.slash@,
            self.colon@, self.space@, self.percent@, self.plus@, self.minus@, self.full@,
        ]
    }
}

impl GlyphCache {
    pub open spec fn wf(&self) -> bool {
        forall|i: int| 0 <= i < GLYPH_COUNT ==> (#[trigger] self@[i]).wf()
    }

    /// Builds a cache from glyphs in the fixed order; any other count is refused.
    pub fn from_vec(all: Vec<RasterizedGlyph>) -> (r: Option<Self>)
        ensures
            r is Some <==> all@.len() == GLYPH_COUNT,
            r matches Some(c) ==> c@ == all@.map_values(|g: RasterizedGlyph| g@),
    {
        if all.len() != GLYPH_COUNT {
            return None;
        }
        let ghost orig = all@;
        let mut all = all;
        let full = all.pop().unwrap();
        let minus = all.pop().unwrap();
        let plus = all.pop().unwrap();
        let percent = all.pop().unwrap();
        let space = all.pop().unwrap();
        let colon = all.pop().unwrap();
        let slash = all.pop().unwrap();
        let pm = all.pop().unwrap();
        let am = all.pop().unwrap();
        let n9 = all.pop().unwrap();
        let n8 = all.pop().unwrap();
        let n7 = all.pop().unwrap();
        let n6 = all.pop().unwrap();
        let n5 = all.pop().unwrap();
        let n4 = all.pop().unwrap();
        let n3 = all.pop().unwrap();
        let n2 = all.pop().unwrap();
        let n1 = all.pop().unwrap();
        let n0 = all.pop().unwrap();
        let c = GlyphCache {
            numbers: [n0, n1, n2, n3, n4, n5, n6, n7, n8, n9],
            am,
            pm,
            slash,
            colon,
            space,
            percent,
            plus,
            minus,
            full,
        };
        assert(c@ =~= orig.map_values(|g: RasterizedGlyph| g@));
        Some(c)
    }

    /// The glyphs in their fixed order.
    pub fn as_slice_ordered(&self) -> (r: [&RasterizedGlyph; GLYPH_COUNT])
        ensures
            forall|i: int| 0 <= i < GLYPH_COUNT ==> (#[trigger] r@[i])@ == self@[i],
    {
        [
            &self.numbers[0],
            &self.numbers[1],
            &self.numbers[2],
            &self.numbers[3],
            &self.numbers[4],
            &self.numbers[5],
            &self.numbers[6],
            &self.numbers[7],
            &self.numbers[8],
            &self.numbers[9],
            &self.am,
            &self.pm,
            &self.slash,
            &self.colon,
            &self.space,
            &self.percent,
            &self.plus,
            &self.minus,
            &self.full,
        ]
    }

    /// The glyph with the given name.
    pub fn glyph(&self, id: GlyphId) -> (r: &RasterizedGlyph)
        requires
            id.valid(),
        ensures
            r@ == self@[id.index()],
    {
        match id {
            GlyphId::Digit(d) => &self.numbers[d as usize],
            GlyphId::Am => &self.am,
            GlyphId::Pm => &self.pm,
            GlyphId::Slash => &self.slash,
            GlyphId::Colon => &self.colon,
            GlyphId::Space => &self.space,
            GlyphId::Percent => &self.percent,
            GlyphId::Plus => &self.plus,
            GlyphId::Minus => &self.minus,
            GlyphId::Full => &self.full,
        }
    }
}

} // verus!
