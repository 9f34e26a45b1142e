//! A loaded font face: its tables in font units, its pixel size, and the
//! metrics that follow from both.

use vstd::prelude::*;
use crate::error::LayoutError;
use crate::table::{
    find, has_key, index_of_key, is_sorted_by_key, make_pair_key, pair_key, sorted_by_key, Keyed,
};

verus! {

/// The glyph that stands for a character the font has no glyph for.
pub const NOTDEF_GLYPH: u32 = 0;

/// The smallest number of font units per em that a font may declare.
pub const MIN_UNITS_PER_EM: u16 = 16;

/// One entry of the character map: a code point and its glyph.
#[derive(Clone, Copy, Debug, PartialEq, Eq, Structural)]
pub struct CharMapping {
    pub code_point: u32,
    pub glyph: u32,
}

/// A kerning pair: the adjustment, in font units, of the left glyph's
/// advance when the right glyph follows it.
#[derive(Clone, Copy, Debug, PartialEq, Eq, Structural)]
pub struct KernPair {
    pub left: u32,
    pub right: u32,
    pub adjust: i16,
}

/// A substitution of two glyphs in a row by one: a ligature, or a mark that
/// its base absorbs.
#[derive(Clone, Copy, Debug, PartialEq, Eq, Structural)]
pub struct Ligature {
    pub first: u32,
    pub second: u32,
    pub glyph: u32,
}

/// A substitution of one glyph by two in a row: a decomposition. Both
/// stand for the text that the one stood for.
#[derive(Clone, Copy, Debug, PartialEq, Eq, Structural)]
pub struct Decomposition {
    pub glyph: u32,
    pub first: u32,
    pub second: u32,
}

/// Where a glyph is drawn relative to the pen, in font units.
#[derive(Clone, Copy, Debug, PartialEq, Eq, Structural)]
pub struct GlyphOffset {
    pub glyph: u32,
    pub x: i16,
    pub y: i16,
}

impl Keyed for CharMapping {
    open spec fn key(&self) -> u64 {
        self.code_point as u64
    }

    fn key_value(&self) -> (k: u64) {
        self.code_point as u64
    }
}

impl Keyed for KernPair {
    open spec fn key(&self) -> u64 {
        pair_key(self.left, self.right)
    }

    fn key_value(&self) -> (k: u64) {
        make_pair_key(self.left, self.right)
    }
}

impl Keyed for Ligature {
    open spec fn key(&self) -> u64 {
        pair_key(self.first, self.second)
    }

    fn key_value(&self) -> (k: u64) {
        make_pair_key(self.first, self.second)
    }
}

impl Keyed for Decomposition {
    open spec fn key(&self) -> u64 {
        self.glyph as u64
    }

    fn key_value(&self) -> (k: u64) {
        self.glyph as u64
    }
}

impl Keyed for GlyphOffset {
    open spec fn key(&self) -> u64 {
        self.glyph as u64
    }

    fn key_value(&self) -> (k: u64) {
        self.glyph as u64
    }
}

/// What the outline engine reports of an opened face, in font units.
#[derive(Debug)]
pub struct FaceData {
    /// How many faces the file holds.
    pub face_count: u32,
    pub units_per_em: u16,
    /// The height above the baseline.
    pub ascender: i16,
    /// The depth below the baseline, as a negative number.
    pub descender: i16,
    /// The distance from one baseline to the next.
    pub height: i16,
    /// Code points and their glyphs, in increasing order of code point.
    pub char_map: Vec<CharMapping>,
    /// The horizontal advance of each glyph, by glyph id.
    pub advances: Vec<u16>,
    /// Kerning pairs, in increasing order of (left, right).
    pub kerning: Vec<KernPair>,
    /// Substitutions of two glyphs by one, in increasing order of (first,
    /// second).
    pub ligatures: Vec<Ligature>,
    /// Substitutions of one glyph by two, in increasing order of the glyph.
    pub decompositions: Vec<Decomposition>,
    /// The glyphs that are not drawn at the pen, in increasing order of the
    /// glyph.
    pub offsets: Vec<GlyphOffset>,
}

/// The tables of a face as mathematical sequences.
pub struct FaceTables {
    pub face_count: u32,
    pub units_per_em: u16,
    pub ascender: i16,
    pub descender: i16,
    pub height: i16,
    pub char_map: Seq<CharMapping>,
    pub advances: Seq<u16>,
    pub kerning: Seq<KernPair>,
    pub ligatures: Seq<Ligature>,
    pub decompositions: Seq<Decomposition>,
    pub offsets: Seq<GlyphOffset>,
}

impl FaceTables {
    /// The tables agree with one another: every glyph they name has an
    /// advance, the glyph for missing characters exists, and each table is in
    /// the order that its search needs.
    pub open spec fn consistent(self) -> bool {
        &&& self.units_per_em >= MIN_UNITS_PER_EM
        &&& 0 < self.advances.len() <= u32::MAX
        &&& sorted_by_key(self.char_map)
        &&& sorted_by_key(self.kerning)
        &&& sorted_by_key(self.ligatures)
        &&& sorted_by_key(self.decompositions)
        &&& sorted_by_key(self.offsets)
        &&& forall|i: int| 0 <= i < self.char_map.len() ==> (#[trigger] self.char_map[i]).glyph < self.advances.len()
        &&& forall|i: int| 0 <= i < self.kerning.len() ==> {
            &&& (#[trigger] self.kerning[i]).left < self.advances.len()
            &&& self.kerning[i].right < self.advances.len()
        }
        &&& forall|i: int| 0 <= i < self.ligatures.len() ==> {
            &&& (#[trigger] self.ligatures[i]).first < self.advances.len()
            &&& self.ligatures[i].second < self.advances.len()
            &&& self.ligatures[i].glyph < self.advances.len()
        }
        &&& forall|i: int| 0 <= i < self.decompositions.len() ==> {
            &&& (#[trigger] self.decompositions[i]).glyph < self.advances.len()
            &&& self.decompositions[i].first < self.advances.len()
            &&& self.decompositions[i].second < self.advances.len()
        }
        &&& forall|i: int| 0 <= i < self.offsets.len() ==> (#[trigger] self.offsets[i]).glyph < self.advances.len()
    }

    /// Whether the font has a glyph for the code point.
    pub open spec fn has_glyph(self, cp: u32) -> bool {
        has_key(self.char_map, cp as u64)
    }

    /// The glyph for a code point: the mapped one, or the glyph for missing
    /// characters.
    pub open spec fn glyph_for(self, cp: u32) -> u32 {
        if self.has_glyph(cp) {
            self.char_map[index_of_key(self.char_map, cp as u64)].glyph
        } else {
            NOTDEF_GLYPH
        }
    }

    /// The glyph that replaces `first` followed by `second`, if the font has
    /// such a substitution.
    pub open spec fn ligature_for(self, first: u32, second: u32) -> Option<u32> {
        if has_key(self.ligatures, pair_key(first, second)) {
            Some(self.ligatures[index_of_key(self.ligatures, pair_key(first, second))].glyph)
        } else {
            None
        }
    }

    /// The kerning between two glyphs in a row, in font units; zero where the
    /// font lists none.
    pub open spec fn kerning_for(self, left: u32, right: u32) -> int {
        if has_key(self.kerning, pair_key(left, right)) {
            self.kerning[index_of_key(self.kerning, pair_key(left, right))].adjust as int
        } else {
            0
        }
    }

    /// The advance of a glyph in font units.
    pub open spec fn advance_of(self, glyph: u32) -> int {
        self.advances[glyph as int] as int
    }

    /// The two glyphs that replace `glyph`, if the font decomposes it.
    pub open spec fn decomposition_for(self, glyph: u32) -> Option<(u32, u32)> {
        if has_key(self.decompositions, glyph as u64) {
            let entry = self.decompositions[index_of_key(self.decompositions, glyph as u64)];
            Some((entry.first, entry.second))
        } else {
            None
        }
    }

    /// Where a glyph is drawn relative to the pen, in font units; at the pen
    /// where the font lists nothing.
    pub open spec fn offset_for(self, glyph: u32) -> (int, int) {
        if has_key(self.offsets, glyph as u64) {
            let entry = self.offsets[index_of_key(self.offsets, glyph as u64)];
            (entry.x as int, entry.y as int)
        } else {
            (0, 0)
        }
    }
}

impl View for FaceData {
    type V = FaceTables;

    open spec fn view(&self) -> FaceTables {
        FaceTables {
            face_count: self.face_count,
            units_per_em: self.units_per_em,
            ascender: self.ascender,
            descender: self.descender,
            height: self.height,
            char_map: self.char_map@,
            advances: self.advances@,
            kerning: self.kerning@,
            ligatures: self.ligatures@,
            decompositions: self.decompositions@,
            offsets: self.offsets@,
        }
    }
}

impl FaceData {
    /// Checks the tables against one another.
    pub fn is_consistent(&self) -> (ok: bool)
        ensures
            ok == self@.consistent(),
    {
        let glyphs = self.advances.len();
        if self.units_per_em < MIN_UNITS_PER_EM || glyphs == 0 || glyphs > u32::MAX as usize {
            return false;
        }
        if !is_sorted_by_key(&self.char_map) || !is_sorted_by_key(&self.kerning)
            || !is_sorted_by_key(&self.ligatures) || !is_sorted_by_key(&self.decompositions)
            || !is_sorted_by_key(&self.offsets) {
            return false;
        }
        let mut i: usize = 0;
        while i < self.char_map.len()
            invariant
                glyphs == self.advances@.len(),
                i <= self.char_map@.len(),
                forall|j: int| 0 <= j < i ==> (#[trigger] self.char_map@[j]).glyph < glyphs,
            decreases self.char_map@.len() - i,
        {
            if self.char_map[i].glyph as usize >= glyphs {
                return false;
            }
            i = i + 1;
        }
        let mut k: usize = 0;
        while k < self.kerning.len()
            invariant
                glyphs == self.advances@.len(),
                k <= self.kerning@.len(),
                forall|j: int| 0 <= j < k ==> (#[trigger] self.kerning@[j]).left < glyphs
                    && self.kerning@[j].right < glyphs,
            decreases self.kerning@.len() - k,
        {
            let pair = self.kerning[k];
            if pair.left as usize >= glyphs || pair.right as usize >= glyphs {
                return false;
            }
            k = k + 1;
        }
        let mut l: usize = 0;
        while l < self.ligatures.len()
            invariant
                glyphs == self.advances@.len(),
                l <= self.ligatures@.len(),
                forall|j: int| 0 <= j < l ==> (#[trigger] self.ligatures@[j]).first < glyphs
                    && self.ligatures@[j].second < glyphs && self.ligatures@[j].glyph < glyphs,
            decreases self.ligatures@.len() - l,
        {
            let lig = self.ligatures[l];
            if lig.first as usize >= glyphs || lig.second as usize >= glyphs || lig.glyph as usize
                >= glyphs {
                return false;
            }
            l = l + 1;
        }
        let mut d: usize = 0;
        while d < self.decompositions.len()
            invariant
                glyphs == self.advances@.len(),
                d <= self.decompositions@.len(),
                forall|j: int| 0 <= j < d ==> (#[trigger] self.decompositions@[j]).glyph < glyphs
                    && self.decompositions@[j].first < glyphs && self.decompositions@[j].second
                    < glyphs,
            decreases self.decompositions@.len() - d,
        {
            let entry = self.decompositions[d];
            if entry.glyph as usize >= glyphs || entry.first as usize >= glyphs
                || entry.second as usize >= glyphs {
                return false;
            }
            d = d + 1;
        }
        let mut o: usize = 0;
        while o < self.offsets.len()
            invariant
                glyphs == self.advances@.len(),
                o <= self.offsets@.len(),
                forall|j: int| 0 <= j < o ==> (#[trigger] self.offsets@[j]).glyph < glyphs,
            decreases self.offsets@.len() - o,
        {
            if self.offsets[o].glyph as usize >= glyphs {
                return false;
            }
            o = o + 1;
        }
        true
    }
}

/// The largest size, in font units, that `scale` is asked to convert.
pub const MAX_UNITS: i32 = 0x2_0000;

/// A length in font units converted to pixels at a pixel size: the font's em
/// is `px` pixels tall, and the result is rounded down.
pub open spec fn scaled(units: int, px: int, units_per_em: int) -> int {
    (units * px) / units_per_em
}

/// A scaled length is no longer than the length times the pixel size.
pub proof fn lemma_scaled_bounds(units: int, px: int, units_per_em: int)
    requires
        -MAX_UNITS <= units <= MAX_UNITS,
        0 <= px <= u16::MAX,
        units_per_em >= MIN_UNITS_PER_EM,
    ensures
        -0x2000_0000 <= scaled(units, px, units_per_em) <= 0x2000_0000,
        units >= 0 ==> scaled(units, px, units_per_em) >= 0,
{
    let n = units * px;
    assert(-0x2_0000 * 0xFFFF <= n <= 0x2_0000 * 0xFFFF) by (nonlinear_arith)
        requires
            n == units * px,
            -0x2_0000 <= units <= 0x2_0000,
            0 <= px <= 0xFFFF,
    ;
    assert(units >= 0 ==> n >= 0) by (nonlinear_arith)
        requires
            n == units * px,
            0 <= px,
    ;
    let q = n / units_per_em;
    assert(q * units_per_em <= n < (q + 1) * units_per_em) by (nonlinear_arith)
        requires
            q == n / units_per_em,
            units_per_em > 0,
    ;
    assert(-0x2000_0000 <= q <= 0x2000_0000) by (nonlinear_arith)
        requires
            q * units_per_em <= n < (q + 1) * units_per_em,
            units_per_em >= 16,
            -0x2_0000 * 0xFFFF <= n <= 0x2_0000 * 0xFFFF,
    ;
    assert(n >= 0 ==> q >= 0) by (nonlinear_arith)
        requires
            n < (q + 1) * units_per_em,
            units_per_em > 0,
    ;
}

/// Converts a length in font units to pixels.
pub fn scale(units: i32, px: u16, units_per_em: u16) -> (pixels: i32)
    requires
        -MAX_UNITS <= units <= MAX_UNITS,
        units_per_em >= MIN_UNITS_PER_EM,
    ensures
        pixels == scaled(units as int, px as int, units_per_em as int),
{
    proof {
        lemma_scaled_bounds(units as int, px as int, units_per_em as int);
    }
    let d: u64 = units_per_em as u64;
    if units >= 0 {
        assert(units as int * px as int <= 0x2_0000 * 0xFFFF) by (nonlinear_arith)
            requires
                0 <= units <= 0x2_0000,
                0 <= px <= 0xFFFF,
        ;
        let n: u64 = (units as u64) * (px as u64);
        let q: u64 = n / d;
        q as i32
    } else {
        assert(-(units as int) * px as int <= 0x2_0000 * 0xFFFF) by (nonlinear_arith)
            requires
                0 < -(units as int) <= 0x2_0000,
                0 <= px <= 0xFFFF,
        ;
        let m: u64 = ((-units) as u64) * (px as u64);
        let up: u64 = (m + d - 1) / d;
        assert(-(up as int) == (units as int * px as int) / (d as int)) by (nonlinear_arith)
            requires
                m == -(units as int) * (px as int),
                up == (m + d - 1) / (d as int),
                d > 0,
        ;
        -(up as i32)
    }
}

/// The vertical metrics of a face at its pixel size, in pixels, and the
/// font's units per em.
#[derive(Clone, Copy, Debug, PartialEq, Eq, Structural)]
pub struct FontMetrics {
    pub ascent: i32,
    pub descent: i32,
    pub line_gap: i32,
    pub units_per_em: u16,
}

/// A face as a mathematical value: where it came from, its pixel size (zero
/// while none is set), how often it was resized, the cap on its size, and
/// its tables.
pub struct FaceState {
    pub path: Seq<char>,
    pub pixel_size: u16,
    pub revision: u64,
    pub max_pixel_size: Option<u16>,
    pub tables: FaceTables,
}

impl FaceState {
    /// A face as it is right after loading: no size set, never resized.
    pub open spec fn fresh(path: Seq<char>, max_pixel_size: Option<u16>, tables: FaceTables) -> FaceState {
        FaceState { path, pixel_size: 0, revision: 0, max_pixel_size, tables }
    }

    /// A pixel size is accepted when it is not zero and not above the cap.
    pub open spec fn accepts_size(self, px: u16) -> bool {
        &&& px != 0
        &&& self.max_pixel_size matches Some(max) ==> px <= max
    }

    /// The revision after one more resize. The count stops at the largest
    /// number it can hold.
    pub open spec fn next_revision(self) -> u64 {
        if self.revision < u64::MAX {
            (self.revision + 1) as u64
        } else {
            self.revision
        }
    }

    /// The face after a resize to an accepted size.
    pub open spec fn resized(self, px: u16) -> FaceState {
        FaceState { pixel_size: px, revision: self.next_revision(), ..self }
    }

    /// The line gap in font units: what the line height leaves beyond ascent
    /// and descent.
    pub open spec fn line_gap_units(self) -> int {
        self.tables.height - (self.tables.ascender - self.tables.descender)
    }

    /// The metrics at the current size, owed once a size is set.
    pub open spec fn metrics(self) -> Result<FontMetrics, LayoutError> {
        if self.pixel_size == 0 {
            Err(LayoutError::SizeUnset)
        } else {
            let px = self.pixel_size as int;
            let em = self.tables.units_per_em as int;
            Ok(
                FontMetrics {
                    ascent: scaled(self.tables.ascender as int, px, em) as i32,
                    descent: scaled(self.tables.descender as int, px, em) as i32,
                    line_gap: scaled(self.line_gap_units(), px, em) as i32,
                    units_per_em: self.tables.units_per_em,
                },
            )
        }
    }
}

/// One loaded font file at a pixel size.
pub struct FontFace {
    path: String,
    pixel_size: u16,
    revision: u64,
    max_pixel_size: Option<u16>,
    data: FaceData,
}

impl View for FontFace {
    type V = FaceState;

    closed spec fn view(&self) -> FaceState {
        FaceState {
            path: self.path@,
            pixel_size: self.pixel_size,
            revision: self.revision,
            max_pixel_size: self.max_pixel_size,
            tables: self.data@,
        }
    }
}

impl FontFace {
    #[verifier::type_invariant]
    spec fn tables_consistent(&self) -> bool {
        self.data@.consistent()
    }

    pub(crate) fn new(path: String, data: FaceData, max_pixel_size: Option<u16>) -> (face: FontFace)
        requires
            data@.consistent(),
        ensures
            face@ == FaceState::fresh(path@, max_pixel_size, data@),
    {
        FontFace { path, pixel_size: 0, revision: 0, max_pixel_size, data }
    }

    /// The path the face was loaded from.
    pub fn path(&self) -> (path: &str)
        ensures
            path@ == self@.path,
    {
        self.path.as_str()
    }

    pub(crate) fn path_string(&self) -> (path: &String)
        ensures
            path@ == self@.path,
    {
        &self.path
    }

    /// The current pixel size; zero while none is set.
    pub fn pixel_size(&self) -> (px: u16)
        ensures
            px == self@.pixel_size,
    {
        self.pixel_size
    }

    /// How many times the face was resized.
    pub fn revision(&self) -> (revision: u64)
        ensures
            revision == self@.revision,
    {
        self.revision
    }

    pub fn units_per_em(&self) -> (em: u16)
        ensures
            em == self@.tables.units_per_em,
            em >= MIN_UNITS_PER_EM,
    {
        proof {
            use_type_invariant(self);
        }
        self.data.units_per_em
    }

    /// How many glyphs the face has.
    pub fn glyph_count(&self) -> (count: u32)
        ensures
            count == self@.tables.advances.len(),
            count > 0,
    {
        proof {
            use_type_invariant(self);
        }
        self.data.advances.len() as u32
    }

    /// Whether the face would take the pixel size.
    pub fn accepts_pixel_size(&self, px: u16) -> (accepted: bool)
        ensures
            accepted == self@.accepts_size(px),
    {
        match self.max_pixel_size {
            Some(max) => px != 0 && px <= max,
            None => px != 0,
        }
    }

    /// Sets the horizontal and the vertical pixel size. A size of zero or one
    /// above the cap is refused and leaves the face as it was.
    pub fn set_pixel_size(&mut self, px: u16) -> (result: Result<(), LayoutError>)
        ensures
            old(self)@.accepts_size(px) ==> result == Ok::<(), LayoutError>(()) && final(self)@ == old(
                self,
            )@.resized(px),
            !old(self)@.accepts_size(px) ==> result == Err::<(), LayoutError>(
                LayoutError::InvalidSize,
            ) && final(self)@ == old(self)@,
    {
        proof {
            use_type_invariant(&*self);
        }
        if px == 0 {
            return Err(LayoutError::InvalidSize);
        }
        match self.max_pixel_size {
            Some(max) => {
                if px > max {
                    return Err(LayoutError::InvalidSize);
                }
            },
            None => {},
        }
        self.pixel_size = px;
        if self.revision < u64::MAX {
            self.revision = self.revision + 1;
        }
        Ok(())
    }

    /// Ascent, descent and line gap at the current size, and the units per em.
    pub fn metrics(&self) -> (result: Result<FontMetrics, LayoutError>)
        ensures
            result == self@.metrics(),
    {
        proof {
            use_type_invariant(self);
        }
        if self.pixel_size == 0 {
            return Err(LayoutError::SizeUnset);
        }
        let em = self.data.units_per_em;
        let px = self.pixel_size;
        let gap: i32 = self.data.height as i32 - (self.data.ascender as i32
            - self.data.descender as i32);
        Ok(
            FontMetrics {
                ascent: scale(self.data.ascender as i32, px, em),
                descent: scale(self.data.descender as i32, px, em),
                line_gap: scale(gap, px, em),
                units_per_em: em,
            },
        )
    }

    /// The glyph that the character map gives the code point, if any.
    pub fn glyph_for(&self, cp: u32) -> (glyph: Option<u32>)
        ensures
            glyph is Some == self@.tables.has_glyph(cp),
            glyph matches Some(g) ==> g == self@.tables.glyph_for(cp),
            self@.tables.glyph_for(cp) < self@.tables.advances.len(),
    {
        proof {
            use_type_invariant(self);
        }
        match find(&self.data.char_map, cp as u64) {
            Some(i) => Some(self.data.char_map[i].glyph),
            None => None,
        }
    }

    /// The glyph that replaces `first` followed by `second`, if any.
    pub fn ligature_for(&self, first: u32, second: u32) -> (glyph: Option<u32>)
        ensures
            glyph == self@.tables.ligature_for(first, second),
            glyph matches Some(g) ==> g < self@.tables.advances.len(),
    {
        proof {
            use_type_invariant(self);
        }
        match find(&self.data.ligatures, make_pair_key(first, second)) {
            Some(i) => Some(self.data.ligatures[i].glyph),
            None => None,
        }
    }

    /// The kerning between two glyphs in a row, in font units.
    pub fn kerning_for(&self, left: u32, right: u32) -> (adjust: i16)
        ensures
            adjust == self@.tables.kerning_for(left, right),
    {
        proof {
            use_type_invariant(self);
        }
        match find(&self.data.kerning, make_pair_key(left, right)) {
            Some(i) => self.data.kerning[i].adjust,
            None => 0,
        }
    }

    /// The two glyphs that replace `glyph`, if the font decomposes it.
    pub fn decomposition_for(&self, glyph: u32) -> (parts: Option<(u32, u32)>)
        ensures
            parts == self@.tables.decomposition_for(glyph),
            parts matches Some(pair) ==> pair.0 < self@.tables.advances.len() && pair.1
                < self@.tables.advances.len(),
    {
        proof {
            use_type_invariant(self);
        }
        match find(&self.data.decompositions, glyph as u64) {
            Some(i) => Some((self.data.decompositions[i].first, self.data.decompositions[i].second)),
            None => None,
        }
    }

    /// Where a glyph is drawn relative to the pen, in font units.
    pub fn offset_for(&self, glyph: u32) -> (offset: (i16, i16))
        ensures
            offset.0 == self@.tables.offset_for(glyph).0,
            offset.1 == self@.tables.offset_for(glyph).1,
    {
        proof {
            use_type_invariant(self);
        }
        match find(&self.data.offsets, glyph as u64) {
            Some(i) => (self.data.offsets[i].x, self.data.offsets[i].y),
            None => (0, 0),
        }
    }

    /// The advance of a glyph in font units.
    pub fn advance_of(&self, glyph: u32) -> (advance: u16)
        requires
            glyph < self@.tables.advances.len(),
        ensures
            advance == self@.tables.advance_of(glyph),
    {
        self.data.advances[glyph as usize]
    }
}

} // verus!
