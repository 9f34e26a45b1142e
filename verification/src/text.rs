//! UTF-16 code units: surrogates, well-formedness, code points, and the
//! script and direction that a code point belongs to.

use vstd::prelude::*;

verus! {

/// A writing system, by coarse blocks of the code space. `Common` is what
/// belongs to no script of its own (digits, spaces, punctuation, symbols).
#[derive(Clone, Copy, Debug, PartialEq, Eq, Structural)]
pub enum Script {
    Common,
    Latin,
    Greek,
    Cyrillic,
    Armenian,
    Hebrew,
    Arabic,
    Devanagari,
    Thai,
    Hangul,
    Hiragana,
    Katakana,
    Han,
}

/// The direction in which a line of text advances.
#[derive(Clone, Copy, Debug, PartialEq, Eq, Structural)]
pub enum Direction {
    LeftToRight,
    RightToLeft,
}

/// What the caller says about a run's base direction.
#[derive(Clone, Copy, Debug, PartialEq, Eq, Structural)]
pub enum DirectionHint {
    /// Infer the direction from the text.
    Auto,
    LeftToRight,
    RightToLeft,
}

pub open spec fn is_high_surrogate(unit: u16) -> bool {
    0xD800 <= unit <= 0xDBFF
}

pub open spec fn is_low_surrogate(unit: u16) -> bool {
    0xDC00 <= unit <= 0xDFFF
}

/// The code unit at `i` is a proper part of the text: a leading surrogate is
/// followed by a trailing one, and a trailing surrogate follows a leading one.
pub open spec fn well_formed_at(units: Seq<u16>, i: int) -> bool {
    &&& is_high_surrogate(units[i]) ==> i + 1 < units.len() && is_low_surrogate(units[i + 1])
    &&& is_low_surrogate(units[i]) ==> i > 0 && is_high_surrogate(units[i - 1])
}

/// Well-formed UTF-16: no surrogate stands alone.
pub open spec fn well_formed_utf16(units: Seq<u16>) -> bool {
    forall|i: int| 0 <= i < units.len() ==> well_formed_at(units, i)
}

/// The code point that a surrogate pair encodes.
pub open spec fn pair_code_point(high: u16, low: u16) -> u32 {
    (0x10000 + (high - 0xD800) * 0x400 + (low - 0xDC00)) as u32
}

/// The code point of the character that begins at code unit `i`.
pub open spec fn code_point_at(units: Seq<u16>, i: int) -> u32 {
    if is_high_surrogate(units[i]) && i + 1 < units.len() && is_low_surrogate(units[i + 1]) {
        pair_code_point(units[i], units[i + 1])
    } else {
        units[i] as u32
    }
}

/// How many code units the character that begins at code unit `i` takes.
pub open spec fn char_width_at(units: Seq<u16>, i: int) -> int {
    if is_high_surrogate(units[i]) && i + 1 < units.len() && is_low_surrogate(units[i + 1]) {
        2
    } else {
        1
    }
}

/// Whether a character begins at code unit `i`: it does unless the unit is
/// the trailing half of a surrogate pair.
pub open spec fn char_starts_at(units: Seq<u16>, i: int) -> bool {
    !(0 < i < units.len() && is_high_surrogate(units[i - 1]) && is_low_surrogate(units[i]))
}

pub open spec fn in_range(cp: u32, first: u32, last: u32) -> bool {
    first <= cp <= last
}

/// The script of a code point.
pub open spec fn script_of(cp: u32) -> Script {
    if in_range(cp, 0x0041, 0x005A) || in_range(cp, 0x0061, 0x007A) || cp == 0x00AA || cp
        == 0x00BA || (in_range(cp, 0x00C0, 0x024F) && cp != 0x00D7 && cp != 0x00F7) || in_range(
        cp,
        0x1E00,
        0x1EFF,
    ) || in_range(cp, 0xFB00, 0xFB06) {
        Script::Latin
    } else if in_range(cp, 0x0370, 0x03FF) || in_range(cp, 0x1F00, 0x1FFF) {
        Script::Greek
    } else if in_range(cp, 0x0400, 0x052F) {
        Script::Cyrillic
    } else if in_range(cp, 0x0530, 0x058F) {
        Script::Armenian
    } else if in_range(cp, 0x0590, 0x05FF) || in_range(cp, 0xFB1D, 0xFB4F) {
        Script::Hebrew
    } else if in_range(cp, 0x0600, 0x06FF) || in_range(cp, 0x0750, 0x077F) || in_range(
        cp,
        0xFB50,
        0xFDFF,
    ) || in_range(cp, 0xFE70, 0xFEFF) {
        Script::Arabic
    } else if in_range(cp, 0x0900, 0x097F) {
        Script::Devanagari
    } else if in_range(cp, 0x0E00, 0x0E7F) {
        Script::Thai
    } else if in_range(cp, 0x1100, 0x11FF) || in_range(cp, 0xAC00, 0xD7AF) {
        Script::Hangul
    } else if in_range(cp, 0x3040, 0x309F) {
        Script::Hiragana
    } else if in_range(cp, 0x30A0, 0x30FF) {
        Script::Katakana
    } else if in_range(cp, 0x3400, 0x4DBF) || in_range(cp, 0x4E00, 0x9FFF) || in_range(
        cp,
        0x20000,
        0x2FA1F,
    ) {
        Script::Han
    } else {
        Script::Common
    }
}

impl Script {
    /// The direction in which the script is written; `None` for `Common`,
    /// which takes the direction of its surroundings.
    pub open spec fn direction(self) -> Option<Direction> {
        match self {
            Script::Common => None,
            Script::Hebrew | Script::Arabic => Some(Direction::RightToLeft),
            _ => Some(Direction::LeftToRight),
        }
    }

    pub fn of(cp: u32) -> (script: Script)
        ensures
            script == script_of(cp),
    {
        if between(cp, 0x0041, 0x005A) || between(cp, 0x0061, 0x007A) || cp == 0x00AA || cp
            == 0x00BA || (between(cp, 0x00C0, 0x024F) && cp != 0x00D7 && cp != 0x00F7) || between(
            cp,
            0x1E00,
            0x1EFF,
        ) || between(cp, 0xFB00, 0xFB06) {
            Script::Latin
        } else if between(cp, 0x0370, 0x03FF) || between(cp, 0x1F00, 0x1FFF) {
            Script::Greek
        } else if between(cp, 0x0400, 0x052F) {
            Script::Cyrillic
        } else if between(cp, 0x0530, 0x058F) {
            Script::Armenian
        } else if between(cp, 0x0590, 0x05FF) || between(cp, 0xFB1D, 0xFB4F) {
            Script::Hebrew
        } else if between(cp, 0x0600, 0x06FF) || between(cp, 0x0750, 0x077F) || between(
            cp,
            0xFB50,
            0xFDFF,
        ) || between(cp, 0xFE70, 0xFEFF) {
            Script::Arabic
        } else if between(cp, 0x0900, 0x097F) {
            Script::Devanagari
        } else if between(cp, 0x0E00, 0x0E7F) {
            Script::Thai
        } else if between(cp, 0x1100, 0x11FF) || between(cp, 0xAC00, 0xD7AF) {
            Script::Hangul
        } else if between(cp, 0x3040, 0x309F) {
            Script::Hiragana
        } else if between(cp, 0x30A0, 0x30FF) {
            Script::Katakana
        } else if between(cp, 0x3400, 0x4DBF) || between(cp, 0x4E00, 0x9FFF) || between(
            cp,
            0x20000,
            0x2FA1F,
        ) {
            Script::Han
        } else {
            Script::Common
        }
    }

    pub fn horizontal_direction(&self) -> (direction: Option<Direction>)
        ensures
            direction == self.direction(),
    {
        match self {
            Script::Common => None,
            Script::Hebrew | Script::Arabic => Some(Direction::RightToLeft),
            _ => Some(Direction::LeftToRight),
        }
    }
}

fn between(cp: u32, first: u32, last: u32) -> (r: bool)
    ensures
        r == in_range(cp, first, last),
{
    first <= cp && cp <= last
}

pub fn high_surrogate(unit: u16) -> (r: bool)
    ensures
        r == is_high_surrogate(unit),
{
    0xD800 <= unit && unit <= 0xDBFF
}

pub fn low_surrogate(unit: u16) -> (r: bool)
    ensures
        r == is_low_surrogate(unit),
{
    0xDC00 <= unit && unit <= 0xDFFF
}

/// Checks that no surrogate in `units` stands alone.
pub fn is_well_formed_utf16(units: &[u16]) -> (ok: bool)
    ensures
        ok == well_formed_utf16(units@),
{
    let n = units.len();
    let mut i: usize = 0;
    while i < n
        invariant
            n == units@.len(),
            i <= n,
            forall|j: int| 0 <= j < i ==> well_formed_at(units@, j),
        decreases n - i,
    {
        let unit = units[i];
        if high_surrogate(unit) {
            if i + 1 >= n || !low_surrogate(units[i + 1]) {
                assert(!well_formed_at(units@, i as int));
                return false;
            }
        } else if low_surrogate(unit) {
            if i == 0 || !high_surrogate(units[i - 1]) {
                assert(!well_formed_at(units@, i as int));
                return false;
            }
        }
        i = i + 1;
    }
    true
}

/// Decodes the character that begins at code unit `i`: its code point and
/// the number of code units it takes.
pub fn decode_at(units: &[u16], i: usize) -> (decoded: (u32, usize))
    requires
        i < units@.len(),
    ensures
        decoded.0 == code_point_at(units@, i as int),
        decoded.1 == char_width_at(units@, i as int),
{
    let unit = units[i];
    if high_surrogate(unit) && i + 1 < units.len() && low_surrogate(units[i + 1]) {
        let high: u32 = (unit - 0xD800) as u32;
        let low: u32 = (units[i + 1] - 0xDC00) as u32;
        (0x10000 + high * 0x400 + low, 2)
    } else {
        (unit as u32, 1)
    }
}

} // verus!
