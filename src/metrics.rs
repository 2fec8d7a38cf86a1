//! Font metrics in font units, and the integer arithmetic that scales them
//! to layout units.
use vstd::prelude::*;

verus! {

/// Clamps a mathematical integer into the range of `i64`.
pub open spec fn sat(x: int) -> int {
    if x > i64::MAX {
        i64::MAX as int
    } else if x < i64::MIN {
        i64::MIN as int
    } else {
        x
    }
}

/// Adds two coordinates, saturating at the ends of the `i64` range.
pub fn sat_add(a: i64, b: i64) -> (r: i64)
    ensures
        r == sat(a + b),
{
    match a.checked_add(b) {
        Some(v) => v,
        None => {
            if b > 0 {
                i64::MAX
            } else {
                i64::MIN
            }
        },
    }
}

/// Metrics of one font, in font units, `units_per_em` of them to one unit
/// of text size. A character missing from `advances` advances by
/// `default_advance`; a pair missing from `kerning` is not kerned. The first
/// entry for a key wins.
#[derive(Clone, Debug)]
pub struct FontMetrics {
    pub units_per_em: u16,
    pub ascent: i16,
    pub descent: i16,
    pub line_gap: i16,
    pub default_advance: u16,
    pub advances: Vec<(char, u16)>,
    pub kerning: Vec<(char, char, i16)>,
}

impl FontMetrics {
    /// Ascent above and descent below the baseline, as font files state
    /// them, and a non-negative gap between lines.
    pub open spec fn wf(&self) -> bool {
        &&& self.units_per_em > 0
        &&& self.ascent >= 0
        &&& self.descent <= 0
        &&& self.line_gap >= 0
    }
}

pub open spec fn advance_from(table: Seq<(char, u16)>, c: char, default: u16, i: int) -> u16
    decreases table.len() - i,
{
    if i < 0 || i >= table.len() {
        default
    } else if table[i].0 == c {
        table[i].1
    } else {
        advance_from(table, c, default, i + 1)
    }
}

/// Unscaled advance width of a character.
pub open spec fn advance_spec(m: FontMetrics, c: char) -> u16 {
    advance_from(m.advances@, c, m.default_advance, 0)
}

pub open spec fn kerning_from(table: Seq<(char, char, i16)>, a: char, b: char, i: int) -> i16
    decreases table.len() - i,
{
    if i < 0 || i >= table.len() {
        0
    } else if table[i].0 == a && table[i].1 == b {
        table[i].2
    } else {
        kerning_from(table, a, b, i + 1)
    }
}

/// Unscaled kerning between two adjacent characters.
pub open spec fn kerning_spec(m: FontMetrics, a: char, b: char) -> i16 {
    kerning_from(m.kerning@, a, b, 0)
}

pub fn advance(m: &FontMetrics, c: char) -> (r: u16)
    ensures
        r == advance_spec(*m, c),
{
    let mut i: usize = 0;
    while i < m.advances.len()
        invariant
            i <= m.advances.len(),
            advance_from(m.advances@, c, m.default_advance, i as int) == advance_spec(*m, c),
        decreases m.advances.len() - i,
    {
        if m.advances[i].0 == c {
            return m.advances[i].1;
        }
        i = i + 1;
    }
    m.default_advance
}

pub fn kerning(m: &FontMetrics, a: char, b: char) -> (r: i16)
    ensures
        r == kerning_spec(*m, a, b),
{
    let mut i: usize = 0;
    while i < m.kerning.len()
        invariant
            i <= m.kerning.len(),
            kerning_from(m.kerning@, a, b, i as int) == kerning_spec(*m, a, b),
        decreases m.kerning.len() - i,
    {
        if m.kerning[i].0 == a && m.kerning[i].1 == b {
            return m.kerning[i].2;
        }
        i = i + 1;
    }
    0
}

/// Largest size, in layout units to the em, that the layout works with.
pub const MAX_SIZE: i64 = 0x100_0000_0000;

/// A font-unit quantity at a size of `size` layout units to the em,
/// rounded toward zero.
pub open spec fn scaled(v: int, size: int, upem: int) -> int {
    if v >= 0 {
        v * size / upem
    } else {
        -((-v) * size / upem)
    }
}

pub proof fn lemma_scaled_bounds(v: int, size: int, upem: int)
    requires
        -0x8000 <= v < 0x10000,
        0 <= size <= MAX_SIZE,
        upem > 0,
    ensures
        v >= 0 ==> 0 <= scaled(v, size, upem) <= v * size,
        v < 0 ==> -((-v) * size) <= scaled(v, size, upem) <= 0,
        -0x8000 * MAX_SIZE <= scaled(v, size, upem) <= 0x10000 * MAX_SIZE,
{
    if v >= 0 {
        assert(0 <= v * size <= 0x10000 * MAX_SIZE) by (nonlinear_arith)
            requires 0 <= v < 0x10000, 0 <= size <= MAX_SIZE;
        assert(0 <= v * size / upem <= v * size) by (nonlinear_arith)
            requires 0 <= v * size, upem > 0;
    } else {
        assert(0 <= (-v) * size <= 0x8000 * MAX_SIZE) by (nonlinear_arith)
            requires 0 < -v <= 0x8000, 0 <= size <= MAX_SIZE;
        assert(0 <= (-v) * size / upem <= (-v) * size) by (nonlinear_arith)
            requires 0 <= (-v) * size, upem > 0;
    }
}

pub fn scale_units(v: i64, size: i64, upem: u16) -> (r: i64)
    requires
        -0x8000 <= v < 0x10000,
        0 <= size <= MAX_SIZE,
        upem > 0,
    ensures
        r == scaled(v as int, size as int, upem as int),
{
    proof {
        lemma_scaled_bounds(v as int, size as int, upem as int);
    }
    if v >= 0 {
        assert(0 <= v * size <= 0x10000 * MAX_SIZE) by (nonlinear_arith)
            requires 0 <= v < 0x10000, 0 <= size <= MAX_SIZE;
        v * size / (upem as i64)
    } else {
        assert(0 <= (-v) * size <= 0x8000 * MAX_SIZE) by (nonlinear_arith)
            requires 0 < -v <= 0x8000, 0 <= size <= MAX_SIZE;
        -(((-v) * size) / (upem as i64))
    }
}

} // verus!
