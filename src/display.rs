//! The result of one layout pass: positioned glyphs in reading order and the
//! lines that group them, with the viewport index over those lines.
use vstd::prelude::*;
use crate::document::Color;
use crate::metrics::{sat, sat_add};

verus! {

/// A glyph placed by the layout: `character` of font `font_id` at `size`
/// layout units to the em, with its baseline origin at (`x`, `y`).
#[derive(Clone, Copy, Debug, PartialEq)]
pub struct LayoutGlyph {
    pub color: Color,
    pub font_id: usize,
    pub character: char,
    pub size: i64,
    pub x: i64,
    pub y: i64,
}

impl LayoutGlyph {
    /// The same glyph moved by (`dx`, `dy`), saturating at the ends of the
    /// coordinate range.
    pub fn translated(&self, dx: i64, dy: i64) -> (r: LayoutGlyph)
        ensures
            r.x == sat(self.x + dx),
            r.y == sat(self.y + dy),
            r.color == self.color,
            r.font_id == self.font_id,
            r.character == self.character,
            r.size == self.size,
    {
        LayoutGlyph {
            color: self.color,
            font_id: self.font_id,
            character: self.character,
            size: self.size,
            x: sat_add(self.x, dx),
            y: sat_add(self.y, dy),
        }
    }
}

/// One physical line: it covers the vertical range `[top, bottom)` and owns
/// the glyphs `[first, end)` of its display.
#[derive(Clone, Copy, Debug, PartialEq, Eq, Structural)]
pub struct Line {
    pub top: i64,
    pub bottom: i64,
    pub first: usize,
    pub end: usize,
}

/// Lines in ascending vertical order, none overlapping another.
pub open spec fn lines_ordered(lines: Seq<Line>) -> bool {
    &&& forall|i: int| 0 <= i < lines.len() ==> (#[trigger] lines[i]).top <= lines[i].bottom
    &&& forall|i: int, j: int|
        0 <= i < j < lines.len() ==> (#[trigger] lines[i]).bottom <= (#[trigger] lines[j]).top
}

/// The lines' glyph ranges cut `[0, n)` into consecutive pieces, in order.
pub open spec fn lines_partition(lines: Seq<Line>, n: int) -> bool {
    &&& lines.len() == 0 ==> n == 0
    &&& lines.len() > 0 ==> lines[0].first == 0 && lines[lines.len() - 1].end == n
    &&& forall|i: int| 0 <= i < lines.len() ==> (#[trigger] lines[i]).first <= lines[i].end
    &&& forall|i: int| 0 <= i < lines.len() - 1 ==> (#[trigger] lines[i]).end == lines[i + 1].first
}

pub open spec fn display_wf(glyphs: Seq<LayoutGlyph>, lines: Seq<Line>) -> bool {
    lines_ordered(lines) && lines_partition(lines, glyphs.len() as int)
}

pub ghost struct DisplayView {
    pub glyphs: Seq<LayoutGlyph>,
    pub lines: Seq<Line>,
}

/// Glyphs and lines of one layout pass. It never changes once built; a
/// viewport only selects which of its glyphs are drawn.
pub struct Display {
    glyphs: Vec<LayoutGlyph>,
    lines: Vec<Line>,
}

impl View for Display {
    type V = DisplayView;

    closed spec fn view(&self) -> DisplayView {
        DisplayView { glyphs: self.glyphs@, lines: self.lines@ }
    }
}

/// Whether a line is visible in the viewport `[y_min, y_max)`.
pub open spec fn line_visible(l: Line, y_min: i64, y_max: i64) -> bool {
    l.top < y_max && l.bottom > y_min
}

/// `[s, e)` is the window of lines for the viewport: lines before `e` start
/// above `y_max` and the others do not; of those, the lines before `s` end
/// at or above `y_min` and the others below it.
pub open spec fn is_line_window(lines: Seq<Line>, y_min: i64, y_max: i64, s: int, e: int) -> bool {
    &&& 0 <= s <= e <= lines.len()
    &&& forall|i: int| 0 <= i < e ==> (#[trigger] lines[i]).top < y_max
    &&& forall|i: int| e <= i < lines.len() ==> (#[trigger] lines[i]).top >= y_max
    &&& forall|i: int| 0 <= i < s ==> (#[trigger] lines[i]).bottom <= y_min
    &&& forall|i: int| s <= i < e ==> (#[trigger] lines[i]).bottom > y_min
}

pub open spec fn line_window(lines: Seq<Line>, y_min: i64, y_max: i64) -> (int, int) {
    choose|s: int, e: int| is_line_window(lines, y_min, y_max, s, e)
}

/// The glyph range of the visible lines; `(0, 0)` when none is visible.
pub open spec fn glyph_window(lines: Seq<Line>, y_min: i64, y_max: i64) -> (int, int) {
    let (s, e) = line_window(lines, y_min, y_max);
    if s < e {
        (lines[s].first as int, lines[e - 1].end as int)
    } else {
        (0, 0)
    }
}

/// A viewport selects one window of lines only: two windows for the same
/// viewport are the same window.
pub proof fn lemma_line_window_unique(
    lines: Seq<Line>,
    y_min: i64,
    y_max: i64,
    s1: int,
    e1: int,
    s2: int,
    e2: int,
)
    requires
        is_line_window(lines, y_min, y_max, s1, e1),
        is_line_window(lines, y_min, y_max, s2, e2),
    ensures
        s1 == s2,
        e1 == e2,
{
    if e1 < e2 {
        assert(lines[e1].top >= y_max);
    } else if e2 < e1 {
        assert(lines[e2].top >= y_max);
    }
    if s1 < s2 {
        assert(lines[s1].bottom <= y_min);
    } else if s2 < s1 {
        assert(lines[s2].bottom <= y_min);
    }
}

/// Clipping is idempotent: on an unchanged display, the same viewport gives
/// the same window of lines, whichever window the contract admits.
pub proof fn lemma_clip_idempotent(d: DisplayView, y_min: i64, y_max: i64, s1: int, e1: int, s2: int, e2: int)
    requires
        is_line_window(d.lines, y_min, y_max, s1, e1),
        is_line_window(d.lines, y_min, y_max, s2, e2),
    ensures
        (s1, e1) == (s2, e2),
        (s1, e1) == line_window(d.lines, y_min, y_max),
{
    lemma_line_window_unique(d.lines, y_min, y_max, s1, e1, s2, e2);
    let (s, e) = line_window(d.lines, y_min, y_max);
    lemma_line_window_unique(d.lines, y_min, y_max, s1, e1, s, e);
}

/// The window holds exactly the lines visible in the viewport.
pub proof fn lemma_window_is_visible_lines(lines: Seq<Line>, y_min: i64, y_max: i64, s: int, e: int)
    requires
        is_line_window(lines, y_min, y_max, s, e),
    ensures
        forall|i: int|
            0 <= i < lines.len() ==> ((s <= i < e) <==> line_visible(#[trigger] lines[i], y_min, y_max)),
{
    assert forall|i: int| 0 <= i < lines.len() implies ((s <= i < e) <==> line_visible(
        #[trigger] lines[i],
        y_min,
        y_max,
    )) by {
        if i < s {
            assert(lines[i].bottom <= y_min);
        } else if i >= e {
            assert(lines[i].top >= y_max);
        }
    }
}

proof fn lemma_partition_monotone(lines: Seq<Line>, n: int, i: int, j: int)
    requires
        lines_partition(lines, n),
        0 <= i <= j < lines.len(),
    ensures
        lines[i].first <= lines[j].first,
        lines[i].end <= lines[j].end,
        i < j ==> lines[i].end <= lines[j].first,
    decreases j - i,
{
    if i < j {
        lemma_partition_monotone(lines, n, i, j - 1);
        assert(lines[j - 1].end == lines[j].first);
        assert(lines[j].first <= lines[j].end);
        assert(lines[j - 1].first <= lines[j - 1].end);
    }
}

proof fn lemma_glyph_in_some_line(lines: Seq<Line>, n: int, s: int, e: int, g: int) -> (i: int)
    requires
        lines_partition(lines, n),
        0 <= s < e <= lines.len(),
        lines[s].first <= g < lines[e - 1].end,
    ensures
        s <= i < e,
        lines[i].first <= g < lines[i].end,
    decreases e - s,
{
    if g >= lines[e - 1].first {
        e - 1
    } else {
        assert(lines[e - 2].end == lines[e - 1].first);
        lemma_glyph_in_some_line(lines, n, s, e - 1, g)
    }
}

/// Glyph `g` belongs to a line visible in the viewport `[y_min, y_max)`.
pub open spec fn in_visible_line(lines: Seq<Line>, y_min: i64, y_max: i64, g: int) -> bool {
    exists|i: int|
        0 <= i < lines.len() && line_visible(#[trigger] lines[i], y_min, y_max) && lines[i].first <= g
            < lines[i].end
}

/// Clipping a display to a viewport gives exactly the glyphs of the lines
/// visible in it, and nothing when no line is visible.
pub proof fn lemma_clip_exact(d: DisplayView, y_min: i64, y_max: i64)
    requires
        display_wf(d.glyphs, d.lines),
    ensures
        ({
            let (gs, ge) = glyph_window(d.lines, y_min, y_max);
            &&& 0 <= gs <= ge <= d.glyphs.len()
            &&& forall|g: int|
                0 <= g < d.glyphs.len() ==> ((gs <= g < ge) <==> #[trigger] in_visible_line(
                    d.lines,
                    y_min,
                    y_max,
                    g,
                ))
        }),
{
    let n = d.glyphs.len() as int;
    let lines = d.lines;
    lemma_line_window_exists(lines, y_min, y_max);
    let (s, e) = line_window(lines, y_min, y_max);
    lemma_window_is_visible_lines(lines, y_min, y_max, s, e);
    let (gs, ge) = glyph_window(lines, y_min, y_max);
    if s < e {
        lemma_partition_monotone(lines, n, s, e - 1);
        lemma_partition_monotone(lines, n, e - 1, lines.len() - 1);
        assert forall|g: int| 0 <= g < n implies ((gs <= g < ge) <==> #[trigger] in_visible_line(
            lines,
            y_min,
            y_max,
            g,
        )) by {
            if gs <= g < ge {
                let i = lemma_glyph_in_some_line(lines, n, s, e, g);
                assert(line_visible(lines[i], y_min, y_max));
            }
            if exists|i: int|
                0 <= i < lines.len() && line_visible(#[trigger] lines[i], y_min, y_max)
                    && lines[i].first <= g < lines[i].end {
                let i = choose|i: int|
                    0 <= i < lines.len() && line_visible(#[trigger] lines[i], y_min, y_max)
                        && lines[i].first <= g < lines[i].end;
                lemma_partition_monotone(lines, n, s, i);
                lemma_partition_monotone(lines, n, i, e - 1);
            }
        }
    } else {
        assert forall|g: int| 0 <= g < n implies !#[trigger] in_visible_line(lines, y_min, y_max, g) by {
            if exists|i: int|
                0 <= i < lines.len() && line_visible(#[trigger] lines[i], y_min, y_max)
                    && lines[i].first <= g < lines[i].end {
                let i = choose|i: int|
                    0 <= i < lines.len() && line_visible(#[trigger] lines[i], y_min, y_max)
                        && lines[i].first <= g < lines[i].end;
                assert(s <= i < e);
            }
        }
    }
}

proof fn lemma_ordered_monotone(lines: Seq<Line>)
    requires
        lines_ordered(lines),
    ensures
        forall|i: int, j: int|
            0 <= i <= j < lines.len() ==> (#[trigger] lines[i]).top <= (#[trigger] lines[j]).top
                && lines[i].bottom <= lines[j].bottom,
{
    assert forall|i: int, j: int| 0 <= i <= j < lines.len() implies (#[trigger] lines[i]).top
        <= (#[trigger] lines[j]).top && lines[i].bottom <= lines[j].bottom by {
        if i < j {
            assert(lines[i].bottom <= lines[j].top);
            assert(lines[i].top <= lines[i].bottom);
            assert(lines[j].top <= lines[j].bottom);
        }
    }
}

/// Every viewport has a window of lines on an ordered display.
pub proof fn lemma_line_window_exists(lines: Seq<Line>, y_min: i64, y_max: i64)
    requires
        lines_ordered(lines),
    ensures
        is_line_window(lines, y_min, y_max, line_window(lines, y_min, y_max).0, line_window(lines, y_min, y_max).1),
{
    lemma_ordered_monotone(lines);
    let e = first_top_at_or_below(lines, y_max, 0);
    let s = first_bottom_below(lines, y_min, 0, e);
    assert(is_line_window(lines, y_min, y_max, s, e));
}

proof fn first_top_at_or_below(lines: Seq<Line>, y_max: i64, k: int) -> (e: int)
    requires
        lines_ordered(lines),
        0 <= k <= lines.len(),
        forall|i: int| 0 <= i < k ==> (#[trigger] lines[i]).top < y_max,
        forall|i: int, j: int|
            0 <= i <= j < lines.len() ==> (#[trigger] lines[i]).top <= (#[trigger] lines[j]).top
                && lines[i].bottom <= lines[j].bottom,
    ensures
        k <= e <= lines.len(),
        forall|i: int| 0 <= i < e ==> (#[trigger] lines[i]).top < y_max,
        forall|i: int| e <= i < lines.len() ==> (#[trigger] lines[i]).top >= y_max,
    decreases lines.len() - k,
{
    if k == lines.len() || lines[k].top >= y_max {
        assert forall|i: int| k <= i < lines.len() implies (#[trigger] lines[i]).top >= y_max by {
            assert(lines[k].top <= lines[i].top);
        }
        k
    } else {
        first_top_at_or_below(lines, y_max, k + 1)
    }
}

proof fn first_bottom_below(lines: Seq<Line>, y_min: i64, k: int, e: int) -> (s: int)
    requires
        0 <= k <= e <= lines.len(),
        forall|i: int| 0 <= i < k ==> (#[trigger] lines[i]).bottom <= y_min,
        forall|i: int, j: int|
            0 <= i <= j < lines.len() ==> (#[trigger] lines[i]).top <= (#[trigger] lines[j]).top
                && lines[i].bottom <= lines[j].bottom,
    ensures
        k <= s <= e,
        forall|i: int| 0 <= i < s ==> (#[trigger] lines[i]).bottom <= y_min,
        forall|i: int| s <= i < e ==> (#[trigger] lines[i]).bottom > y_min,
    decreases e - k,
{
    if k == e || lines[k].bottom > y_min {
        assert forall|i: int| k <= i < e implies (#[trigger] lines[i]).bottom > y_min by {
            assert(lines[k].bottom <= lines[i].bottom);
        }
        k
    } else {
        first_bottom_below(lines, y_min, k + 1, e)
    }
}

/// A viewport that ends at or above the top of some line selects a strict
/// subset of the lines, and in it every line that overlaps the viewport.
pub proof fn lemma_viewport_strict_subset(lines: Seq<Line>, y_min: i64, y_max: i64, below: int)
    requires
        lines_ordered(lines),
        0 <= below < lines.len(),
        lines[below].top >= y_max,
    ensures
        ({
            let (s, e) = line_window(lines, y_min, y_max);
            &&& 0 <= s <= e <= below
            &&& forall|i: int|
                0 <= i < lines.len() && line_visible(#[trigger] lines[i], y_min, y_max) ==> s <= i < e
        }),
{
    lemma_line_window_exists(lines, y_min, y_max);
    let (s, e) = line_window(lines, y_min, y_max);
    lemma_window_is_visible_lines(lines, y_min, y_max, s, e);
}

impl Display {
    #[verifier::type_invariant]
    spec fn inv(&self) -> bool {
        display_wf(self.glyphs@, self.lines@)
    }

    /// Builds a display from glyphs and lines that satisfy its invariant.
    pub(crate) fn from_parts(glyphs: Vec<LayoutGlyph>, lines: Vec<Line>) -> (d: Display)
        requires
            display_wf(glyphs@, lines@),
        ensures
            d@.glyphs == glyphs@,
            d@.lines == lines@,
    {
        Display { glyphs, lines }
    }

    pub fn glyphs(&self) -> (r: &Vec<LayoutGlyph>)
        ensures
            r@ == self@.glyphs,
            display_wf(self@.glyphs, self@.lines),
    {
        proof {
            use_type_invariant(self);
        }
        &self.glyphs
    }

    pub fn lines(&self) -> (r: &Vec<Line>)
        ensures
            r@ == self@.lines,
            display_wf(self@.glyphs, self@.lines),
    {
        proof {
            use_type_invariant(self);
        }
        &self.lines
    }

    /// The greatest y reached: the bottom of the last line, 0 with no lines.
    pub fn bound_y_max(&self) -> (r: i64)
        ensures
            self@.lines.len() == 0 ==> r == 0,
            self@.lines.len() > 0 ==> r == self@.lines.last().bottom,
    {
        if self.lines.len() == 0 {
            0
        } else {
            self.lines[self.lines.len() - 1].bottom
        }
    }

    /// The window of lines visible in the viewport `[y_min, y_max)`, by two
    /// binary searches over the lines.
    pub fn visible_lines(&self, y_min: i64, y_max: i64) -> (r: (usize, usize))
        ensures
            is_line_window(self@.lines, y_min, y_max, r.0 as int, r.1 as int),
            (r.0 as int, r.1 as int) == line_window(self@.lines, y_min, y_max),
    {
        proof {
            use_type_invariant(self);
            lemma_ordered_monotone(self.lines@);
        }
        let lines = &self.lines;
        let mut lo: usize = 0;
        let mut hi: usize = lines.len();
        while lo < hi
            invariant
                0 <= lo <= hi <= lines.len(),
                forall|i: int| 0 <= i < lo ==> (#[trigger] lines@[i]).top < y_max,
                forall|i: int| hi <= i < lines.len() ==> (#[trigger] lines@[i]).top >= y_max,
                forall|i: int, j: int|
                    0 <= i <= j < lines.len() ==> (#[trigger] lines@[i]).top <= (
                    #[trigger] lines@[j]).top && lines@[i].bottom <= lines@[j].bottom,
            decreases hi - lo,
        {
            let mid = lo + (hi - lo) / 2;
            if lines[mid].top < y_max {
                assert forall|i: int| 0 <= i < mid + 1 implies (#[trigger] lines@[i]).top < y_max by {
                    assert(lines@[i].top <= lines@[mid as int].top);
                }
                lo = mid + 1;
            } else {
                assert forall|i: int| mid <= i < lines.len() implies (#[trigger] lines@[i]).top
                    >= y_max by {
                    assert(lines@[mid as int].top <= lines@[i].top);
                }
                hi = mid;
            }
        }
        let e = lo;
        let mut lo: usize = 0;
        let mut hi: usize = e;
        while lo < hi
            invariant
                0 <= lo <= hi <= e <= lines.len(),
                forall|i: int| 0 <= i < lo ==> (#[trigger] lines@[i]).bottom <= y_min,
                forall|i: int| hi <= i < e ==> (#[trigger] lines@[i]).bottom > y_min,
                forall|i: int, j: int|
                    0 <= i <= j < lines.len() ==> (#[trigger] lines@[i]).top <= (
                    #[trigger] lines@[j]).top && lines@[i].bottom <= lines@[j].bottom,
            decreases hi - lo,
        {
            let mid = lo + (hi - lo) / 2;
            if lines[mid].bottom > y_min {
                assert forall|i: int| mid <= i < e implies (#[trigger] lines@[i]).bottom > y_min by {
                    assert(lines@[mid as int].bottom <= lines@[i].bottom);
                }
                hi = mid;
            } else {
                assert forall|i: int| 0 <= i < mid + 1 implies (#[trigger] lines@[i]).bottom <= y_min by {
                    assert(lines@[i].bottom <= lines@[mid as int].bottom);
                }
                lo = mid + 1;
            }
        }
        proof {
            let (s0, e0) = line_window(self@.lines, y_min, y_max);
            assert(is_line_window(self@.lines, y_min, y_max, lo as int, e as int));
            lemma_line_window_unique(self@.lines, y_min, y_max, lo as int, e as int, s0, e0);
        }
        (lo, e)
    }

    /// The glyph range of the lines visible in `[y_min, y_max)`; it starts
    /// and ends on line boundaries.
    pub fn clip_range(&self, y_min: i64, y_max: i64) -> (r: (usize, usize))
        ensures
            (r.0 as int, r.1 as int) == glyph_window(self@.lines, y_min, y_max),
            r.0 <= r.1 <= self@.glyphs.len(),
    {
        proof {
            use_type_invariant(self);
        }
        let (s, e) = self.visible_lines(y_min, y_max);
        if s < e {
            proof {
                lemma_partition_monotone(self@.lines, self@.glyphs.len() as int, s as int, e as int - 1);
                lemma_partition_monotone(
                    self@.lines,
                    self@.glyphs.len() as int,
                    e as int - 1,
                    self@.lines.len() - 1,
                );
            }
            (self.lines[s].first, self.lines[e - 1].end)
        } else {
            (0, 0)
        }
    }

    /// The glyphs of the lines visible in `[y_min, y_max)`, in reading order.
    pub fn clip(&self, y_min: i64, y_max: i64) -> (r: &[LayoutGlyph])
        ensures
            r@ == self@.glyphs.subrange(
                glyph_window(self@.lines, y_min, y_max).0,
                glyph_window(self@.lines, y_min, y_max).1,
            ),
    {
        let (a, b) = self.clip_range(y_min, y_max);
        vstd::slice::slice_subrange(self.glyphs.as_slice(), a, b)
    }
}

} // verus!
