//! The line-layout engine: word wrap with kerning-aware pen advance over
//! flowing blocks, and placeholder lines for images.
use vstd::prelude::*;
use crate::display::{display_wf, lines_ordered, lines_partition, Display, LayoutGlyph, Line};
use crate::document::{
    color, color_spec, font_id, font_id_spec, is_indented, size_percent, size_percent_spec,
    is_indented_spec, BlockClass, Block, Color, Span, placeholder_color, regular_color,
    FONT_COUNT,
};
use crate::metrics::{
    advance, advance_spec, kerning, kerning_spec, lemma_scaled_bounds, sat, sat_add, scale_units,
    scaled, FontMetrics,
    MAX_SIZE,
};
use crate::text::{drawn_char, drawn_char_spec, is_space, is_space_spec};

verus! {

/// One unit of a flowing block's content once its spans are flattened: a
/// character with the font and colour of its span, or a forced line break.
#[derive(Clone, Copy, Debug)]
pub enum Piece {
    Glyph { c: char, font: usize, color: Color },
    Break,
}

pub open spec fn glyph_piece(c: char, font: usize, tint: Color) -> Piece {
    Piece::Glyph { c, font, color: tint }
}

/// The characters of a text, each a glyph piece of the given font and colour.
pub open spec fn text_pieces(t: Seq<char>, font: usize, tint: Color) -> Seq<Piece>
    decreases t.len(),
{
    if t.len() == 0 {
        Seq::empty()
    } else {
        text_pieces(t.drop_last(), font, tint).push(glyph_piece(t.last(), font, tint))
    }
}

proof fn lemma_text_pieces_index(t: Seq<char>, font: usize, tint: Color, k: int)
    requires
        0 <= k < t.len(),
    ensures
        text_pieces(t, font, tint).len() == t.len(),
        text_pieces(t, font, tint)[k] == glyph_piece(t[k], font, tint),
    decreases t.len(),
{
    lemma_text_pieces_len(t, font, tint);
    if k < t.len() - 1 {
        lemma_text_pieces_index(t.drop_last(), font, tint, k);
    }
}

proof fn lemma_text_pieces_len(t: Seq<char>, font: usize, tint: Color)
    ensures
        text_pieces(t, font, tint).len() == t.len(),
    decreases t.len(),
{
    if t.len() > 0 {
        lemma_text_pieces_len(t.drop_last(), font, tint);
    }
}

proof fn lemma_text_pieces_fonts(text: Seq<char>, font: usize, tint: Color)
    requires
        font < FONT_COUNT,
    ensures
        pieces_wf(text_pieces(text, font, tint)),
        forall|k: int|
            0 <= k < text_pieces(text, font, tint).len() ==> (#[trigger] text_pieces(
                text,
                font,
                tint,
            )[k]) is Glyph,
{
    assert forall|k: int| 0 <= k < text_pieces(text, font, tint).len() implies (
    #[trigger] text_pieces(text, font, tint)[k]) is Glyph by {
        lemma_text_pieces_len(text, font, tint);
        lemma_text_pieces_index(text, font, tint, k);
    }
    lemma_text_pieces_len(text, font, tint);
    assert forall|k: int| 0 <= k < text_pieces(text, font, tint).len() implies piece_wf(
        #[trigger] text_pieces(text, font, tint)[k],
    ) by {
        lemma_text_pieces_index(text, font, tint, k);
    }
}

pub open spec fn span_pieces(span: Span) -> Seq<Piece> {
    match span {
        Span::LineBreak => seq![Piece::Break],
        Span::Text { class, text } => text_pieces(text@, font_id_spec(class), color_spec(class)),
    }
}

proof fn lemma_text_pieces_push(t: Seq<char>, c: char, font: usize, color: Color)
    ensures
        text_pieces(t.push(c), font, color) == text_pieces(t, font, color).push(
            glyph_piece(c, font, color),
        ),
{
    assert(t.push(c).drop_last() =~= t);
}

/// The pieces of a sequence of spans, in order.
pub open spec fn flatten_spec(spans: Seq<Span>) -> Seq<Piece>
    decreases spans.len(),
{
    if spans.len() == 0 {
        Seq::empty()
    } else {
        flatten_spec(spans.drop_last()) + span_pieces(spans.last())
    }
}

pub open spec fn piece_wf(piece: Piece) -> bool {
    match piece {
        Piece::Glyph { font, .. } => font < FONT_COUNT,
        Piece::Break => true,
    }
}

/// Every glyph piece names one of the layout's fonts.
pub open spec fn pieces_wf(p: Seq<Piece>) -> bool {
    forall|k: int| 0 <= k < p.len() ==> piece_wf(#[trigger] p[k])
}

proof fn lemma_flatten_wf(spans: Seq<Span>)
    ensures
        pieces_wf(flatten_spec(spans)),
    decreases spans.len(),
{
    if spans.len() > 0 {
        lemma_flatten_wf(spans.drop_last());
        let a = flatten_spec(spans.drop_last());
        let b = span_pieces(spans.last());
        assert forall|k: int| 0 <= k < b.len() implies piece_wf(#[trigger] b[k]) by {
            match spans.last() {
                Span::Text { class, text } => {
                    lemma_text_pieces_fonts(text@, font_id_spec(class), color_spec(class));
                },
                Span::LineBreak => {},
            }
        }
        assert forall|k: int| 0 <= k < (a + b).len() implies piece_wf(#[trigger] (a + b)[k]) by {
            if k >= a.len() {
                assert((a + b)[k] == b[k - a.len()]);
                assert(0 <= k - a.len() < b.len());
            } else {
                assert((a + b)[k] == a[k]);
            }
        }
    }
}

/// Appends the characters of `text` as glyph pieces.
pub fn push_text(out: &mut Vec<Piece>, text: &str, font: usize, tint: Color)
    ensures
        final(out)@ == old(out)@ + text_pieces(text@, font, tint),
{
    let ghost start = out@;
    assert(start + text_pieces(text@.take(0), font, tint) =~= start);
    for c in it: text.chars()
        invariant
            it.seq() == text@,
            out@ == start + text_pieces(text@.take(it.index() as int), font, tint),
    {
        proof {
            assert(text@.take(it.index() as int + 1) =~= text@.take(it.index() as int).push(c));
            lemma_text_pieces_push(text@.take(it.index() as int), c, font, tint);
        }
        out.push(Piece::Glyph { c, font, color: tint });
        assert(out@ =~= start + text_pieces(text@.take(it.index() as int + 1), font, tint));
    }
    assert(text@.take(text@.len() as int) == text@);
}

/// Flattens spans into pieces.
pub fn flatten(spans: &Vec<Span>) -> (r: Vec<Piece>)
    ensures
        r@ == flatten_spec(spans@),
        pieces_wf(r@),
{
    let mut out: Vec<Piece> = Vec::new();
    let mut i: usize = 0;
    assert(spans@.take(0) =~= Seq::<Span>::empty());
    while i < spans.len()
        invariant
            i <= spans.len(),
            out@ == flatten_spec(spans@.take(i as int)),
        decreases spans.len() - i,
    {
        assert(spans@.take(i as int + 1).drop_last() == spans@.take(i as int));
        assert(spans@.take(i as int + 1).last() == spans@[i as int]);
        match &spans[i] {
            Span::LineBreak => {
                out.push(Piece::Break);
                assert(out@ =~= flatten_spec(spans@.take(i as int)) + seq![Piece::Break]);
            },
            Span::Text { class, text } => {
                push_text(&mut out, text.as_str(), font_id(*class), color(*class));
            },
        }
        assert(out@ == flatten_spec(spans@.take(i as int + 1)));
        i = i + 1;
    }
    assert(spans@.take(spans@.len() as int) == spans@);
    proof {
        lemma_flatten_wf(spans@);
    }
    out
}

/// How the lines of one block are measured: text size in layout units to
/// the em, left margin, and the width the pen may not pass.
#[derive(Clone, Copy, Debug)]
pub struct LineFormat {
    pub size: i64,
    pub margin: i64,
    pub width: i64,
}

pub open spec fn format_wf(fmt: LineFormat) -> bool {
    0 <= fmt.size <= MAX_SIZE
}

/// The layout's fonts: one for each font id, each well formed.
pub open spec fn fonts_wf(fonts: Seq<FontMetrics>) -> bool {
    fonts.len() >= FONT_COUNT && forall|i: int| 0 <= i < fonts.len() ==> (#[trigger] fonts[i]).wf()
}

/// Scaled advance width of piece `k` (zero for a break).
pub open spec fn advance_at(p: Seq<Piece>, f: Seq<FontMetrics>, size: int, k: int) -> int {
    match p[k] {
        Piece::Glyph { c, font, .. } => scaled(
            advance_spec(f[font as int], drawn_char_spec(c)) as int,
            size,
            f[font as int].units_per_em as int,
        ),
        Piece::Break => 0,
    }
}

/// Scaled kerning between piece `k` and the piece before it, on a line
/// that starts at `a`: only between two glyphs of one font.
pub open spec fn kern_at(p: Seq<Piece>, f: Seq<FontMetrics>, size: int, a: int, k: int) -> int {
    if k <= a {
        0
    } else {
        match (p[k - 1], p[k]) {
            (Piece::Glyph { c: c0, font: f0, .. }, Piece::Glyph { c: c1, font: f1, .. }) => {
                if f0 == f1 {
                    scaled(
                        kerning_spec(f[f1 as int], drawn_char_spec(c0), drawn_char_spec(c1)) as int,
                        size,
                        f[f1 as int].units_per_em as int,
                    )
                } else {
                    0
                }
            },
            _ => 0,
        }
    }
}

/// Pen position after piece `k` on a line that starts at piece `a`.
pub open spec fn pen_after(p: Seq<Piece>, f: Seq<FontMetrics>, fmt: LineFormat, a: int, k: int) -> int
    decreases k - a,
{
    let before = if k <= a {
        fmt.margin as int
    } else {
        pen_after(p, f, fmt, a, k - 1)
    };
    sat(sat(before + kern_at(p, f, fmt.size as int, a, k)) + advance_at(p, f, fmt.size as int, k))
}

/// Pen position at which piece `k` is drawn, on a line that starts at `a`.
pub open spec fn glyph_origin(p: Seq<Piece>, f: Seq<FontMetrics>, fmt: LineFormat, a: int, k: int) -> int {
    let before = if k <= a {
        fmt.margin as int
    } else {
        pen_after(p, f, fmt, a, k - 1)
    };
    sat(before + kern_at(p, f, fmt.size as int, a, k))
}

pub open spec fn is_space_piece(piece: Piece) -> bool {
    match piece {
        Piece::Glyph { c, .. } => is_space_spec(c),
        Piece::Break => false,
    }
}

/// Scanning a line from `a` stops at piece `k`: a forced break, or a glyph
/// that takes the pen past the width.
pub open spec fn stops_at(p: Seq<Piece>, f: Seq<FontMetrics>, fmt: LineFormat, a: int, k: int) -> bool {
    match p[k] {
        Piece::Break => true,
        Piece::Glyph { .. } => pen_after(p, f, fmt, a, k) > fmt.width,
    }
}

/// Where one line ends. `stop` is the first piece at which the scan from
/// the line's start stops, or the number of pieces; the line holds the
/// pieces before `end`, and the next line resumes at `resume` (before its
/// leading white space is trimmed).
#[derive(Clone, Copy, Debug, PartialEq, Eq, Structural)]
pub struct LineSplit {
    pub stop: usize,
    pub end: usize,
    pub resume: usize,
}

/// The split of the line that starts at `a`, given its stop.
pub open spec fn split_spec(p: Seq<Piece>, f: Seq<FontMetrics>, fmt: LineFormat, a: int, r: LineSplit) -> bool {
    let n = p.len() as int;
    let stop = r.stop as int;
    &&& a <= stop <= n
    &&& forall|j: int| a <= j < stop ==> !#[trigger] stops_at(p, f, fmt, a, j)
    &&& stop < n ==> stops_at(p, f, fmt, a, stop)
    &&& stop == n ==> r.end == n && r.resume == n
    &&& stop < n && p[stop] is Break ==> r.end == stop && r.resume == stop + 1
    &&& stop < n && p[stop] is Glyph ==> {
        if exists|q: int| a <= q <= stop && is_space_piece(#[trigger] p[q]) {
            // break at the most recent white space, which the next line trims
            &&& a <= r.end <= stop
            &&& r.resume == r.end
            &&& is_space_piece(p[r.end as int])
            &&& forall|j: int| r.end < j <= stop ==> !is_space_piece(#[trigger] p[j])
        } else if stop > a {
            // a word wider than the line: break before the glyph that overflowed
            r.end == stop && r.resume == stop
        } else {
            // one glyph wider than the line: it stands on a line of its own
            r.end == stop + 1 && r.resume == stop + 1
        }
    }
}

/// The line split is determined by where the line starts.
pub proof fn lemma_split_unique(p: Seq<Piece>, f: Seq<FontMetrics>, fmt: LineFormat, a: int, r1: LineSplit, r2: LineSplit)
    requires
        split_spec(p, f, fmt, a, r1),
        split_spec(p, f, fmt, a, r2),
    ensures
        r1 == r2,
{
    if r1.stop < r2.stop {
        assert(!stops_at(p, f, fmt, a, r1.stop as int));
    } else if r2.stop < r1.stop {
        assert(!stops_at(p, f, fmt, a, r2.stop as int));
    }
    assert(r1.stop == r2.stop);
    let stop = r1.stop as int;
    if stop < p.len() && p[stop] is Glyph {
        if exists|q: int| a <= q <= stop && is_space_piece(#[trigger] p[q]) {
            assert(is_space_piece(p[r1.end as int]) && is_space_piece(p[r2.end as int]));
            assert(forall|j: int| r1.end < j <= stop ==> !is_space_piece(#[trigger] p[j]));
            assert(forall|j: int| r2.end < j <= stop ==> !is_space_piece(#[trigger] p[j]));
            assert(r1.end <= stop && r2.end <= stop);
            if r1.end < r2.end {
                let j = r2.end as int;
                assert(!is_space_piece(p[j]));
            } else if r2.end < r1.end {
                let j = r1.end as int;
                assert(!is_space_piece(p[j]));
            }
        }
    }
}

/// The split of the line that starts at piece `a`.
pub open spec fn split_of(p: Seq<Piece>, f: Seq<FontMetrics>, fmt: LineFormat, a: int) -> LineSplit {
    choose|r: LineSplit| split_spec(p, f, fmt, a, r)
}

/// Pen position before piece `k` and the scaled kerning and advance of it:
/// the origin at which it is drawn and the pen position after it.
fn step_glyph(p: &Vec<Piece>, fonts: &Vec<FontMetrics>, fmt: LineFormat, a: usize, k: usize, pen: i64) -> (r: (i64, i64))
    requires
        a <= k < p.len(),
        p@[k as int] is Glyph,
        pieces_wf(p@),
        fonts_wf(fonts@),
        format_wf(fmt),
        pen == (if k <= a {
            fmt.margin as int
        } else {
            pen_after(p@, fonts@, fmt, a as int, k - 1)
        }),
    ensures
        r.0 == glyph_origin(p@, fonts@, fmt, a as int, k as int),
        r.1 == pen_after(p@, fonts@, fmt, a as int, k as int),
{
    let ghost g = p@[k as int];
    assert(piece_wf(g));
    match p[k] {
        Piece::Glyph { c, font, .. } => {
            let m = &fonts[font];
            assert(m.wf());
            let mut kern: i64 = 0;
            if k > a {
                match p[k - 1] {
                    Piece::Glyph { c: c0, font: f0, .. } => {
                        if f0 == font {
                            let kv = kerning(m, drawn_char(c0), drawn_char(c));
                            kern = scale_units(kv as i64, fmt.size, m.units_per_em);
                        }
                    },
                    Piece::Break => {},
                }
            }
            let adv = advance(m, drawn_char(c));
            let adv_scaled = scale_units(adv as i64, fmt.size, m.units_per_em);
            let origin = sat_add(pen, kern);
            let after = sat_add(origin, adv_scaled);
            (origin, after)
        },
        Piece::Break => (pen, pen),
    }
}

/// Finds where the line that starts at piece `a` ends: scans forward,
/// adding each glyph's kerning and advance to the pen, until a forced break
/// or a glyph that takes the pen past the width; on overflow it breaks at
/// the most recent white space, or else before the overflowing glyph, and
/// never leaves a line without a glyph for want of white space.
pub fn find_break(p: &Vec<Piece>, fonts: &Vec<FontMetrics>, fmt: LineFormat, a: usize) -> (r: LineSplit)
    requires
        a <= p.len(),
        pieces_wf(p@),
        fonts_wf(fonts@),
        format_wf(fmt),
    ensures
        split_spec(p@, fonts@, fmt, a as int, r),
        r == split_of(p@, fonts@, fmt, a as int),
{
    let r = find_break_scan(p, fonts, fmt, a);
    proof {
        lemma_split_unique(p@, fonts@, fmt, a as int, r, split_of(p@, fonts@, fmt, a as int));
    }
    r
}

fn find_break_scan(p: &Vec<Piece>, fonts: &Vec<FontMetrics>, fmt: LineFormat, a: usize) -> (r: LineSplit)
    requires
        a <= p.len(),
        pieces_wf(p@),
        fonts_wf(fonts@),
        format_wf(fmt),
    ensures
        split_spec(p@, fonts@, fmt, a as int, r),
{
    let n = p.len();
    let mut k: usize = a;
    let mut pen: i64 = fmt.margin;
    let mut last_space: Option<usize> = None;
    while k < n
        invariant
            a <= k <= n == p.len(),
            pieces_wf(p@),
            fonts_wf(fonts@),
            format_wf(fmt),
            pen == (if k <= a {
                fmt.margin as int
            } else {
                pen_after(p@, fonts@, fmt, a as int, k - 1)
            }),
            forall|j: int| a <= j < k ==> !#[trigger] stops_at(p@, fonts@, fmt, a as int, j),
            match last_space {
                Some(q) => a <= q < k && is_space_piece(p@[q as int]) && forall|j: int|
                    q < j < k ==> !is_space_piece(#[trigger] p@[j]),
                None => forall|j: int| a <= j < k ==> !is_space_piece(#[trigger] p@[j]),
            },
        decreases n - k,
    {
        match p[k] {
            Piece::Break => {
                return LineSplit { stop: k, end: k, resume: k + 1 };
            },
            Piece::Glyph { c, .. } => {
                if is_space(c) {
                    last_space = Some(k);
                }
                let (_, after) = step_glyph(p, fonts, fmt, a, k, pen);
                if after > fmt.width {
                    match last_space {
                        Some(q) => {
                            return LineSplit { stop: k, end: q, resume: q };
                        },
                        None => {
                            if k > a {
                                return LineSplit { stop: k, end: k, resume: k };
                            } else {
                                return LineSplit { stop: k, end: k + 1, resume: k + 1 };
                            }
                        },
                    }
                }
                pen = after;
            },
        }
        k = k + 1;
    }
    LineSplit { stop: n, end: n, resume: n }
}

/// The first piece from `k` on that is not white space, or the end.
pub open spec fn trim_of(p: Seq<Piece>, k: int) -> int
    decreases p.len() - k,
{
    if k < 0 || k >= p.len() || !is_space_piece(p[k]) {
        k
    } else {
        trim_of(p, k + 1)
    }
}

/// Skips the white space that would lead the line resuming at `k`.
pub fn trim_start(p: &Vec<Piece>, k: usize) -> (r: usize)
    requires
        k <= p.len(),
    ensures
        r == trim_of(p@, k as int),
        k <= r <= p.len(),
        forall|j: int| k <= j < r ==> is_space_piece(#[trigger] p@[j]),
        r < p.len() ==> !is_space_piece(p@[r as int]),
{
    let mut r = k;
    while r < p.len()
        invariant
            k <= r <= p.len(),
            trim_of(p@, k as int) == trim_of(p@, r as int),
            forall|j: int| k <= j < r ==> is_space_piece(#[trigger] p@[j]),
        decreases p.len() - r,
    {
        match p[r] {
            Piece::Glyph { c, .. } => {
                if !is_space(c) {
                    return r;
                }
            },
            Piece::Break => {
                return r;
            },
        }
        r = r + 1;
    }
    r
}

pub open spec fn make_glyph(c: char, font: usize, tint: Color, size: i64, x: int, y: i64) -> LayoutGlyph {
    LayoutGlyph { color: tint, font_id: font, character: drawn_char_spec(c), size, x: x as i64, y }
}

/// The glyph drawn for piece `k` of the line that starts at `a`, for a
/// line whose left edge is `x0` and whose baseline is `baseline`.
pub open spec fn placed_glyph(
    p: Seq<Piece>,
    f: Seq<FontMetrics>,
    fmt: LineFormat,
    a: int,
    k: int,
    x0: i64,
    baseline: i64,
) -> LayoutGlyph {
    match p[k] {
        Piece::Glyph { c, font, color } => make_glyph(
            c,
            font,
            color,
            fmt.size,
            sat(x0 + glyph_origin(p, f, fmt, a, k)),
            baseline,
        ),
        Piece::Break => make_glyph(' ', 0, regular_color(), fmt.size, x0 as int, baseline),
    }
}

/// Appends the glyphs of pieces `[a, end)`, all of them glyph pieces, as
/// the line that starts at `a`: each at the pen position the scan gives it.
pub fn emit_line(
    p: &Vec<Piece>,
    fonts: &Vec<FontMetrics>,
    fmt: LineFormat,
    a: usize,
    end: usize,
    x0: i64,
    baseline: i64,
    out: &mut Vec<LayoutGlyph>,
)
    requires
        a <= end <= p.len(),
        forall|j: int| a <= j < end ==> (#[trigger] p@[j]) is Glyph,
        pieces_wf(p@),
        fonts_wf(fonts@),
        format_wf(fmt),
    ensures
        final(out)@.len() == old(out)@.len() + (end - a),
        forall|j: int| 0 <= j < old(out)@.len() ==> final(out)@[j] == old(out)@[j],
        forall|k: int|
            a <= k < end ==> final(out)@[old(out)@.len() + k - a] == placed_glyph(
                p@,
                fonts@,
                fmt,
                a as int,
                k,
                x0,
                baseline,
            ),
{
    let ghost start = out@;
    let mut k = a;
    let mut pen: i64 = fmt.margin;
    while k < end
        invariant
            a <= k <= end <= p.len(),
            forall|j: int| a <= j < end ==> (#[trigger] p@[j]) is Glyph,
            pieces_wf(p@),
            fonts_wf(fonts@),
            format_wf(fmt),
            pen == (if k <= a {
                fmt.margin as int
            } else {
                pen_after(p@, fonts@, fmt, a as int, k - 1)
            }),
            out@.len() == start.len() + (k - a),
            forall|j: int| 0 <= j < start.len() ==> out@[j] == start[j],
            forall|j: int|
                a <= j < k ==> out@[start.len() + j - a] == placed_glyph(
                    p@,
                    fonts@,
                    fmt,
                    a as int,
                    j,
                    x0,
                    baseline,
                ),
        decreases end - k,
    {
        assert(p@[k as int] is Glyph);
        let (origin, after) = step_glyph(p, fonts, fmt, a, k, pen);
        match p[k] {
            Piece::Glyph { c, font, color } => {
                let g = LayoutGlyph {
                    color,
                    font_id: font,
                    character: drawn_char(c),
                    size: fmt.size,
                    x: sat_add(x0, origin),
                    y: baseline,
                };
                out.push(g);
            },
            Piece::Break => {},
        }
        pen = after;
        k = k + 1;
    }
}

/// Regular text size, column width, list indent and the gap after each
/// block, in pixels; the layout multiplies them by its scale.
pub const FONT_SIZE: i64 = 18;
pub const COLUMN_WIDTH: i64 = 540;
pub const INDENT: i64 = 32;
pub const PARAGRAPH_SPACING: i64 = 14;

/// Text size of a block class at `scale` layout units to the pixel.
pub open spec fn block_size(class: BlockClass, scale: u32) -> int {
    FONT_SIZE * scale * size_percent_spec(class) / 100
}

/// Vertical extent of a line of text at `size`: ascent above the baseline,
/// descent below it, and the gap before the next line.
pub open spec fn ascent_at(m: FontMetrics, size: int) -> int {
    scaled(m.ascent as int, size, m.units_per_em as int)
}

pub open spec fn descent_at(m: FontMetrics, size: int) -> int {
    scaled(-m.descent, size, m.units_per_em as int)
}

pub open spec fn gap_at(m: FontMetrics, size: int) -> int {
    scaled(m.line_gap as int, size, m.units_per_em as int)
}

/// How far the vertical cursor moves after a line of text at `size`.
pub open spec fn line_advance(m: FontMetrics, size: int) -> int {
    ascent_at(m, size) + descent_at(m, size) + gap_at(m, size)
}

/// Every block class gives lines a positive advance at `scale`.
pub open spec fn advances_positive(m: FontMetrics, scale: u32) -> bool {
    forall|c: BlockClass| line_advance(m, #[trigger] block_size(c, scale)) > 0
}

/// Line tops strictly ascend, up to the end of the coordinate range.
pub open spec fn tops_ascending(lines: Seq<Line>) -> bool {
    forall|i: int, j: int|
        0 <= i < j < lines.len() ==> (#[trigger] lines[i]).top < (#[trigger] lines[j]).top
            || lines[j].top == i64::MAX
}

/// What holds of a display under construction whose vertical cursor is
/// at `y`: it is well formed and every line ends at or above the cursor;
/// with `strict`, line tops ascend and lie above the cursor.
pub open spec fn building(glyphs: Seq<LayoutGlyph>, lines: Seq<Line>, y: i64, strict: bool) -> bool {
    &&& display_wf(glyphs, lines)
    &&& forall|i: int| 0 <= i < lines.len() ==> (#[trigger] lines[i]).bottom <= y
    &&& strict ==> tops_ascending(lines)
    &&& strict ==> forall|i: int| 0 <= i < lines.len() ==> (#[trigger] lines[i]).top < y || y == i64::MAX
}

proof fn lemma_push_line(
    glyphs: Seq<LayoutGlyph>,
    more: Seq<LayoutGlyph>,
    lines: Seq<Line>,
    y: i64,
    height: int,
    adv: int,
    strict: bool,
)
    requires
        building(glyphs, lines, y, strict),
        glyphs.len() <= more.len() <= usize::MAX,
        0 <= height <= adv,
        strict ==> adv > 0,
    ensures
        building(
            more,
            lines.push(Line {
                top: y,
                bottom: sat(y + height) as i64,
                first: glyphs.len() as usize,
                end: more.len() as usize,
            }),
            sat(y + adv) as i64,
            strict,
        ),
{
    let l = Line { top: y, bottom: sat(y + height) as i64, first: glyphs.len() as usize, end: more.len() as usize };
    let ls = lines.push(l);
    let n = lines.len() as int;
    assert(ls[n] == l);
    assert forall|i: int| 0 <= i < n implies ls[i] == lines[i] by {}
    assert forall|i: int, j: int| 0 <= i < j < ls.len() implies (#[trigger] ls[i]).bottom <= (
    #[trigger] ls[j]).top by {
        if j == n {
            assert(lines[i].bottom <= y);
        } else {
            assert(ls[i] == lines[i] && ls[j] == lines[j]);
        }
    }
    if n > 0 {
        assert(lines[n - 1].end == glyphs.len());
        assert(ls[0] == lines[0]);
    }
    assert forall|i: int| 0 <= i < ls.len() implies (#[trigger] ls[i]).first <= ls[i].end by {
        if i < n {
            assert(ls[i] == lines[i]);
        }
    }
    assert forall|i: int| 0 <= i < ls.len() - 1 implies (#[trigger] ls[i]).end == ls[i + 1].first by {
        assert(ls[i] == lines[i]);
        if i < n - 1 {
            assert(ls[i + 1] == lines[i + 1]);
        }
    }
    assert(lines_partition(ls, more.len() as int));
    if strict {
        assert forall|i: int, j: int| 0 <= i < j < ls.len() implies (#[trigger] ls[i]).top < (
        #[trigger] ls[j]).top || ls[j].top == i64::MAX by {
            if j == n {
                assert(lines[i].top < y || y == i64::MAX);
            } else {
                assert(ls[i] == lines[i] && ls[j] == lines[j]);
            }
        }
    }
    assert forall|i: int| 0 <= i < ls.len() implies (#[trigger] ls[i]).bottom <= sat(y + adv) by {
        if i < n {
            assert(ls[i] == lines[i]);
        }
    }
}

proof fn lemma_move_cursor(glyphs: Seq<LayoutGlyph>, lines: Seq<Line>, y: i64, d: int, strict: bool)
    requires
        building(glyphs, lines, y, strict),
        d >= 0,
    ensures
        building(glyphs, lines, sat(y + d) as i64, strict),
{
}

/// Vertical metrics of the regular font at `size`.
fn vertical_metrics(m: &FontMetrics, size: i64) -> (r: (i64, i64, i64))
    requires
        m.wf(),
        0 <= size <= MAX_SIZE,
    ensures
        r.0 == ascent_at(*m, size as int),
        r.1 == descent_at(*m, size as int),
        r.2 == gap_at(*m, size as int),
        r.0 >= 0 && r.1 >= 0 && r.2 >= 0,
        r.0 + r.1 + r.2 <= 3 * 0x10000 * MAX_SIZE,
{
    proof {
        lemma_scaled_bounds(m.ascent as int, size as int, m.units_per_em as int);
        lemma_scaled_bounds(-m.descent, size as int, m.units_per_em as int);
        lemma_scaled_bounds(m.line_gap as int, size as int, m.units_per_em as int);
    }
    let asc = scale_units(m.ascent as i64, size, m.units_per_em);
    let desc = scale_units(-(m.descent as i64), size, m.units_per_em);
    let gap = scale_units(m.line_gap as i64, size, m.units_per_em);
    (asc, desc, gap)
}

fn size_of(class: BlockClass, scale: u32) -> (r: i64)
    ensures
        r == block_size(class, scale),
        0 <= r <= MAX_SIZE,
{
    let pct = size_percent(class);
    let s = scale as i64;
    assert(0 <= FONT_SIZE * s * pct <= FONT_SIZE * 0xffff_ffff * 200) by (nonlinear_arith)
        requires 0 <= s <= 0xffff_ffff, 67 <= pct <= 200;
    FONT_SIZE * s * pct / 100
}


/// Where a block's lines go: the column's left edge, the bullet's
/// position, the text size, and the ascent, height and advance of a line.
#[derive(Clone, Copy, Debug, PartialEq, Eq, Structural)]
pub struct BlockGeometry {
    pub x0: i64,
    pub bullet_x: i64,
    pub size: i64,
    pub ascent: i64,
    pub height: i64,
    pub advance: i64,
}

pub open spec fn format_of(class: BlockClass, scale: u32) -> LineFormat {
    LineFormat {
        size: block_size(class, scale) as i64,
        margin: if is_indented_spec(class) {
            INDENT * scale
        } else {
            0
        } as i64,
        width: (COLUMN_WIDTH * scale) as i64,
    }
}

pub open spec fn geometry_of(m: FontMetrics, class: BlockClass, scale: u32, x0: i64) -> BlockGeometry {
    let size = block_size(class, scale);
    BlockGeometry {
        x0,
        bullet_x: sat(x0 + INDENT * scale / 2) as i64,
        size: size as i64,
        ascent: ascent_at(m, size) as i64,
        height: (ascent_at(m, size) + descent_at(m, size)) as i64,
        advance: line_advance(m, size) as i64,
    }
}

pub open spec fn bullet_glyph(geo: BlockGeometry, baseline: i64) -> LayoutGlyph {
    LayoutGlyph {
        color: regular_color(),
        font_id: 0,
        character: '\u{2022}',
        size: geo.size,
        x: geo.bullet_x,
        y: baseline,
    }
}

/// The glyphs of pieces `[a, end)` set as the line that starts at `a`.
pub open spec fn line_glyphs(
    p: Seq<Piece>,
    f: Seq<FontMetrics>,
    fmt: LineFormat,
    a: int,
    end: int,
    x0: i64,
    baseline: i64,
) -> Seq<LayoutGlyph> {
    Seq::new((end - a) as nat, |t: int| placed_glyph(p, f, fmt, a, a + t, x0, baseline))
}

/// After the line split `r`, whose next line would start at `next`, the
/// block goes on: a forced break always opens a line, a wrap only when
/// text is left.
pub open spec fn wraps_on(p: Seq<Piece>, r: LineSplit, next: int) -> bool {
    r.stop < p.len() && !(p[r.stop as int] is Glyph && next >= p.len())
}

/// The glyphs of the line of a block that starts at piece `a` with its
/// top at `y`: the bullet, if any, then the line's pieces.
pub open spec fn block_head(
    p: Seq<Piece>,
    f: Seq<FontMetrics>,
    fmt: LineFormat,
    geo: BlockGeometry,
    a: int,
    y: i64,
    bullet: bool,
) -> Seq<LayoutGlyph> {
    let baseline = sat(y + geo.ascent) as i64;
    (if bullet {
        seq![bullet_glyph(geo, baseline)]
    } else {
        Seq::empty()
    }) + line_glyphs(p, f, fmt, a, split_of(p, f, fmt, a).end as int, geo.x0, baseline)
}

pub open spec fn block_line(geo: BlockGeometry, y: i64, g0: int, n: int) -> Line {
    Line { top: y, bottom: sat(y + geo.height) as i64, first: g0 as usize, end: (g0 + n) as usize }
}

/// Glyphs, lines and final cursor of the lines of a block from piece `a`
/// on, the first at height `y` and its first glyph numbered `g0`; with
/// `bullet`, the first line starts with a bullet.
#[verifier::opaque]
pub open spec fn block_out(
    p: Seq<Piece>,
    f: Seq<FontMetrics>,
    fmt: LineFormat,
    geo: BlockGeometry,
    a: int,
    y: i64,
    g0: int,
    bullet: bool,
) -> (Seq<LayoutGlyph>, Seq<Line>, i64)
    decreases p.len() - a,
{
    let head = block_head(p, f, fmt, geo, a, y, bullet);
    let line = block_line(geo, y, g0, head.len() as int);
    let y2 = sat(y + geo.advance) as i64;
    let r = split_of(p, f, fmt, a);
    let next = trim_of(p, r.resume as int);
    if 0 <= a < next <= p.len() && wraps_on(p, r, next) {
        let rest = block_out(p, f, fmt, geo, next, y2, g0 + head.len(), false);
        (head + rest.0, seq![line] + rest.1, rest.2)
    } else {
        (head, seq![line], y2)
    }
}

proof fn lemma_block_out_unfold(
    p: Seq<Piece>,
    f: Seq<FontMetrics>,
    fmt: LineFormat,
    geo: BlockGeometry,
    a: int,
    y: i64,
    g0: int,
    bullet: bool,
)
    ensures
        ({
            let head = block_head(p, f, fmt, geo, a, y, bullet);
            let line = block_line(geo, y, g0, head.len() as int);
            let y2 = sat(y + geo.advance) as i64;
            let r = split_of(p, f, fmt, a);
            let next = trim_of(p, r.resume as int);
            block_out(p, f, fmt, geo, a, y, g0, bullet) == if 0 <= a < next <= p.len() && wraps_on(
                p,
                r,
                next,
            ) {
                let rest = block_out(p, f, fmt, geo, next, y2, g0 + head.len(), false);
                (head + rest.0, seq![line] + rest.1, rest.2)
            } else {
                (head, seq![line], y2)
            }
        }),
{
    reveal_with_fuel(block_out, 1);
}

pub open spec fn image_pieces(source: Seq<char>) -> Seq<Piece> {
    text_pieces("Image: "@, 0, placeholder_color()) + text_pieces(source, 0, placeholder_color())
}

/// The placeholder line of an image: its label at the regular size.
pub open spec fn image_out(source: Seq<char>, f: Seq<FontMetrics>, x0: i64, y: i64, scale: u32, g0: int) -> (
    Seq<LayoutGlyph>,
    Seq<Line>,
    i64,
) {
    let fmt = format_of(BlockClass::Paragraph, scale);
    let geo = geometry_of(f[0], BlockClass::Paragraph, scale, x0);
    let p = image_pieces(source);
    let g = line_glyphs(p, f, fmt, 0, p.len() as int, x0, sat(y + geo.ascent) as i64);
    let line = Line { top: y, bottom: sat(y + geo.height) as i64, first: g0 as usize, end: (g0 + g.len()) as usize };
    (g, seq![line], sat(y + geo.advance) as i64)
}

pub open spec fn block_spec(b: Block, f: Seq<FontMetrics>, x0: i64, y: i64, scale: u32, g0: int) -> (
    Seq<LayoutGlyph>,
    Seq<Line>,
    i64,
) {
    match b {
        Block::Flowing { class, content } => block_out(
            flatten_spec(content@),
            f,
            format_of(class, scale),
            geometry_of(f[0], class, scale, x0),
            0,
            y,
            g0,
            class == BlockClass::ListItem,
        ),
        Block::Image { source } => image_out(source@, f, x0, y, scale, g0),
    }
}

/// Glyphs, lines and final cursor of the first `n` blocks of a document.
pub open spec fn document_out(blocks: Seq<Block>, f: Seq<FontMetrics>, x0: i64, y0: i64, scale: u32, n: int) -> (
    Seq<LayoutGlyph>,
    Seq<Line>,
    i64,
)
    decreases n,
{
    if n <= 0 {
        (Seq::empty(), Seq::empty(), y0)
    } else {
        let prev = document_out(blocks, f, x0, y0, scale, n - 1);
        let b = block_spec(blocks[n - 1], f, x0, prev.2, scale, prev.0.len() as int);
        (prev.0 + b.0, prev.1 + b.1, sat(b.2 + PARAGRAPH_SPACING * scale) as i64)
    }
}

proof fn lemma_block_out_first(
    p: Seq<Piece>,
    f: Seq<FontMetrics>,
    fmt: LineFormat,
    geo: BlockGeometry,
    a: int,
    y: i64,
    g0: int,
    bullet: bool,
)
    ensures
        block_out(p, f, fmt, geo, a, y, g0, bullet).1.len() >= 1,
        block_out(p, f, fmt, geo, a, y, g0, bullet).1[0].top == y,
{
    lemma_block_out_unfold(p, f, fmt, geo, a, y, g0, bullet);
}

/// Places the line of a block that starts at piece `a` with its top at `y`.
fn place_line(
    p: &Vec<Piece>,
    fonts: &Vec<FontMetrics>,
    fmt: LineFormat,
    geo: BlockGeometry,
    a: usize,
    y: i64,
    bullet: bool,
    glyphs: &mut Vec<LayoutGlyph>,
    lines: &mut Vec<Line>,
    Ghost(strict): Ghost<bool>,
) -> (r: (LineSplit, i64))
    requires
        a <= p.len(),
        pieces_wf(p@),
        fonts_wf(fonts@),
        format_wf(fmt),
        geo.size == fmt.size,
        0 <= geo.height <= geo.advance,
        strict ==> geo.advance > 0,
        building(old(glyphs)@, old(lines)@, y, strict),
    ensures
        r.0 == split_of(p@, fonts@, fmt, a as int),
        split_spec(p@, fonts@, fmt, a as int, r.0),
        r.1 == sat(y + geo.advance),
        final(glyphs)@ == old(glyphs)@ + block_head(p@, fonts@, fmt, geo, a as int, y, bullet),
        final(lines)@ == old(lines)@.push(
            block_line(geo, y, old(glyphs)@.len() as int, block_head(p@, fonts@, fmt, geo, a as int, y, bullet).len() as int),
        ),
        building(final(glyphs)@, final(lines)@, r.1, strict),
{
    let ghost g_before = glyphs@;
    let ghost l_before = lines@;
    let split = find_break(p, fonts, fmt, a);
    let baseline = sat_add(y, geo.ascent);
    let first = glyphs.len();
    if bullet {
        glyphs.push(
            LayoutGlyph {
                color: Color { r: 0, g: 0, b: 0, a: 255 },
                font_id: 0,
                character: '\u{2022}',
                size: geo.size,
                x: geo.bullet_x,
                y: baseline,
            },
        );
    }
    let ghost g_mid = glyphs@;
    proof {
        assert forall|j: int| a <= j < split.end implies (#[trigger] p@[j]) is Glyph by {
            if j < split.stop {
                assert(!stops_at(p@, fonts@, fmt, a as int, j));
            }
        }
    }
    emit_line(p, fonts, fmt, a, split.end, geo.x0, baseline, glyphs);
    let ghost head = block_head(p@, fonts@, fmt, geo, a as int, y, bullet);
    proof {
        let lg = line_glyphs(p@, fonts@, fmt, a as int, split.end as int, geo.x0, baseline);
        assert(glyphs@ =~= g_mid + lg);
        if bullet {
            assert(g_mid =~= g_before + seq![bullet_glyph(geo, baseline)]);
        } else {
            assert(g_mid =~= g_before);
        }
        assert(glyphs@ =~= g_before + head);
    }
    let end = glyphs.len();
    let line = Line { top: y, bottom: sat_add(y, geo.height), first, end };
    proof {
        lemma_push_line(g_before, glyphs@, l_before, y, geo.height as int, geo.advance as int, strict);
    }
    lines.push(line);
    (split, sat_add(y, geo.advance))
}

#[verifier::rlimit(60)]
fn layout_flowing(
    p: &Vec<Piece>,
    class: BlockClass,
    fonts: &Vec<FontMetrics>,
    scale: u32,
    origin_x: i64,
    y0: i64,
    glyphs: &mut Vec<LayoutGlyph>,
    lines: &mut Vec<Line>,
    Ghost(strict): Ghost<bool>,
) -> (y: i64)
    requires
        building(old(glyphs)@, old(lines)@, y0, strict),
        strict ==> advances_positive(fonts@[0], scale),
        pieces_wf(p@),
        fonts_wf(fonts@),
    ensures
        building(final(glyphs)@, final(lines)@, y, strict),
        ({
            let out = block_out(
                p@,
                fonts@,
                format_of(class, scale),
                geometry_of(fonts@[0], class, scale, origin_x),
                0,
                y0,
                old(glyphs)@.len() as int,
                class == BlockClass::ListItem,
            );
            &&& final(glyphs)@ == old(glyphs)@ + out.0
            &&& final(lines)@ == old(lines)@ + out.1
            &&& y == out.2
            &&& out.1.len() >= 1
            &&& out.1[0].top == y0
        }),
{
    let ghost lines0 = lines@;
    let ghost glyphs0 = glyphs@;
    proof {
        lemma_block_out_first(
            p@,
            fonts@,
            format_of(class, scale),
            geometry_of(fonts@[0], class, scale, origin_x),
            0,
            y0,
            glyphs0.len() as int,
            class == BlockClass::ListItem,
        );
    }
    let size = size_of(class, scale);
    let s = scale as i64;
    let margin: i64 = if is_indented(class) {
        INDENT * s
    } else {
        0
    };
    let fmt = LineFormat { size, margin, width: COLUMN_WIDTH * s };
    assert(fonts@[0].wf());
    let (asc, desc, gap) = vertical_metrics(&fonts[0], size);
    let geo = BlockGeometry {
        x0: origin_x,
        bullet_x: sat_add(origin_x, INDENT * s / 2),
        size,
        ascent: asc,
        height: asc + desc,
        advance: asc + desc + gap,
    };
    assert(fmt == format_of(class, scale));
    assert(geo == geometry_of(fonts@[0], class, scale, origin_x));
    assert(strict ==> geo.advance > 0) by {
        if strict {
            assert(line_advance(fonts@[0], block_size(class, scale)) > 0);
        }
    }
    let mut bullet = match class {
        BlockClass::ListItem => true,
        _ => false,
    };
    let ghost target = block_out(p@, fonts@, fmt, geo, 0, y0, glyphs0.len() as int, bullet);
    let mut a: usize = 0;
    let mut y = y0;
    loop
        invariant
            a <= p.len(),
            pieces_wf(p@),
            fonts_wf(fonts@),
            format_wf(fmt),
            geo.size == fmt.size,
            0 <= geo.height <= geo.advance,
            strict ==> geo.advance > 0,
            glyphs0 == old(glyphs)@,
            lines0 == old(lines)@,
            target.1.len() >= 1 && target.1[0].top == y0,
            target == block_out(
                p@,
                fonts@,
                format_of(class, scale),
                geometry_of(fonts@[0], class, scale, origin_x),
                0,
                y0,
                glyphs0.len() as int,
                class == BlockClass::ListItem,
            ),
            building(glyphs@, lines@, y, strict),
            ({
                let rest = block_out(p@, fonts@, fmt, geo, a as int, y, glyphs@.len() as int, bullet);
                &&& glyphs@.len() >= glyphs0.len()
                &&& lines@.len() >= lines0.len()
                &&& glyphs@ == glyphs0 + glyphs@.subrange(glyphs0.len() as int, glyphs@.len() as int)
                &&& lines@ == lines0 + lines@.subrange(lines0.len() as int, lines@.len() as int)
                &&& target.0 == glyphs@.subrange(glyphs0.len() as int, glyphs@.len() as int) + rest.0
                &&& target.1 == lines@.subrange(lines0.len() as int, lines@.len() as int) + rest.1
                &&& target.2 == rest.2
            }),
        decreases p.len() - a,
    {
        let ghost g_before = glyphs@;
        let ghost l_before = lines@;
        proof {
            lemma_block_out_unfold(p@, fonts@, fmt, geo, a as int, y, glyphs@.len() as int, bullet);
        }
        let (split, y_next) = place_line(p, fonts, fmt, geo, a, y, bullet, glyphs, lines, Ghost(strict));
        let ghost head = block_head(p@, fonts@, fmt, geo, a as int, y, bullet);
        let ghost line = block_line(geo, y, g_before.len() as int, head.len() as int);
        let ghost rest = block_out(p@, fonts@, fmt, geo, a as int, y, g_before.len() as int, bullet);
        proof {
            assert(glyphs@.subrange(glyphs0.len() as int, glyphs@.len() as int) =~= g_before.subrange(
                glyphs0.len() as int,
                g_before.len() as int,
            ) + head);
            assert(lines@.subrange(lines0.len() as int, lines@.len() as int) =~= l_before.subrange(
                lines0.len() as int,
                l_before.len() as int,
            ) + seq![line]);
            assert(glyphs@ =~= glyphs0 + glyphs@.subrange(glyphs0.len() as int, glyphs@.len() as int));
            assert(lines@ =~= lines0 + lines@.subrange(lines0.len() as int, lines@.len() as int));
        }
        if split.stop >= p.len() {
            proof {
                assert(rest == (head, seq![line], y_next));
                assert(target.0 =~= glyphs@.subrange(glyphs0.len() as int, glyphs@.len() as int));
                assert(target.1 =~= lines@.subrange(lines0.len() as int, lines@.len() as int));
                assert(glyphs@ == old(glyphs)@ + target.0);
                assert(lines@ == old(lines)@ + target.1);
                assert(y_next == target.2);
            }
            return y_next;
        }
        let next = trim_start(p, split.resume);
        proof {
            if p@[split.stop as int] is Glyph {
                if exists|q: int| a <= q <= split.stop && is_space_piece(#[trigger] p@[q]) {
                    assert(is_space_piece(p@[split.resume as int]));
                }
            }
        }
        let overflowed = match p[split.stop] {
            Piece::Glyph { .. } => true,
            Piece::Break => false,
        };
        if overflowed && next >= p.len() {
            proof {
                assert(rest == (head, seq![line], y_next));
                assert(target.0 =~= glyphs@.subrange(glyphs0.len() as int, glyphs@.len() as int));
                assert(target.1 =~= lines@.subrange(lines0.len() as int, lines@.len() as int));
                assert(glyphs@ == old(glyphs)@ + target.0);
                assert(lines@ == old(lines)@ + target.1);
                assert(y_next == target.2);
            }
            return y_next;
        }
        proof {
            let rest2 = block_out(p@, fonts@, fmt, geo, next as int, y_next, (g_before.len() + head.len()) as int, false);
            assert(rest == (head + rest2.0, seq![line] + rest2.1, rest2.2));
            assert(target.0 =~= glyphs@.subrange(glyphs0.len() as int, glyphs@.len() as int) + rest2.0);
            assert(target.1 =~= lines@.subrange(lines0.len() as int, lines@.len() as int) + rest2.1);
        }
        bullet = false;
        y = y_next;
        a = next;
    }
}

fn layout_image(
    source: &String,
    fonts: &Vec<FontMetrics>,
    scale: u32,
    origin_x: i64,
    y0: i64,
    glyphs: &mut Vec<LayoutGlyph>,
    lines: &mut Vec<Line>,
    Ghost(strict): Ghost<bool>,
) -> (y: i64)
    requires
        building(old(glyphs)@, old(lines)@, y0, strict),
        strict ==> advances_positive(fonts@[0], scale),
        fonts_wf(fonts@),
    ensures
        building(final(glyphs)@, final(lines)@, y, strict),
        ({
            let out = image_out(source@, fonts@, origin_x, y0, scale, old(glyphs)@.len() as int);
            &&& final(glyphs)@ == old(glyphs)@ + out.0
            &&& final(lines)@ == old(lines)@ + out.1
            &&& y == out.2
        }),
{
    let tint = Color { r: 204, g: 0, b: 0, a: 255 };
    let mut p: Vec<Piece> = Vec::new();
    push_text(&mut p, "Image: ", 0, tint);
    let ghost label = p@;
    push_text(&mut p, source.as_str(), 0, tint);
    proof {
        lemma_text_pieces_fonts("Image: "@, 0, tint);
        lemma_text_pieces_fonts(source@, 0, tint);
        let b = text_pieces(source@, 0, tint);
        assert(p@ == label + b);
        assert forall|k: int| 0 <= k < p@.len() implies (#[trigger] p@[k]) is Glyph && piece_wf(p@[k]) by {
            if k < label.len() {
                assert(p@[k] == label[k]);
            } else {
                assert(p@[k] == b[k - label.len()]);
            }
        }
    }
    let size = size_of(BlockClass::Paragraph, scale);
    let fmt = LineFormat { size, margin: 0, width: COLUMN_WIDTH * (scale as i64) };
    assert(fmt == format_of(BlockClass::Paragraph, scale));
    assert(p@ == image_pieces(source@));
    assert(fonts@[0].wf());
    let (asc, desc, gap) = vertical_metrics(&fonts[0], size);
    let height = asc + desc;
    let adv = height + gap;
    assert(strict ==> adv > 0) by {
        if strict {
            assert(line_advance(fonts@[0], block_size(BlockClass::Paragraph, scale)) > 0);
        }
    }
    let baseline = sat_add(y0, asc);
    let ghost glyphs_before = glyphs@;
    let ghost lines_before = lines@;
    let first = glyphs.len();
    emit_line(&p, fonts, fmt, 0, p.len(), origin_x, baseline, glyphs);
    assert(glyphs@ =~= glyphs_before + line_glyphs(p@, fonts@, fmt, 0, p@.len() as int, origin_x, baseline));
    let end = glyphs.len();
    let line = Line { top: y0, bottom: sat_add(y0, height), first, end };
    proof {
        lemma_push_line(glyphs_before, glyphs@, lines_before, y0, height as int, adv as int, strict);
    }
    lines.push(line);
    assert(lines@ =~= lines_before + seq![line]);
    sat_add(y0, adv)
}

/// Lays out one block from cursor height `y0`.
fn layout_block(
    block: &Block,
    fonts: &Vec<FontMetrics>,
    scale: u32,
    origin_x: i64,
    y0: i64,
    glyphs: &mut Vec<LayoutGlyph>,
    lines: &mut Vec<Line>,
    Ghost(strict): Ghost<bool>,
) -> (y: i64)
    requires
        building(old(glyphs)@, old(lines)@, y0, strict),
        strict ==> advances_positive(fonts@[0], scale),
        fonts_wf(fonts@),
    ensures
        building(final(glyphs)@, final(lines)@, y, strict),
        ({
            let b = block_spec(*block, fonts@, origin_x, y0, scale, old(glyphs)@.len() as int);
            &&& final(glyphs)@ == old(glyphs)@ + b.0
            &&& final(lines)@ == old(lines)@ + b.1
            &&& y == b.2
            &&& b.1.len() >= 1
            &&& b.1[0].top == y0
        }),
{
    match block {
        Block::Flowing { class, content } => {
            let p = flatten(content);
            layout_flowing(&p, *class, fonts, scale, origin_x, y0, glyphs, lines, Ghost(strict))
        },
        Block::Image { source } => {
            layout_image(source, fonts, scale, origin_x, y0, glyphs, lines, Ghost(strict))
        },
    }
}

/// Lays out blocks of text in a column from (`origin_x`, `origin_y`) down,
/// at `scale` layout units to the pixel. Each flowing block is wrapped into
/// lines (see `find_break`; a forced break always opens a next line, a wrap
/// only when text is left), list items get an indent and a bullet, and an
/// image becomes one placeholder line; after each line the cursor moves
/// down by the regular font's line advance at the block's size, and after
/// each block by the paragraph spacing.
pub fn layout(blocks: &Vec<Block>, fonts: &Vec<FontMetrics>, origin_x: i64, origin_y: i64, scale: u32) -> (d: Display)
    requires
        fonts_wf(fonts@),
    ensures
        ({
            let out = document_out(blocks@, fonts@, origin_x, origin_y, scale, blocks@.len() as int);
            d@.glyphs == out.0 && d@.lines == out.1
        }),
        lines_ordered(d@.lines),
        advances_positive(fonts@[0], scale) ==> tops_ascending(d@.lines),
        d@.lines.len() >= blocks@.len(),
        d@.lines.len() > 0 ==> d@.lines[0].top == origin_y,
{
    let ghost strict = advances_positive(fonts@[0], scale);
    let mut glyphs: Vec<LayoutGlyph> = Vec::new();
    let mut lines: Vec<Line> = Vec::new();
    let mut y = origin_y;
    let spacing = PARAGRAPH_SPACING * (scale as i64);
    let mut i: usize = 0;
    while i < blocks.len()
        invariant
            i <= blocks.len(),
            fonts_wf(fonts@),
            strict == advances_positive(fonts@[0], scale),
            spacing == PARAGRAPH_SPACING * scale,
            building(glyphs@, lines@, y, strict),
            (glyphs@, lines@, y) == document_out(blocks@, fonts@, origin_x, origin_y, scale, i as int),
            lines@.len() >= i,
            lines@.len() > 0 ==> lines@[0].top == origin_y,
            lines@.len() == 0 ==> y == origin_y,
        decreases blocks.len() - i,
    {
        let ghost lines_before = lines@;
        y = layout_block(&blocks[i], fonts, scale, origin_x, y, &mut glyphs, &mut lines, Ghost(strict));
        assert(lines_before.len() > 0 ==> lines@[0] == lines_before[0]);
        proof {
            lemma_move_cursor(glyphs@, lines@, y, spacing as int, strict);
        }
        y = sat_add(y, spacing);
        i = i + 1;
    }
    assert(blocks@.len() == i);
    Display::from_parts(glyphs, lines)
}

/// Forced progress: a line that starts with a glyph other than white space
/// keeps at least that glyph, however wide its word or the glyph itself.
pub proof fn lemma_line_progress(p: Seq<Piece>, f: Seq<FontMetrics>, fmt: LineFormat, a: int, r: LineSplit)
    requires
        split_spec(p, f, fmt, a, r),
        0 <= a < p.len(),
        p[a] is Glyph,
        !is_space_piece(p[a]),
    ensures
        r.end > a,
        r.resume > a,
{
    let stop = r.stop as int;
    if stop < p.len() && p[stop] is Glyph {
        if exists|q: int| a <= q <= stop && is_space_piece(#[trigger] p[q]) {
            assert(is_space_piece(p[r.end as int]));
        }
    }
}

} // verus!
