//! Turns the glyphs of queued sections into draw instances: each glyph's
//! atlas quad is clipped to its section's bounds, shrinking its texture
//! rectangle on exactly the clipped edges, and mapped to device space.
use vstd::prelude::*;
use crate::display::LayoutGlyph;
use crate::document::Color;

verus! {

/// An axis-aligned rectangle; `min` is the top-left corner in screen space
/// (y grows downward) and in texture space.
#[derive(Clone, Copy, Debug, PartialEq, Eq, Structural)]
pub struct Rect {
    pub min_x: i64,
    pub min_y: i64,
    pub max_x: i64,
    pub max_y: i64,
}

/// Largest magnitude of a coordinate the atlas hands out.
pub const COORD_LIMIT: i64 = 0x1_0000_0000;

pub open spec fn rect_wf(r: Rect) -> bool {
    r.min_x <= r.max_x && r.min_y <= r.max_y
}

pub open spec fn rect_in_range(r: Rect) -> bool {
    &&& rect_wf(r)
    &&& -COORD_LIMIT <= r.min_x && r.max_x <= COORD_LIMIT
    &&& -COORD_LIMIT <= r.min_y && r.max_y <= COORD_LIMIT
}

/// Where the atlas holds a glyph: the pixels it covers on screen and its
/// rectangle in the atlas texture.
#[derive(Clone, Copy, Debug, PartialEq, Eq, Structural)]
pub struct AtlasQuad {
    pub screen: Rect,
    pub uv: Rect,
}

pub open spec fn quad_wf(q: AtlasQuad) -> bool {
    rect_in_range(q.screen) && rect_in_range(q.uv)
}

/// One glyph's draw data. Device coordinates are kept exact: the x
/// coordinates are `2 * x - width` and the y coordinates `height - 2 * y`,
/// so dividing them by the screen's width and height gives normalized
/// device coordinates, with y pointing up.
#[derive(Clone, Copy, Debug, PartialEq, Eq, Structural)]
pub struct Instance {
    pub left: i64,
    pub top: i64,
    pub right: i64,
    pub bottom: i64,
    pub uv: Rect,
    pub color: Color,
    pub depth: u32,
}

/// A frame's draw request: glyphs with the screen bounds they are clipped
/// to and a depth value (the bits of the single-precision depth handed to
/// the GPU), copied to each of their instances.
#[derive(Clone, Debug)]
pub struct Section {
    pub bounds: Rect,
    pub glyphs: Vec<LayoutGlyph>,
    pub z: u32,
}

/// The quad lies wholly outside the bounds (touching an edge is inside).
pub open spec fn outside(s: Rect, b: Rect) -> bool {
    s.min_x > b.max_x || s.min_y > b.max_y || b.min_x > s.max_x || b.min_y > s.max_y
}

/// A texture span of `span` cut back in proportion, when a quad edge of
/// `whole` pixels keeps `kept` of them.
pub open spec fn cut(span: int, kept: int, whole: int) -> int {
    span * kept / whole
}

pub open spec fn clip_right(s: Rect, u: Rect, b: Rect) -> (Rect, Rect) {
    if s.max_x > b.max_x {
        (
            Rect { max_x: b.max_x, ..s },
            Rect {
                max_x: (u.min_x + cut(u.max_x - u.min_x, b.max_x - s.min_x, s.max_x - s.min_x)) as i64,
                ..u
            },
        )
    } else {
        (s, u)
    }
}

pub open spec fn clip_left(s: Rect, u: Rect, b: Rect) -> (Rect, Rect) {
    if s.min_x < b.min_x {
        (
            Rect { min_x: b.min_x, ..s },
            Rect {
                min_x: (u.max_x - cut(u.max_x - u.min_x, s.max_x - b.min_x, s.max_x - s.min_x)) as i64,
                ..u
            },
        )
    } else {
        (s, u)
    }
}

pub open spec fn clip_bottom(s: Rect, u: Rect, b: Rect) -> (Rect, Rect) {
    if s.max_y > b.max_y {
        (
            Rect { max_y: b.max_y, ..s },
            Rect {
                max_y: (u.min_y + cut(u.max_y - u.min_y, b.max_y - s.min_y, s.max_y - s.min_y)) as i64,
                ..u
            },
        )
    } else {
        (s, u)
    }
}

pub open spec fn clip_top(s: Rect, u: Rect, b: Rect) -> (Rect, Rect) {
    if s.min_y < b.min_y {
        (
            Rect { min_y: b.min_y, ..s },
            Rect {
                min_y: (u.max_y - cut(u.max_y - u.min_y, s.max_y - b.min_y, s.max_y - s.min_y)) as i64,
                ..u
            },
        )
    } else {
        (s, u)
    }
}

/// The quad clipped to the bounds, right, left, bottom and top edge in
/// turn, with its texture rectangle cut back in proportion on each edge
/// that was clipped.
pub open spec fn clipped(q: AtlasQuad, b: Rect) -> (Rect, Rect) {
    let (s1, u1) = clip_right(q.screen, q.uv, b);
    let (s2, u2) = clip_left(s1, u1, b);
    let (s3, u3) = clip_bottom(s2, u2, b);
    clip_top(s3, u3, b)
}

pub open spec fn make_instance(s: Rect, u: Rect, color: Color, z: u32, width: u32, height: u32) -> Instance {
    Instance {
        left: (2 * s.min_x - width) as i64,
        top: (height - 2 * s.min_y) as i64,
        right: (2 * s.max_x - width) as i64,
        bottom: (height - 2 * s.max_y) as i64,
        uv: u,
        color,
        depth: z,
    }
}

/// The instance of one glyph: none when the atlas does not hold it or when
/// it lies wholly outside the bounds.
pub open spec fn vertex_spec(quad: Option<AtlasQuad>, color: Color, b: Rect, z: u32, width: u32, height: u32) -> Option<Instance> {
    match quad {
        None => None,
        Some(q) => if outside(q.screen, b) {
            None
        } else {
            let (s, u) = clipped(q, b);
            Some(make_instance(s, u, color, z, width, height))
        },
    }
}

pub open spec fn inside_clip(s: Rect, u: Rect, b: Rect, s0: Rect) -> bool {
    &&& rect_wf(s) && rect_wf(u)
    &&& s0.min_x <= s.min_x && s.max_x <= s0.max_x
    &&& s0.min_y <= s.min_y && s.max_y <= s0.max_y
    &&& -COORD_LIMIT <= u.min_x && u.max_x <= COORD_LIMIT
    &&& -COORD_LIMIT <= u.min_y && u.max_y <= COORD_LIMIT
    &&& !outside(s, b)
}

proof fn lemma_shrink_bounds(span: int, kept: int, whole: int)
    requires
        0 <= span,
        0 <= kept <= whole,
        whole > 0,
    ensures
        0 <= span * kept / whole <= span,
{
    assert(0 <= span * kept <= span * whole) by (nonlinear_arith)
        requires 0 <= span, 0 <= kept <= whole;
    assert(span * kept / whole <= span * whole / whole) by (nonlinear_arith)
        requires 0 <= span * kept <= span * whole, whole > 0;
    assert(span * whole / whole == span) by (nonlinear_arith)
        requires whole > 0;
    assert(0 <= span * kept / whole) by (nonlinear_arith)
        requires 0 <= span * kept, whole > 0;
}

/// `span * kept / whole`, for the cut-back length of a clipped edge.
fn shrunk_span(span: i64, kept: i64, whole: i64) -> (r: i64)
    requires
        0 <= span <= 2 * COORD_LIMIT,
        0 <= kept <= whole <= 2 * COORD_LIMIT,
        whole > 0,
    ensures
        r == cut(span as int, kept as int, whole as int),
        0 <= r <= span,
{
    proof {
        lemma_shrink_bounds(span as int, kept as int, whole as int);
    }
    assert(0 <= (span as int) * (kept as int) <= 2 * COORD_LIMIT * (2 * COORD_LIMIT)) by (nonlinear_arith)
        requires 0 <= span <= 2 * COORD_LIMIT, 0 <= kept <= 2 * COORD_LIMIT;
    let a: i128 = span as i128;
    let k: i128 = kept as i128;
    assert(a <= 0x2_0000_0000 && k <= 0x2_0000_0000);
    assert(0 <= a * k <= 0x4_0000_0000_0000_0000) by (nonlinear_arith)
        requires 0 <= a <= 0x2_0000_0000, 0 <= k <= 0x2_0000_0000;
    let p: i128 = a * k;
    (p / (whole as i128)) as i64
}

/// The instance of one glyph for a screen of `width` by `height` pixels:
/// none when the atlas does not hold the glyph or it lies wholly outside
/// `bounds`; otherwise its quad clipped to `bounds`, with the texture
/// rectangle cut back in proportion on exactly the clipped edges.
pub fn vertex(quad: Option<AtlasQuad>, color: Color, bounds: Rect, z: u32, width: u32, height: u32) -> (r: Option<Instance>)
    requires
        rect_wf(bounds),
        quad matches Some(q) ==> quad_wf(q),
    ensures
        r == vertex_spec(quad, color, bounds, z, width, height),
{
    match quad {
        None => None,
        Some(q) => {
            let b = bounds;
            let s = q.screen;
            if s.min_x > b.max_x || s.min_y > b.max_y || b.min_x > s.max_x || b.min_y > s.max_y {
                return None;
            }
            let mut s = s;
            let mut u = q.uv;
            if s.max_x > b.max_x {
                let d = shrunk_span(u.max_x - u.min_x, b.max_x - s.min_x, s.max_x - s.min_x);
                u.max_x = u.min_x + d;
                s.max_x = b.max_x;
            }
            assert((s, u) == clip_right(q.screen, q.uv, b));
            let ghost (s1, u1) = (s, u);
            if s.min_x < b.min_x {
                let d = shrunk_span(u.max_x - u.min_x, s.max_x - b.min_x, s.max_x - s.min_x);
                u.min_x = u.max_x - d;
                s.min_x = b.min_x;
            }
            assert((s, u) == clip_left(s1, u1, b));
            let ghost (s2, u2) = (s, u);
            if s.max_y > b.max_y {
                let d = shrunk_span(u.max_y - u.min_y, b.max_y - s.min_y, s.max_y - s.min_y);
                u.max_y = u.min_y + d;
                s.max_y = b.max_y;
            }
            assert((s, u) == clip_bottom(s2, u2, b));
            let ghost (s3, u3) = (s, u);
            if s.min_y < b.min_y {
                let d = shrunk_span(u.max_y - u.min_y, s.max_y - b.min_y, s.max_y - s.min_y);
                u.min_y = u.max_y - d;
                s.min_y = b.min_y;
            }
            assert((s, u) == clip_top(s3, u3, b));
            Some(
                Instance {
                    left: 2 * s.min_x - width as i64,
                    top: height as i64 - 2 * s.min_y,
                    right: 2 * s.max_x - width as i64,
                    bottom: height as i64 - 2 * s.max_y,
                    uv: u,
                    color,
                    depth: z,
                },
            )
        },
    }
}

/// Clip-vertex correctness: a glyph wholly outside the bounds gives no
/// instance; any other gives one whose corners are its quad clipped to the
/// bounds, and whose texture rectangle is unchanged on every edge that was
/// not clipped, cut back in proportion on every edge that was, and never
/// larger than the atlas rectangle.
pub proof fn lemma_vertex_clipping(q: AtlasQuad, color: Color, b: Rect, z: u32, width: u32, height: u32)
    requires
        quad_wf(q),
        rect_wf(b),
    ensures
        outside(q.screen, b) ==> vertex_spec(Some(q), color, b, z, width, height) is None,
        !outside(q.screen, b) ==> ({
            let s = q.screen;
            let u = q.uv;
            let inst = vertex_spec(Some(q), color, b, z, width, height)->Some_0;
            let right = if s.max_x > b.max_x { b.max_x } else { s.max_x };
            let left = if s.min_x < b.min_x { b.min_x } else { s.min_x };
            let bottom = if s.max_y > b.max_y { b.max_y } else { s.max_y };
            let top = if s.min_y < b.min_y { b.min_y } else { s.min_y };
            &&& vertex_spec(Some(q), color, b, z, width, height) is Some
            &&& inst.left == 2 * left - width && inst.right == 2 * right - width
            &&& inst.top == height - 2 * top && inst.bottom == height - 2 * bottom
            &&& inst.color == color && inst.depth == z
            &&& u.min_x <= inst.uv.min_x <= inst.uv.max_x <= u.max_x
            &&& u.min_y <= inst.uv.min_y <= inst.uv.max_y <= u.max_y
            &&& s.max_x <= b.max_x ==> inst.uv.max_x == u.max_x
            &&& s.min_x >= b.min_x ==> inst.uv.min_x == u.min_x
            &&& s.max_y <= b.max_y ==> inst.uv.max_y == u.max_y
            &&& s.min_y >= b.min_y ==> inst.uv.min_y == u.min_y
            &&& s.max_x > b.max_x ==> inst.uv.max_x == u.min_x + cut(u.max_x - u.min_x, right - s.min_x, s.max_x - s.min_x)
            &&& s.min_x < b.min_x ==> inst.uv.min_x == inst.uv.max_x - cut(inst.uv.max_x - u.min_x, right - left, right - s.min_x)
            &&& s.max_y > b.max_y ==> inst.uv.max_y == u.min_y + cut(u.max_y - u.min_y, bottom - s.min_y, s.max_y - s.min_y)
            &&& s.min_y < b.min_y ==> inst.uv.min_y == inst.uv.max_y - cut(inst.uv.max_y - u.min_y, bottom - top, bottom - s.min_y)
        }),
{
    if !outside(q.screen, b) {
        let s = q.screen;
        let u = q.uv;
        let (s1, u1) = clip_right(s, u, b);
        let (s2, u2) = clip_left(s1, u1, b);
        let (s3, u3) = clip_bottom(s2, u2, b);
        if s.max_x > b.max_x {
            lemma_shrink_bounds(u.max_x - u.min_x, b.max_x - s.min_x, s.max_x - s.min_x);
        }
        if s1.min_x < b.min_x {
            lemma_shrink_bounds(u1.max_x - u1.min_x, s1.max_x - b.min_x, s1.max_x - s1.min_x);
        }
        if s2.max_y > b.max_y {
            lemma_shrink_bounds(u2.max_y - u2.min_y, b.max_y - s2.min_y, s2.max_y - s2.min_y);
        }
        if s3.min_y < b.min_y {
            lemma_shrink_bounds(u3.max_y - u3.min_y, s3.max_y - b.min_y, s3.max_y - s3.min_y);
        }
    }
}

/// Instances of the first `k` glyphs of a section, in order.
pub open spec fn section_instances(
    sec: Section,
    quads: Seq<Option<AtlasQuad>>,
    k: int,
    width: u32,
    height: u32,
) -> Seq<Instance>
    decreases k,
{
    if k <= 0 {
        Seq::empty()
    } else {
        let before = section_instances(sec, quads, k - 1, width, height);
        match vertex_spec(quads[k - 1], sec.glyphs@[k - 1].color, sec.bounds, sec.z, width, height) {
            Some(inst) => before.push(inst),
            None => before,
        }
    }
}

/// Instances of the first `n` sections, in submission order.
pub open spec fn batch_spec(
    sections: Seq<Section>,
    quads: Seq<Vec<Option<AtlasQuad>>>,
    n: int,
    width: u32,
    height: u32,
) -> Seq<Instance>
    decreases n,
{
    if n <= 0 {
        Seq::empty()
    } else {
        batch_spec(sections, quads, n - 1, width, height) + section_instances(
            sections[n - 1],
            quads[n - 1]@,
            sections[n - 1].glyphs@.len() as int,
            width,
            height,
        )
    }
}

/// The atlas quads line up with the sections' glyphs, and every section
/// and quad is a proper rectangle.
pub open spec fn batch_input_wf(sections: Seq<Section>, quads: Seq<Vec<Option<AtlasQuad>>>) -> bool {
    &&& sections.len() == quads.len()
    &&& forall|i: int|
        0 <= i < sections.len() ==> (#[trigger] quads[i])@.len() == sections[i].glyphs@.len()
            && rect_wf(sections[i].bounds)
    &&& forall|i: int, j: int|
        0 <= i < quads.len() && 0 <= j < quads[i]@.len() ==> (#[trigger] quads[i]@[j] matches Some(
            q,
        ) ==> quad_wf(q))
}

/// The frame's instances: for each section in turn and each of its glyphs
/// in order, the instance `vertex` gives, where it gives one. `quads[i][j]`
/// is where the atlas holds glyph `j` of section `i`, if it does.
pub fn batch(sections: &Vec<Section>, quads: &Vec<Vec<Option<AtlasQuad>>>, width: u32, height: u32) -> (r: Vec<Instance>)
    requires
        batch_input_wf(sections@, quads@),
    ensures
        r@ == batch_spec(sections@, quads@, sections@.len() as int, width, height),
{
    let mut out: Vec<Instance> = Vec::new();
    let mut i: usize = 0;
    while i < sections.len()
        invariant
            i <= sections.len(),
            batch_input_wf(sections@, quads@),
            out@ == batch_spec(sections@, quads@, i as int, width, height),
        decreases sections.len() - i,
    {
        let sec = &sections[i];
        let qs = &quads[i];
        assert(qs@.len() == sec.glyphs@.len());
        let ghost before = out@;
        let mut j: usize = 0;
        while j < sec.glyphs.len()
            invariant
                i < sections.len(),
                j <= sec.glyphs.len(),
                sec == sections@[i as int],
                qs == quads@[i as int],
                batch_input_wf(sections@, quads@),
                out@ == before + section_instances(*sec, qs@, j as int, width, height),
            decreases sec.glyphs.len() - j,
        {
            assert(quads@[i as int]@[j as int] matches Some(q) ==> quad_wf(q));
            let v = vertex(qs[j], sec.glyphs[j].color, sec.bounds, sec.z, width, height);
            match v {
                Some(inst) => {
                    out.push(inst);
                    assert(out@ =~= before + section_instances(*sec, qs@, j as int + 1, width, height));
                },
                None => {},
            }
            j = j + 1;
        }
        i = i + 1;
    }
    out
}

} // verus!
