use gfx_glyph::atlas::MAX_TEXTURE_SIDE;
use gfx_glyph::{
    after_commit, batch, grow, grown_size, vertex, AtlasQuad, AtlasStep, Color, DrawCache, DrawError,
    Instance, LayoutGlyph, Rect, Section, TargetFormats,
};
use rusttype::gpu_cache::Cache;

fn rect(min_x: i64, min_y: i64, max_x: i64, max_y: i64) -> Rect {
    Rect { min_x, min_y, max_x, max_y }
}

const BLACK: Color = Color { r: 0, g: 0, b: 0, a: 255 };

fn quad() -> AtlasQuad {
    AtlasQuad { screen: rect(10, 10, 20, 30), uv: rect(0, 0, 100, 200) }
}

#[test]
fn glyph_outside_bounds_gives_no_instance() {
    assert_eq!(vertex(Some(quad()), BLACK, rect(21, 0, 50, 50), 0, 100, 100), None);
    assert_eq!(vertex(Some(quad()), BLACK, rect(0, 31, 50, 50), 0, 100, 100), None);
    assert_eq!(vertex(Some(quad()), BLACK, rect(0, 0, 9, 50), 0, 100, 100), None);
    assert_eq!(vertex(None, BLACK, rect(0, 0, 100, 100), 0, 100, 100), None);
}

#[test]
fn glyph_inside_bounds_keeps_its_quad() {
    let i = vertex(Some(quad()), BLACK, rect(0, 0, 100, 100), 7, 100, 50).unwrap();
    assert_eq!(
        i,
        Instance { left: -80, top: 30, right: -60, bottom: -10, uv: rect(0, 0, 100, 200), color: BLACK, depth: 7 }
    );
}

#[test]
fn partly_outside_glyph_shrinks_uv_on_clipped_edges_only() {
    // right half clipped
    let i = vertex(Some(quad()), BLACK, rect(0, 0, 15, 100), 0, 100, 100).unwrap();
    assert_eq!(i.uv, rect(0, 0, 50, 200));
    assert_eq!(i.right, 2 * 15 - 100);
    assert_eq!(i.left, 2 * 10 - 100);
    // left 3 of 10 clipped
    let i = vertex(Some(quad()), BLACK, rect(13, 0, 100, 100), 0, 100, 100).unwrap();
    assert_eq!(i.uv, rect(30, 0, 100, 200));
    // top and bottom clipped: [10, 30) -> [15, 25)
    let i = vertex(Some(quad()), BLACK, rect(0, 15, 100, 25), 0, 100, 100).unwrap();
    assert_eq!(i.uv, rect(0, 50, 100, 150));
    assert_eq!((i.top, i.bottom), (100 - 30, 100 - 50));
}

#[test]
fn touching_bounds_is_inside() {
    let i = vertex(Some(quad()), BLACK, rect(20, 0, 40, 40), 0, 100, 100).unwrap();
    assert_eq!(i.uv, rect(100, 0, 100, 200));
}

fn glyph(c: char) -> LayoutGlyph {
    LayoutGlyph { color: BLACK, font_id: 0, character: c, size: 18, x: 0, y: 0 }
}

#[test]
fn batch_keeps_section_and_glyph_order() {
    let s1 = Section { bounds: rect(0, 0, 100, 100), glyphs: vec![glyph('a'), glyph('b'), glyph('c')], z: 1 };
    let s2 = Section { bounds: rect(0, 0, 15, 100), glyphs: vec![glyph('d')], z: 2 };
    let q = |x: i64| Some(AtlasQuad { screen: rect(x, 0, x + 10, 10), uv: rect(x, 0, x + 10, 10) });
    let quads = vec![vec![q(0), None, q(200)], vec![q(10)]];
    let out = batch(&vec![s1, s2], &quads, 100, 100);
    assert_eq!(out.len(), 2);
    assert_eq!(out[0].depth, 1);
    assert_eq!(out[0].uv, rect(0, 0, 10, 10));
    assert_eq!(out[1].depth, 2);
    assert_eq!(out[1].uv, rect(10, 0, 15, 10));
    assert!(batch(&vec![], &vec![], 10, 10).is_empty());
}

#[test]
fn full_atlas_asks_for_doubled_texture_and_grows() {
    let mut cache = Cache::builder().dimensions(256, 256).build();
    let mut draw = DrawCache::new();
    assert_eq!(after_commit(&cache, true), AtlasStep::Ready);
    let step = after_commit(&cache, false);
    assert_eq!(step, AtlasStep::Allocate { width: 512, height: 512 });
    assert_eq!(grow(&mut cache, &mut draw, true, 512, 512), Ok(()));
    assert_eq!(cache.dimensions(), (512, 512));
    assert_eq!(after_commit(&cache, false), AtlasStep::Allocate { width: 1024, height: 1024 });
}

#[test]
fn failed_texture_allocation_fails_the_draw() {
    let mut cache = Cache::builder().dimensions(256, 128).build();
    let mut draw = DrawCache::new();
    let r = grow(&mut cache, &mut draw, false, 512, 256);
    assert_eq!(r, Err(DrawError::TextureAllocation { width: 512, height: 256 }));
    assert_eq!(cache.dimensions(), (256, 128));
}

#[test]
fn atlas_stops_growing_at_largest_texture() {
    let cache = Cache::builder().dimensions(40000, 256).build();
    assert_eq!(
        after_commit(&cache, false),
        AtlasStep::Fail(DrawError::AtlasTooLarge { width: 40000, height: 256 })
    );
    assert_eq!(grown_size((32767, 1)), Some((65534, 2)));
    assert_eq!(grown_size((32768, 1)), None);
    assert_eq!(MAX_TEXTURE_SIDE, 65535);
}

#[test]
fn draw_cache_rebuilds_only_what_changed() {
    let mut dc = DrawCache::new();
    let f = TargetFormats { color: 1, depth: 2 };
    let p = dc.plan(f, 5);
    assert!(p.create && p.rebuild_pipeline && !p.rebind_texture);
    assert_eq!(p.instances, 5);
    let p = dc.plan(f, 7);
    assert!(!p.create && !p.rebuild_pipeline && !p.rebind_texture);
    assert_eq!(p.instances, 7);
    let p = dc.plan(TargetFormats { color: 1, depth: 3 }, 7);
    assert!(p.rebuild_pipeline && !p.rebind_texture);
    dc.texture_rebuilt();
    let p = dc.plan(TargetFormats { color: 1, depth: 3 }, 7);
    assert!(!p.rebuild_pipeline && p.rebind_texture);
    let p = dc.plan(TargetFormats { color: 1, depth: 3 }, 7);
    assert!(!p.rebind_texture);
}

#[test]
fn growth_marks_existing_draw_state_stale() {
    let mut cache = Cache::builder().dimensions(64, 64).build();
    let mut draw = DrawCache::new();
    let f = TargetFormats { color: 0, depth: 0 };
    draw.plan(f, 1);
    grow(&mut cache, &mut draw, true, 128, 128).unwrap();
    assert!(draw.plan(f, 1).rebind_texture);
}
