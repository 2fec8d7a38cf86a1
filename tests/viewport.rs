use gfx_glyph::{layout, Block, BlockClass, Display, FontMetrics, LayoutGlyph, Span, SpanClass};

fn fonts() -> Vec<FontMetrics> {
    let f = FontMetrics {
        units_per_em: 1000,
        ascent: 800,
        descent: -200,
        line_gap: 0,
        default_advance: 500,
        advances: vec![],
        kerning: vec![],
    };
    vec![f.clone(), f.clone(), f.clone(), f.clone(), f]
}

/// Ten one-line paragraphs: line i spans [10 + 31 i, 27 + 31 i) and holds 2 glyphs.
fn ten_lines() -> Display {
    let blocks: Vec<Block> = (0..10)
        .map(|i| Block::Flowing {
            class: BlockClass::Paragraph,
            content: vec![Span::Text { class: SpanClass::Regular, text: format!("{:02}", i) }],
        })
        .collect();
    layout(&blocks, &fonts(), 0, 10, 1)
}

#[test]
fn clip_selects_lines_overlapping_the_viewport() {
    let d = ten_lines();
    assert_eq!(d.lines()[1].top, 41);
    assert_eq!(d.visible_lines(0, 50), (0, 2));
    assert_eq!(d.clip_range(0, 50), (0, 4));
    let texts: String = d.clip(0, 50).iter().map(|g| g.character).collect();
    assert_eq!(texts, "0001");
}

#[test]
fn clip_bounds_are_exclusive_at_both_ends() {
    let d = ten_lines();
    // line 1 is [41, 58): a viewport ending at 41 or starting at 58 misses it
    assert_eq!(d.visible_lines(27, 41), (1, 1));
    assert_eq!(d.clip(27, 41).len(), 0);
    assert_eq!(d.visible_lines(58, 72), (2, 2));
    assert_eq!(d.visible_lines(57, 42), (1, 2));
}

#[test]
fn clip_outside_the_document_is_empty() {
    let d = ten_lines();
    assert_eq!(d.clip_range(1000, 2000), (0, 0));
    assert_eq!(d.clip_range(-100, 0), (0, 0));
    assert!(d.clip(-100, 5).is_empty());
}

#[test]
fn clip_of_everything_is_every_glyph() {
    let d = ten_lines();
    assert_eq!(d.visible_lines(i64::MIN, i64::MAX), (0, 10));
    assert_eq!(d.clip(i64::MIN, i64::MAX).len(), d.glyphs().len());
}

#[test]
fn clip_twice_gives_the_same_glyphs() {
    let d = ten_lines();
    let a: Vec<LayoutGlyph> = d.clip(30, 150).to_vec();
    let b: Vec<LayoutGlyph> = d.clip(30, 150).to_vec();
    assert_eq!(a, b);
    assert_eq!(d.clip_range(30, 150), d.clip_range(30, 150));
}

#[test]
fn viewport_shorter_than_content_is_a_strict_subset() {
    let d = ten_lines();
    let h = 100;
    assert!(d.bound_y_max() > h);
    let (s, e) = d.visible_lines(0, h);
    assert_eq!((s, e), (0, 3));
    assert!(e - s < d.lines().len());
    for (i, l) in d.lines().iter().enumerate() {
        let overlaps = l.top < h && l.bottom > 0;
        assert_eq!(overlaps, s <= i && i < e);
    }
}

#[test]
fn clip_on_empty_display() {
    let d = layout(&vec![], &fonts(), 0, 0, 1);
    assert_eq!(d.visible_lines(0, 100), (0, 0));
    assert!(d.clip(0, 100).is_empty());
}

#[test]
fn bound_y_max_is_last_line_bottom() {
    let d = ten_lines();
    assert_eq!(d.bound_y_max(), 10 + 31 * 9 + 17);
}

#[test]
fn translated_moves_and_saturates() {
    let d = ten_lines();
    let g = d.glyphs()[0];
    let t = g.translated(5, -20);
    assert_eq!((t.x, t.y), (g.x + 5, g.y - 20));
    assert_eq!(t.character, g.character);
    let far = g.translated(i64::MAX, i64::MIN);
    assert_eq!((far.x, far.y), (i64::MAX, i64::MIN + g.y));
    assert_eq!(far.translated(0, i64::MIN).y, i64::MIN);
}
