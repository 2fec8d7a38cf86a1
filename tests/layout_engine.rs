use gfx_glyph::layout::{emit_line, COLUMN_WIDTH, INDENT, PARAGRAPH_SPACING};
use gfx_glyph::{
    find_break, flatten, layout, trim_start, Block, BlockClass, Color, FontMetrics, LayoutGlyph,
    LineFormat, Piece, Span, SpanClass,
};

fn font() -> FontMetrics {
    FontMetrics {
        units_per_em: 1000,
        ascent: 800,
        descent: -200,
        line_gap: 0,
        default_advance: 500,
        advances: vec![(' ', 250), ('W', 60000)],
        kerning: vec![('A', 'V', -100)],
    }
}

fn fonts() -> Vec<FontMetrics> {
    vec![font(), font(), font(), font(), font()]
}

fn text(class: SpanClass, s: &str) -> Span {
    Span::Text { class, text: s.to_string() }
}

fn paragraph(s: &str) -> Block {
    Block::Flowing { class: BlockClass::Paragraph, content: vec![text(SpanClass::Regular, s)] }
}

fn line_text(glyphs: &[LayoutGlyph]) -> String {
    glyphs.iter().map(|g| g.character).collect()
}

#[test]
fn two_paragraphs_give_two_lines_a_paragraph_apart() {
    let d = layout(&vec![paragraph("Hello world"), paragraph("Second paragraph")], &fonts(), 0, 10, 1);
    let lines = d.lines();
    assert_eq!(lines.len(), 2);
    // size 18: ascent 14, descent 3, gap 0 -> advance 17; spacing 14
    assert_eq!(lines[0].top, 10);
    assert_eq!(lines[0].bottom, 27);
    assert_eq!(lines[1].top, 10 + 17 + PARAGRAPH_SPACING);
    let g = d.glyphs();
    assert_eq!(g[0].y, 10 + 14);
    let second = g[lines[1].first];
    assert_eq!(second.y - g[0].y, PARAGRAPH_SPACING + 17);
    assert_eq!(line_text(&g[lines[0].first..lines[0].end]), "Hello world");
    assert_eq!(line_text(&g[lines[1].first..lines[1].end]), "Second paragraph");
}

#[test]
fn glyphs_advance_by_scaled_widths() {
    let d = layout(&vec![paragraph("ab c")], &fonts(), 100, 0, 1);
    let xs: Vec<i64> = d.glyphs().iter().map(|g| g.x).collect();
    // 'a' and 'b' advance 9, ' ' advances 4
    assert_eq!(xs, vec![100, 109, 118, 122]);
    assert!(d.glyphs().iter().all(|g| g.size == 18 && g.font_id == 0));
}

#[test]
fn kerning_applies_within_one_font_only() {
    let d = layout(&vec![paragraph("AV")], &fonts(), 0, 0, 1);
    // advance 9, kerning -100 * 18 / 1000 = -1
    assert_eq!(d.glyphs()[1].x, 8);
    let mixed = Block::Flowing {
        class: BlockClass::Paragraph,
        content: vec![text(SpanClass::Regular, "A"), text(SpanClass::Bold, "V")],
    };
    let d = layout(&vec![mixed], &fonts(), 0, 0, 1);
    assert_eq!(d.glyphs()[1].x, 9);
    assert_eq!(d.glyphs()[1].font_id, 1);
}

#[test]
fn long_word_breaks_with_glyphs_on_every_line() {
    let word = "a".repeat(100);
    let d = layout(&vec![paragraph(&word)], &fonts(), 0, 0, 1);
    let lines = d.lines();
    // 60 glyphs of 9 reach 540 exactly; the 61st overflows
    assert_eq!(lines.len(), 2);
    assert_eq!(lines[0].end - lines[0].first, 60);
    assert_eq!(lines[1].end - lines[1].first, 40);
    assert!(lines.iter().all(|l| l.end > l.first));
}

#[test]
fn glyph_wider_than_column_stands_alone() {
    let d = layout(&vec![paragraph("WWW")], &fonts(), 0, 0, 1);
    let lines = d.lines();
    assert_eq!(lines.len(), 3);
    assert!(lines.iter().all(|l| l.end - l.first == 1));
}

#[test]
fn wrapping_breaks_at_white_space_and_trims_it() {
    let words = vec!["abcd"; 40].join(" ");
    let d = layout(&vec![paragraph(&words)], &fonts(), 0, 0, 1);
    let lines = d.lines();
    assert!(lines.len() > 1);
    for l in lines.iter() {
        let t = line_text(&d.glyphs()[l.first..l.end]);
        assert!(!t.starts_with(' '));
        assert!(t.split(' ').all(|w| w == "abcd"), "{}", t);
    }
    let total: usize = lines.iter().map(|l| l.end - l.first).sum();
    assert_eq!(total, 40 * 4 + 40 - lines.len());
}

#[test]
fn line_break_span_ends_a_line() {
    let b = Block::Flowing {
        class: BlockClass::Paragraph,
        content: vec![text(SpanClass::Regular, "one"), Span::LineBreak, text(SpanClass::Regular, "  two")],
    };
    let d = layout(&vec![b], &fonts(), 0, 0, 1);
    let lines = d.lines();
    assert_eq!(lines.len(), 2);
    assert_eq!(line_text(&d.glyphs()[lines[1].first..lines[1].end]), "two");
}

#[test]
fn list_item_has_bullet_and_indent() {
    let b = Block::Flowing { class: BlockClass::ListItem, content: vec![text(SpanClass::Regular, "x")] };
    let d = layout(&vec![b], &fonts(), 0, 0, 1);
    let g = d.glyphs();
    assert_eq!(g.len(), 2);
    assert_eq!(g[0].character, '\u{2022}');
    assert_eq!(g[0].x, INDENT / 2);
    assert_eq!(g[1].x, INDENT);
}

#[test]
fn heading_is_larger_and_link_is_coloured() {
    let b = Block::Flowing { class: BlockClass::Heading1, content: vec![text(SpanClass::Link, "h")] };
    let d = layout(&vec![b], &fonts(), 0, 0, 1);
    let g = d.glyphs()[0];
    assert_eq!(g.size, 36);
    assert_eq!(g.color, Color { r: 25, g: 118, b: 210, a: 255 });
    // ascent 28, descent 7 at size 36
    assert_eq!(d.lines()[0].bottom, 35);
}

#[test]
fn image_becomes_a_placeholder_line() {
    let d = layout(&vec![Block::Image { source: "cat.png".to_string() }, paragraph("x")], &fonts(), 0, 0, 1);
    let lines = d.lines();
    assert_eq!(lines.len(), 2);
    assert_eq!(line_text(&d.glyphs()[lines[0].first..lines[0].end]), "Image: cat.png");
    assert_eq!(d.glyphs()[0].color, Color { r: 204, g: 0, b: 0, a: 255 });
    assert_eq!(lines[1].top, 17 + PARAGRAPH_SPACING);
}

#[test]
fn newline_in_text_is_drawn_as_space() {
    let d = layout(&vec![paragraph("a\nb")], &fonts(), 0, 0, 1);
    assert_eq!(line_text(d.glyphs()), "a b");
}

#[test]
fn empty_document_and_empty_paragraph() {
    let d = layout(&vec![], &fonts(), 0, 0, 1);
    assert_eq!(d.lines().len(), 0);
    assert_eq!(d.bound_y_max(), 0);
    let d = layout(&vec![Block::Flowing { class: BlockClass::Paragraph, content: vec![] }], &fonts(), 0, 5, 1);
    assert_eq!(d.lines().len(), 1);
    assert_eq!(d.bound_y_max(), 22);
}

#[test]
fn lines_ascend_without_overlap() {
    let words = vec!["word"; 300].join(" ");
    let blocks = vec![
        paragraph(&words),
        Block::Flowing { class: BlockClass::Heading6, content: vec![text(SpanClass::Italic, &words)] },
        Block::Image { source: "i".to_string() },
    ];
    let d = layout(&blocks, &fonts(), 0, 0, 3);
    let lines = d.lines();
    assert!(lines.len() > 3);
    for w in lines.windows(2) {
        assert!(w[0].top < w[1].top);
        assert!(w[0].bottom <= w[1].top);
        assert_eq!(w[0].end, w[1].first);
    }
    assert_eq!(lines.last().unwrap().end, d.glyphs().len());
}

#[test]
fn scale_multiplies_sizes_and_width() {
    let word = "a".repeat(100);
    let d = layout(&vec![paragraph(&word)], &fonts(), 0, 0, 4);
    assert_eq!(d.glyphs()[0].size, 72);
    // each glyph advances 36 against a width of 2160: still 60 per line
    assert_eq!(d.lines()[0].end, 60);
    assert_eq!(COLUMN_WIDTH * 4, 2160);
}

#[test]
fn flatten_keeps_order_and_styles() {
    let p = flatten(&vec![text(SpanClass::Code, "ab"), Span::LineBreak, text(SpanClass::Bold, "c")]);
    assert_eq!(p.len(), 4);
    assert!(matches!(p[0], Piece::Glyph { c: 'a', font: 4, .. }));
    assert!(matches!(p[2], Piece::Break));
    assert!(matches!(p[3], Piece::Glyph { c: 'c', font: 1, .. }));
}

#[test]
fn find_break_cases() {
    let f = fonts();
    let fmt = LineFormat { size: 18, margin: 0, width: 40 };
    // "ab cd ef": a b 9 each, space 4: pens 9 18 22 31 40 44 -> overflow at index 5 (' ')
    let p = flatten(&vec![text(SpanClass::Regular, "ab cd ef")]);
    let s = find_break(&p, &f, fmt, 0);
    assert_eq!((s.stop, s.end, s.resume), (5, 5, 5));
    assert_eq!(trim_start(&p, s.resume), 6);
    // no white space: break before the overflowing glyph
    let p = flatten(&vec![text(SpanClass::Regular, "abcdefg")]);
    let s = find_break(&p, &f, fmt, 0);
    assert_eq!((s.stop, s.end, s.resume), (4, 4, 4));
    // nothing overflows: the line runs to the end
    let s = find_break(&p, &f, fmt, 5);
    assert_eq!((s.stop, s.end, s.resume), (7, 7, 7));
    // forced break piece
    let p = flatten(&vec![text(SpanClass::Regular, "a"), Span::LineBreak, text(SpanClass::Regular, "b")]);
    let s = find_break(&p, &f, fmt, 0);
    assert_eq!((s.stop, s.end, s.resume), (1, 1, 2));
    // a glyph wider than the line on its own
    let p = flatten(&vec![text(SpanClass::Regular, "Wa")]);
    let s = find_break(&p, &f, fmt, 0);
    assert_eq!((s.stop, s.end, s.resume), (0, 1, 1));
    // white space at the line's first position is a break point too
    let p = flatten(&vec![text(SpanClass::Regular, " abcdef")]);
    let s = find_break(&p, &f, fmt, 0);
    assert_eq!((s.stop, s.end, s.resume), (5, 0, 0));
}

#[test]
fn trim_start_stops_at_break_and_text() {
    let p = flatten(&vec![text(SpanClass::Regular, "  "), Span::LineBreak, text(SpanClass::Regular, " x")]);
    assert_eq!(trim_start(&p, 0), 2);
    assert_eq!(trim_start(&p, 3), 4);
    assert_eq!(trim_start(&p, 5), 5);
}

#[test]
fn emit_line_places_glyphs_from_the_margin() {
    let f = fonts();
    let p = flatten(&vec![text(SpanClass::Regular, "AVa")]);
    let mut out = Vec::new();
    emit_line(&p, &f, LineFormat { size: 18, margin: 5, width: 1000 }, 0, 3, 100, 7, &mut out);
    let xs: Vec<i64> = out.iter().map(|g| g.x).collect();
    assert_eq!(xs, vec![105, 113, 122]);
    assert!(out.iter().all(|g| g.y == 7));
}

#[test]
fn largest_scale_and_far_origin_saturate_without_panic() {
    let blocks = vec![paragraph("many words on a line"), Block::Image { source: "x".to_string() }, paragraph("end")];
    let d = layout(&blocks, &fonts(), i64::MAX - 10, i64::MAX - 1000, u32::MAX);
    let lines = d.lines();
    assert!(lines.len() >= 3);
    for w in lines.windows(2) {
        assert!(w[0].bottom <= w[1].top);
        assert!(w[0].top < w[1].top || w[1].top == i64::MAX);
    }
    assert!(d.glyphs().iter().all(|g| g.x >= i64::MAX - 10));
    assert_eq!(d.glyphs()[1].x, i64::MAX);
    assert_eq!(d.glyphs()[0].size, 18 * u32::MAX as i64);
}
