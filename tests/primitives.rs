use gfx_glyph::document::{color, font_id, is_indented, size_percent};
use gfx_glyph::metrics::{advance, kerning, sat_add, scale_units};
use gfx_glyph::text::{drawn_char, is_space};
use gfx_glyph::{BlockClass, Color, FontMetrics, SpanClass};

#[test]
fn white_space_matches_std() {
    for u in 0u32..0x3100 {
        if let Some(c) = char::from_u32(u) {
            assert_eq!(is_space(c), c.is_whitespace(), "{:x}", u);
        }
    }
    assert_eq!(drawn_char('\n'), ' ');
    assert_eq!(drawn_char('x'), 'x');
}

#[test]
fn styles_map_to_fonts_and_colours() {
    assert_eq!(font_id(SpanClass::Regular), 0);
    assert_eq!(font_id(SpanClass::BoldLink), 1);
    assert_eq!(font_id(SpanClass::BoldItalic), 2);
    assert_eq!(font_id(SpanClass::ItalicLink), 3);
    assert_eq!(font_id(SpanClass::Code), 4);
    assert_eq!(color(SpanClass::Code), Color { r: 51, g: 51, b: 51, a: 255 });
    assert_eq!(color(SpanClass::Italic), Color { r: 0, g: 0, b: 0, a: 255 });
    assert_eq!(size_percent(BlockClass::Heading3), 117);
    assert_eq!(size_percent(BlockClass::Preformatted), 100);
    assert!(is_indented(BlockClass::Preformatted));
    assert!(!is_indented(BlockClass::Heading1));
}

#[test]
fn metrics_lookups_take_the_first_entry() {
    let m = FontMetrics {
        units_per_em: 2048,
        ascent: 1900,
        descent: -500,
        line_gap: 0,
        default_advance: 1000,
        advances: vec![('a', 1100), ('a', 7)],
        kerning: vec![('T', 'o', -150), ('T', 'o', 3)],
    };
    assert_eq!(advance(&m, 'a'), 1100);
    assert_eq!(advance(&m, 'z'), 1000);
    assert_eq!(kerning(&m, 'T', 'o'), -150);
    assert_eq!(kerning(&m, 'o', 'T'), 0);
}

#[test]
fn scaling_rounds_toward_zero() {
    assert_eq!(scale_units(1100, 18, 2048), 9);
    assert_eq!(scale_units(-150, 18, 2048), -1);
    assert_eq!(scale_units(0, 18, 2048), 0);
    assert_eq!(scale_units(65535, 1 << 40, 1), 65535 << 40);
}

#[test]
fn saturating_addition() {
    assert_eq!(sat_add(2, 3), 5);
    assert_eq!(sat_add(i64::MAX, 1), i64::MAX);
    assert_eq!(sat_add(i64::MIN, -1), i64::MIN);
    assert_eq!(sat_add(i64::MAX, i64::MIN), -1);
}
