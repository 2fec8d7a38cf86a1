//! Structured text content as handed over by a markup parser, and the
//! mapping from its classes to fonts, colours and sizes.
use vstd::prelude::*;

verus! {

/// An RGBA colour, one byte per channel.
#[derive(Clone, Copy, Debug, PartialEq, Eq, Structural)]
pub struct Color {
    pub r: u8,
    pub g: u8,
    pub b: u8,
    pub a: u8,
}

/// Plain text.
pub open spec fn regular_color() -> Color {
    Color { r: 0, g: 0, b: 0, a: 255 }
}

/// Link text.
pub open spec fn link_color() -> Color {
    Color { r: 25, g: 118, b: 210, a: 255 }
}

/// Code text.
pub open spec fn code_color() -> Color {
    Color { r: 51, g: 51, b: 51, a: 255 }
}

/// The label that stands in for an image.
pub open spec fn placeholder_color() -> Color {
    Color { r: 204, g: 0, b: 0, a: 255 }
}

/// Number of fonts the layout addresses: regular, bold, bold italic,
/// italic and monospace, by ids 0 to 4.
pub const FONT_COUNT: usize = 5;

#[derive(Clone, Copy, Debug, PartialEq, Eq, Structural)]
pub enum BlockClass {
    Heading1,
    Heading2,
    Heading3,
    Heading4,
    Heading5,
    Heading6,
    ListItem,
    Paragraph,
    Preformatted,
}

#[derive(Clone, Copy, Debug, PartialEq, Eq, Structural)]
pub enum SpanClass {
    Bold,
    BoldItalic,
    BoldItalicLink,
    BoldLink,
    Code,
    Italic,
    ItalicLink,
    Link,
    Regular,
}

#[derive(Clone, Debug)]
pub enum Span {
    LineBreak,
    Text { class: SpanClass, text: String },
}

#[derive(Clone, Debug)]
pub enum Block {
    Flowing { class: BlockClass, content: Vec<Span> },
    Image { source: String },
}

pub open spec fn font_id_spec(class: SpanClass) -> usize {
    match class {
        SpanClass::Bold | SpanClass::BoldLink => 1,
        SpanClass::BoldItalic | SpanClass::BoldItalicLink => 2,
        SpanClass::Code => 4,
        SpanClass::Italic | SpanClass::ItalicLink => 3,
        SpanClass::Link | SpanClass::Regular => 0,
    }
}

/// The font a span of the given class is drawn with.
pub fn font_id(class: SpanClass) -> (r: usize)
    ensures
        r == font_id_spec(class),
        r < FONT_COUNT,
{
    match class {
        SpanClass::Bold | SpanClass::BoldLink => 1,
        SpanClass::BoldItalic | SpanClass::BoldItalicLink => 2,
        SpanClass::Code => 4,
        SpanClass::Italic | SpanClass::ItalicLink => 3,
        SpanClass::Link | SpanClass::Regular => 0,
    }
}

pub open spec fn color_spec(class: SpanClass) -> Color {
    match class {
        SpanClass::Bold | SpanClass::BoldItalic | SpanClass::Italic | SpanClass::Regular => regular_color(),
        SpanClass::BoldLink | SpanClass::BoldItalicLink | SpanClass::ItalicLink | SpanClass::Link => link_color(),
        SpanClass::Code => code_color(),
    }
}

/// The colour a span of the given class is drawn in.
pub fn color(class: SpanClass) -> (r: Color)
    ensures
        r == color_spec(class),
{
    match class {
        SpanClass::Bold | SpanClass::BoldItalic | SpanClass::Italic | SpanClass::Regular => Color {
            r: 0,
            g: 0,
            b: 0,
            a: 255,
        },
        SpanClass::BoldLink | SpanClass::BoldItalicLink | SpanClass::ItalicLink | SpanClass::Link => Color {
            r: 25,
            g: 118,
            b: 210,
            a: 255,
        },
        SpanClass::Code => Color { r: 51, g: 51, b: 51, a: 255 },
    }
}

pub open spec fn size_percent_spec(class: BlockClass) -> i64 {
    match class {
        BlockClass::Heading1 => 200,
        BlockClass::Heading2 => 150,
        BlockClass::Heading3 => 117,
        BlockClass::Heading4 => 100,
        BlockClass::Heading5 => 83,
        BlockClass::Heading6 => 67,
        BlockClass::ListItem | BlockClass::Paragraph | BlockClass::Preformatted => 100,
    }
}

/// Text size of a block class, in percent of the regular size.
pub fn size_percent(class: BlockClass) -> (r: i64)
    ensures
        r == size_percent_spec(class),
        67 <= r <= 200,
{
    match class {
        BlockClass::Heading1 => 200,
        BlockClass::Heading2 => 150,
        BlockClass::Heading3 => 117,
        BlockClass::Heading4 => 100,
        BlockClass::Heading5 => 83,
        BlockClass::Heading6 => 67,
        BlockClass::ListItem | BlockClass::Paragraph | BlockClass::Preformatted => 100,
    }
}

pub open spec fn is_indented_spec(class: BlockClass) -> bool {
    class == BlockClass::ListItem || class == BlockClass::Preformatted
}

/// Whether a block's lines start one indent in from the left edge.
pub fn is_indented(class: BlockClass) -> (r: bool)
    ensures
        r == is_indented_spec(class),
{
    match class {
        BlockClass::ListItem | BlockClass::Preformatted => true,
        _ => false,
    }
}

} // verus!
