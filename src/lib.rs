//! Lays out structured text into positioned glyphs, finds the glyphs inside a
//! scrolled viewport, clips glyph quads against section bounds and keeps the
//! state that lets a glyph atlas grow and a draw be reused across frames.
use vstd::prelude::*;

pub mod atlas;
pub mod batch;
pub mod display;
pub mod document;
pub mod draw_cache;
pub mod layout;
pub mod metrics;
pub mod text;

pub use atlas::{after_commit, grow, grown_size, AtlasStep, DrawError};
pub use batch::{batch, vertex, AtlasQuad, Instance, Rect, Section};
pub use display::{Display, LayoutGlyph, Line};
pub use document::{Block, BlockClass, Color, Span, SpanClass};
pub use draw_cache::{DrawCache, DrawPlan, TargetFormats};
pub use layout::{find_break, flatten, layout, trim_start, LineFormat, LineSplit, Piece};
pub use metrics::FontMetrics;

verus! {

} // verus!
