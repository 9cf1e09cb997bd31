//! Painting of shaped and wrapped text lines.
//!
//! A shaped line (glyphs with positions) plus its decoration runs (color and
//! optional underline per character range) is turned into an ordered list of
//! paint operations: one per visible glyph and one per underline segment.
//! Coordinates are integers in a fixed device unit.
pub mod geometry;
pub mod layout;
pub mod paint;
pub mod session;
pub mod line;
pub mod laws;
