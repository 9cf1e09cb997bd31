use vstd::prelude::*;
use crate::geometry::{Hsla, Pixels, Point};

verus! {

/// One shaped glyph.
#[derive(Clone, Copy, Debug, PartialEq, Eq, Structural)]
pub struct Glyph {
    /// The font's identifier of the glyph.
    pub id: u32,
    /// Offset of the glyph's first character in the line's text.
    pub index: usize,
    /// Offset of the glyph from the line's origin, before wrapping.
    pub position: Point,
    pub is_emoji: bool,
}

/// Consecutive glyphs shaped with one font.
#[derive(Clone, Debug)]
pub struct ShapedRun {
    pub font_id: u32,
    pub glyphs: Vec<Glyph>,
}

/// The immutable result of shaping one line of text.
#[derive(Clone, Debug)]
pub struct LineLayout {
    pub font_size: Pixels,
    pub width: Pixels,
    pub ascent: Pixels,
    pub descent: Pixels,
    pub runs: Vec<ShapedRun>,
    /// Number of characters of the line.
    pub len: usize,
}

/// The first glyph of a new visual row, as run index and glyph index.
#[derive(Clone, Copy, Debug, PartialEq, Eq, Structural)]
pub struct WrapBoundary {
    pub run_ix: usize,
    pub glyph_ix: usize,
}

/// A shaped line and the rows it was broken into.
#[derive(Clone, Debug)]
pub struct WrappedLineLayout {
    pub unwrapped_layout: LineLayout,
    pub wrap_boundaries: Vec<WrapBoundary>,
    pub wrap_width: Option<Pixels>,
}

impl WrappedLineLayout {
    /// Number of characters of the line.
    pub fn len(&self) -> (r: usize)
        ensures
            r == self.unwrapped_layout.len,
    {
        self.unwrapped_layout.len
    }
}

/// How an underline is drawn. A color of `None` takes the text's color.
#[derive(Clone, Copy, Debug, PartialEq, Eq, Structural)]
pub struct UnderlineStyle {
    pub color: Option<Hsla>,
    pub thickness: Pixels,
    pub wavy: bool,
}

/// Styling of `len` consecutive characters of a line.
#[derive(Clone, Copy, Debug, PartialEq, Eq, Structural)]
pub struct DecorationRun {
    pub len: u32,
    pub color: Hsla,
    pub underline: Option<UnderlineStyle>,
}

/// The style an underline opened by `run` is drawn with: its own color, or
/// the run's text color when it names none.
pub open spec fn resolved_underline(run: DecorationRun, style: UnderlineStyle) -> UnderlineStyle {
    UnderlineStyle {
        color: Some(
            match style.color {
                Some(c) => c,
                None => run.color,
            },
        ),
        thickness: style.thickness,
        wavy: style.wavy,
    }
}

pub fn resolve_underline(run: &DecorationRun, style: &UnderlineStyle) -> (r: UnderlineStyle)
    ensures
        r == resolved_underline(*run, *style),
{
    let color = match style.color {
        Some(c) => c,
        None => run.color,
    };
    UnderlineStyle { color: Some(color), thickness: style.thickness, wavy: style.wavy }
}

} // verus!
