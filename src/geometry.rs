use vstd::prelude::*;

verus! {

/// A length or coordinate of the text layout, in device units.
pub type Pixels = i32;

/// A point of the text layout.
#[derive(Clone, Copy, Debug, PartialEq, Eq, Structural)]
pub struct Point {
    pub x: Pixels,
    pub y: Pixels,
}

/// A position on the painted surface. It is wider than [`Point`] because
/// wrapped rows stack below the line's origin.
#[derive(Clone, Copy, Debug, PartialEq, Eq, Structural)]
pub struct PaintPoint {
    pub x: i64,
    pub y: i64,
}

#[derive(Clone, Copy, Debug, PartialEq, Eq, Structural)]
pub struct Size {
    pub width: Pixels,
    pub height: Pixels,
}

/// An axis-aligned rectangle of the layout (a clip region).
#[derive(Clone, Copy, Debug, PartialEq, Eq, Structural)]
pub struct Bounds {
    pub origin: Point,
    pub size: Size,
}

/// A color as hue, saturation, lightness and alpha, each in thousandths of
/// its full range.
#[derive(Clone, Copy, Debug, PartialEq, Eq, Structural)]
pub struct Hsla {
    pub h: u32,
    pub s: u32,
    pub l: u32,
    pub a: u32,
}

/// The value of a color channel at its full extent.
pub const CHANNEL_FULL: u32 = 1000;

pub open spec fn black_spec() -> Hsla {
    Hsla { h: 0, s: 0, l: 0, a: CHANNEL_FULL }
}

/// Opaque black, the color of text before any decoration run applies.
pub fn black() -> (r: Hsla)
    ensures
        r == black_spec(),
{
    Hsla { h: 0, s: 0, l: 0, a: CHANNEL_FULL }
}

/// Whether a box at `(x, y)` of size `size` overlaps `mask`: the two
/// rectangles share a point strictly inside both.
pub open spec fn box_intersects(x: int, y: int, size: Size, mask: Bounds) -> bool {
    &&& x < mask.origin.x + mask.size.width
    &&& x + size.width > mask.origin.x
    &&& y < mask.origin.y + mask.size.height
    &&& y + size.height > mask.origin.y
}

/// Executable form of [`box_intersects`].
pub fn intersects(origin: PaintPoint, size: Size, mask: Bounds) -> (r: bool)
    requires
        i64::MIN <= origin.x + size.width <= i64::MAX,
        i64::MIN <= origin.y + size.height <= i64::MAX,
    ensures
        r == box_intersects(origin.x as int, origin.y as int, size, mask),
{
    let mask_right = mask.origin.x as i64 + mask.size.width as i64;
    let mask_bottom = mask.origin.y as i64 + mask.size.height as i64;
    origin.x < mask_right && origin.x + size.width as i64 > mask.origin.x as i64
        && origin.y < mask_bottom && origin.y + size.height as i64 > mask.origin.y as i64
}

} // verus!
