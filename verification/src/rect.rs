//! Rectangles in backend pixels.

use vstd::prelude::*;

verus! {

/// An axis-aligned rectangle in pixels: its top-left corner and its size.
///
/// A rectangle of width or height zero is a rectangle like any other: as a
/// clip region it lets nothing through.
#[derive(Clone, Copy, Debug, PartialEq, Eq, Structural)]
pub struct PixelRect {
    pub x: i32,
    pub y: i32,
    pub width: u32,
    pub height: u32,
}

} // verus!
