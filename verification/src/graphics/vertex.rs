//! Points, colours and the coloured vertices handed to the renderer.

use crate::units::{clamp_coord, clamp_coord_i128, coord_ok};
use vstd::prelude::*;

verus! {

/// A position in world space, in ticks.
#[derive(Clone, Copy, Debug, PartialEq, Eq, Structural)]
pub struct Point {
    pub x: i64,
    pub y: i64,
}

impl Point {
    /// Both coordinates are storable.
    pub open spec fn in_range(self) -> bool {
        coord_ok(self.x as int) && coord_ok(self.y as int)
    }

    /// The storable point nearest to `(x, y)`.
    pub open spec fn clamped(x: int, y: int) -> Point {
        Point { x: clamp_coord(x) as i64, y: clamp_coord(y) as i64 }
    }

    /// This point translated by `(dx, dy)` and brought back into range.
    pub open spec fn shifted(self, dx: int, dy: int) -> Point {
        Point::clamped(self.x + dx, self.y + dy)
    }

    /// The point `(x, y)`.
    pub fn new(x: i64, y: i64) -> (p: Point)
        ensures
            p == (Point { x, y }),
    {
        Point { x, y }
    }

    /// The storable point nearest to `(x, y)`.
    pub fn clamp_from(x: i128, y: i128) -> (p: Point)
        ensures
            p == Point::clamped(x as int, y as int),
            p.in_range(),
    {
        Point { x: clamp_coord_i128(x), y: clamp_coord_i128(y) }
    }
}

/// A presentation colour, one byte per channel.
#[derive(Clone, Copy, Debug, PartialEq, Eq, Structural)]
pub struct Color {
    pub r: u8,
    pub g: u8,
    pub b: u8,
}

impl Color {
    /// Red.
    pub open spec fn spec_red() -> Color {
        Color { r: 255, g: 0, b: 0 }
    }

    /// Black.
    pub open spec fn spec_black() -> Color {
        Color { r: 0, g: 0, b: 0 }
    }

    /// White.
    pub open spec fn spec_white() -> Color {
        Color { r: 255, g: 255, b: 255 }
    }

    /// The colour of a selected entity.
    #[verifier::when_used_as_spec(spec_red)]
    pub fn red() -> (c: Color)
        ensures
            c == Color::spec_red(),
    {
        Color { r: 255, g: 0, b: 0 }
    }

    /// The foreground of the light colour scheme.
    #[verifier::when_used_as_spec(spec_black)]
    pub fn black() -> (c: Color)
        ensures
            c == Color::spec_black(),
    {
        Color { r: 0, g: 0, b: 0 }
    }

    /// The foreground of the other colour schemes.
    #[verifier::when_used_as_spec(spec_white)]
    pub fn white() -> (c: Color)
        ensures
            c == Color::spec_white(),
    {
        Color { r: 255, g: 255, b: 255 }
    }
}

/// A world position with the colour it is painted in.
#[derive(Clone, Copy, Debug, PartialEq, Eq, Structural)]
pub struct Vertex {
    pub position: Point,
    pub color: Color,
}

} // verus!
