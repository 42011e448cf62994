//! Plain integer screen geometry.

use vstd::prelude::*;

verus! {

/// Coordinates are bounded so that every interpolation the scene
/// interpreter performs stays comfortably inside `i32`.
pub const COORD_BOUND: i32 = 32768;

/// A point on the screen, in pixels.
#[derive(Clone, Copy, Debug, PartialEq, Eq, Structural)]
pub struct Point {
    pub x: i32,
    pub y: i32,
}

impl Point {
    pub fn new(x: i32, y: i32) -> (pt: Point)
        ensures
            pt == (Point { x, y }),
    {
        Point { x, y }
    }

    pub fn x(&self) -> (r: i32)
        ensures
            r == self.x,
    {
        self.x
    }

    pub fn y(&self) -> (r: i32)
        ensures
            r == self.y,
    {
        self.y
    }

    /// True when both coordinates lie within the engine's coordinate bound.
    pub open spec fn in_bounds(self) -> bool {
        -COORD_BOUND <= self.x <= COORD_BOUND && -COORD_BOUND <= self.y <= COORD_BOUND
    }

    /// The point shifted by `(dx, dy)`.
    pub fn offset(self, dx: i32, dy: i32) -> (pt: Point)
        requires
            i32::MIN <= self.x + dx <= i32::MAX,
            i32::MIN <= self.y + dy <= i32::MAX,
        ensures
            pt == (Point { x: (self.x + dx) as i32, y: (self.y + dy) as i32 }),
    {
        Point { x: self.x + dx, y: self.y + dy }
    }
}

/// The smallest multiple of 16 that is at least `size`, as an unsigned
/// width or height.  Dialog boxes are tiled from 16-pixel sprites, so
/// their dimensions are rounded up to the tile size.
pub fn round_up_to_16(size: i32) -> (r: u32)
    requires
        0 <= size <= i32::MAX - 15,
    ensures
        r == size + (16 - size % 16) % 16,
        r % 16 == 0,
        size <= r < size + 16,
{
    let remainder = size % 16;
    if remainder != 0 {
        (size + (16 - remainder)) as u32
    } else {
        size as u32
    }
}

} // verus!
