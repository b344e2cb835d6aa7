//! Plane vectors with fixed-point integer coordinates.

use vstd::prelude::*;

verus! {

/// A two-dimensional vector with fixed-point integer coordinates.
///
/// The unit is chosen by the caller: a coordinate of `n` stands for `n`
/// times the caller's unit length. One type serves for positions (rectangle
/// centers), extents (rectangle sizes) and displacements.
#[derive(Clone, Copy, Debug, PartialEq, Eq, Structural)]
pub struct Vec2 {
    pub x: i64,
    pub y: i64,
}

/// The mathematical value of a [`Vec2`]: the same two coordinates as
/// unbounded integers, used by all specifications.
pub ghost struct Vec2V {
    pub x: int,
    pub y: int,
}

impl View for Vec2 {
    type V = Vec2V;

    open spec fn view(&self) -> Vec2V {
        Vec2V { x: self.x as int, y: self.y as int }
    }
}

impl Vec2 {
    pub fn new(x: i64, y: i64) -> (r: Vec2)
        ensures
            r@ == (Vec2V { x: x as int, y: y as int }),
    {
        Vec2 { x, y }
    }
}

/// The magnitude (absolute value) of a coordinate.
pub open spec fn mag(x: int) -> int {
    if x < 0 {
        -x
    } else {
        x
    }
}

} // verus!
