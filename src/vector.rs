//! Fixed-point planar vectors and clamping.

use vstd::prelude::*;

verus! {

/// A planar vector in fixed point: each component counts thousandths of its unit.
#[derive(PartialEq, Eq, Structural, Clone, Copy, Debug)]
pub struct Vec2 {
    pub x: i64,
    pub y: i64,
}

/// The value `v` limited to the interval `[-bound, bound]` (`bound` is non-negative).
pub open spec fn clamp_spec(v: int, bound: int) -> int {
    if v > bound {
        bound
    } else if v < -bound {
        -bound
    } else {
        v
    }
}

/// Limits `v` to `[-bound, bound]`.
pub fn clamp_scalar(v: i64, bound: i64) -> (r: i64)
    requires
        bound >= 0,
    ensures
        r == clamp_spec(v as int, bound as int),
        -bound <= r <= bound,
{
    if v > bound {
        bound
    } else if v < -bound {
        -bound
    } else {
        v
    }
}

impl Vec2 {
    pub fn new(x: i64, y: i64) -> (r: Vec2)
        ensures
            r.x == x,
            r.y == y,
    {
        Vec2 { x, y }
    }

    pub fn zero() -> (r: Vec2)
        ensures
            r.x == 0,
            r.y == 0,
    {
        Vec2 { x: 0, y: 0 }
    }

    /// Whether both components lie within the matching component of `bound`.
    pub open spec fn within(self, bound: Vec2) -> bool {
        -bound.x <= self.x <= bound.x && -bound.y <= self.y <= bound.y
    }

    /// Each component limited to `[-bound, bound]` of the matching component of `bound`.
    pub open spec fn clamped_spec(self, bound: Vec2) -> Vec2 {
        Vec2 {
            x: clamp_spec(self.x as int, bound.x as int) as i64,
            y: clamp_spec(self.y as int, bound.y as int) as i64,
        }
    }

    /// Limits each component to the box `[-bound, bound]`.
    pub fn clamped(self, bound: Vec2) -> (r: Vec2)
        requires
            bound.x >= 0,
            bound.y >= 0,
        ensures
            r == self.clamped_spec(bound),
            r.within(bound),
    {
        Vec2 { x: clamp_scalar(self.x, bound.x), y: clamp_scalar(self.y, bound.y) }
    }
}

} // verus!
