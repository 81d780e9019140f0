use vstd::prelude::*;

verus! {

/// A position on the playing field, in whole pixels.
#[derive(Clone, Copy, Debug, PartialEq, Eq, Structural)]
pub struct Point2 {
    pub x: i64,
    pub y: i64,
}

/// A displacement per tick, in whole pixels.
#[derive(Clone, Copy, Debug, PartialEq, Eq, Structural)]
pub struct Vector2 {
    pub x: i64,
    pub y: i64,
}

/// A ball's shape: a disc of the given radius.
#[derive(Clone, Copy, Debug, PartialEq, Eq, Structural)]
pub struct BallShape {
    pub radius: i64,
}

/// A paddle's shape: a box given by its half extents.
#[derive(Clone, Copy, Debug, PartialEq, Eq, Structural)]
pub struct Cuboid {
    pub half_extents: Vector2,
}

/// `value` held to the range of an `i64`: a coordinate that would leave it
/// stays at the bound that it reached.
pub open spec fn saturate(value: int) -> i64 {
    if value > i64::MAX {
        i64::MAX
    } else if value < i64::MIN {
        i64::MIN
    } else {
        value as i64
    }
}

/// `coord` moved by `delta`, held to the range of an `i64`.
pub fn shift(coord: i64, delta: i64) -> (moved: i64)
    ensures
        moved == saturate(coord + delta),
{
    if delta > 0 && coord > i64::MAX - delta {
        i64::MAX
    } else if delta < 0 && coord < i64::MIN - delta {
        i64::MIN
    } else {
        coord + delta
    }
}

impl Point2 {
    pub fn new(x: i64, y: i64) -> (p: Point2)
        ensures
            p == (Point2 { x, y }),
    {
        Point2 { x, y }
    }
}

impl Vector2 {
    pub fn new(x: i64, y: i64) -> (v: Vector2)
        ensures
            v == (Vector2 { x, y }),
    {
        Vector2 { x, y }
    }
}

} // verus!
