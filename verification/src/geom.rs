//! Points and the coordinate bounds the stroker works within.

use vstd::prelude::*;

verus! {

/// Largest coordinate magnitude (and stroke width) the stroker accepts.
/// Keeping coordinates within this range lets every intermediate product
/// in the offset computation fit in an `i64`.
pub const MAX_COORD: i64 = 1048576;

/// A point in a user-defined integer 2D space (for example device
/// subunits).  Plain value type.
#[derive(Clone, Copy, Debug, PartialEq, Eq, Structural)]
pub struct Point {
    pub x: i64,
    pub y: i64,
}

/// The mathematical view of a point: unbounded integer coordinates.
pub struct PointV {
    pub x: int,
    pub y: int,
}

impl View for Point {
    type V = PointV;

    open spec fn view(&self) -> PointV {
        PointV { x: self.x as int, y: self.y as int }
    }
}

/// Both coordinates of `p` are within the accepted range.
pub open spec fn point_in_range(p: PointV) -> bool {
    &&& -(MAX_COORD as int) <= p.x <= MAX_COORD as int
    &&& -(MAX_COORD as int) <= p.y <= MAX_COORD as int
}

/// `w` is a stroke width the stroker accepts: non-negative and bounded.
pub open spec fn width_in_range(w: int) -> bool {
    0 <= w <= MAX_COORD as int
}

/// Magnitude of an integer.
pub open spec fn abs_val(n: int) -> int {
    if n >= 0 {
        n
    } else {
        -n
    }
}

} // verus!
