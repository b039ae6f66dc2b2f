use vstd::prelude::*;

verus! {

use crate::fixed::{COORD_MAX, spec_clamp, clamp_fx, fxabs, is_isqrt, isqrt, spec_isqrt};

/// A two-component fixed-point vector (mouse deltas, sensitivities).
#[derive(Clone, Copy, Debug, PartialEq, Eq, Structural)]
pub struct Vec2 {
    pub x: i64,
    pub y: i64,
}

/// A three-component fixed-point vector (positions and directions).
#[derive(Clone, Copy, Debug, PartialEq, Eq, Structural)]
pub struct Vec3 {
    pub x: i64,
    pub y: i64,
    pub z: i64,
}

/// Square of an integer.
pub open spec fn sq(x: int) -> int {
    x * x
}

/// Squared length of a vector.
pub open spec fn norm2(v: Vec3) -> int {
    sq(v.x as int) + sq(v.y as int) + sq(v.z as int)
}

/// Squared distance between two points.
pub open spec fn dist2(a: Vec3, b: Vec3) -> int {
    sq(b.x as int - a.x) + sq(b.y as int - a.y) + sq(b.z as int - a.z)
}

impl Vec2 {
    /// All coordinates within the working range.
    pub open spec fn wf(self) -> bool {
        &&& -COORD_MAX <= self.x <= COORD_MAX
        &&& -COORD_MAX <= self.y <= COORD_MAX
    }

    pub fn new(x: i64, y: i64) -> (r: Vec2)
        ensures
            r.x == x,
            r.y == y,
    {
        Vec2 { x, y }
    }

    pub fn zero() -> (r: Vec2)
        ensures
            r.x == 0,
            r.y == 0,
            r.wf(),
    {
        Vec2 { x: 0, y: 0 }
    }
}

impl Vec3 {
    /// All coordinates within the working range.
    pub open spec fn wf(self) -> bool {
        &&& -COORD_MAX <= self.x <= COORD_MAX
        &&& -COORD_MAX <= self.y <= COORD_MAX
        &&& -COORD_MAX <= self.z <= COORD_MAX
    }

    pub fn new(x: i64, y: i64, z: i64) -> (r: Vec3)
        ensures
            r.x == x,
            r.y == y,
            r.z == z,
    {
        Vec3 { x, y, z }
    }

    pub fn zero() -> (r: Vec3)
        ensures
            r.x == 0,
            r.y == 0,
            r.z == 0,
            r.wf(),
    {
        Vec3 { x: 0, y: 0, z: 0 }
    }

    /// Euclidean length, rounded down to the integer square root of the
    /// squared length; it dominates every coordinate's magnitude and is
    /// positive for every vector other than the origin.
    pub fn length(self) -> (r: i64)
        requires
            -1073741824 <= self.x <= 1073741824,
            -1073741824 <= self.y <= 1073741824,
            -1073741824 <= self.z <= 1073741824,
        ensures
            r == spec_isqrt(norm2(self)),
            is_isqrt(norm2(self), r as int),
            0 <= r,
            fxabs(self.x as int) <= r,
            fxabs(self.y as int) <= r,
            fxabs(self.z as int) <= r,
            !(self.x == 0 && self.y == 0 && self.z == 0) ==> r >= 1,
    {
        proof {
            assert(0 <= self.x * self.x <= 1073741824i64 * 1073741824) by (nonlinear_arith)
                requires
                    -1073741824 <= self.x <= 1073741824,
            ;
            assert(0 <= self.y * self.y <= 1073741824i64 * 1073741824) by (nonlinear_arith)
                requires
                    -1073741824 <= self.y <= 1073741824,
            ;
            assert(0 <= self.z * self.z <= 1073741824i64 * 1073741824) by (nonlinear_arith)
                requires
                    -1073741824 <= self.z <= 1073741824,
            ;
        }
        let n2: i64 = self.x * self.x + self.y * self.y + self.z * self.z;
        let r = isqrt(n2);
        proof {
            assert(fxabs(self.x as int) <= r && fxabs(self.y as int) <= r && fxabs(
                self.z as int,
            ) <= r) by (nonlinear_arith)
                requires
                    is_isqrt(norm2(self), r as int),
                    n2 == norm2(self),
                    norm2(self) == sq(self.x as int) + sq(self.y as int) + sq(self.z as int),
                    sq(self.x as int) == self.x as int * self.x,
                    sq(self.y as int) == self.y as int * self.y,
                    sq(self.z as int) == self.z as int * self.z,
                    fxabs(self.x as int) == if self.x < 0 { -self.x as int } else { self.x as int },
                    fxabs(self.y as int) == if self.y < 0 { -self.y as int } else { self.y as int },
                    fxabs(self.z as int) == if self.z < 0 { -self.z as int } else { self.z as int },
            ;
            assert(!(self.x == 0 && self.y == 0 && self.z == 0) ==> r >= 1) by (nonlinear_arith)
                requires
                    is_isqrt(norm2(self), r as int),
                    norm2(self) == self.x as int * self.x + self.y as int * self.y + self.z as int
                        * self.z,
            ;
        }
        r
    }

    /// Componentwise difference; the operands' range keeps it in `i64`.
    pub fn sub_v(self, o: Vec3) -> (r: Vec3)
        requires
            self.wf(),
            o.wf(),
        ensures
            r.x == self.x - o.x,
            r.y == self.y - o.y,
            r.z == self.z - o.z,
    {
        Vec3 { x: self.x - o.x, y: self.y - o.y, z: self.z - o.z }
    }

    /// Componentwise sum, clamped back into the working coordinate range.
    pub fn add_clamped(self, o: Vec3) -> (r: Vec3)
        requires
            self.wf(),
            o.wf(),
        ensures
            r.x == spec_clamp(self.x + o.x, -COORD_MAX as int, COORD_MAX as int),
            r.y == spec_clamp(self.y + o.y, -COORD_MAX as int, COORD_MAX as int),
            r.z == spec_clamp(self.z + o.z, -COORD_MAX as int, COORD_MAX as int),
            r.wf(),
    {
        Vec3 {
            x: clamp_fx(self.x + o.x, -COORD_MAX, COORD_MAX),
            y: clamp_fx(self.y + o.y, -COORD_MAX, COORD_MAX),
            z: clamp_fx(self.z + o.z, -COORD_MAX, COORD_MAX),
        }
    }
}

} // verus!
