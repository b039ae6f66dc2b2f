use vstd::prelude::*;
use vstd::arithmetic::div_mod::{
    lemma_div_is_ordered, lemma_div_multiples_vanish_fancy, lemma_div_pos_is_pos,
};
use vstd::arithmetic::mul::lemma_mul_inequality;

verus! {

use crate::fixed::{ONE, is_isqrt, fxabs, spec_isqrt};
use crate::vec3::{Vec3, dist2, norm2};

/// A camera pose: eye position, look-at target and up vector.  The up vector
/// need not be unit length or orthogonal to the view direction; callers
/// normalize as needed.  A pose is degenerate when eye and target coincide:
/// its view direction is then undefined and `look_direction` reports `None`.
#[derive(Clone, Copy, Debug, PartialEq, Eq, Structural)]
pub struct LookTransform {
    pub eye: Vec3,
    pub target: Vec3,
    pub up: Vec3,
}

impl LookTransform {
    /// All three vectors within the working coordinate range.
    pub open spec fn wf(self) -> bool {
        &&& self.eye.wf()
        &&& self.target.wf()
        &&& self.up.wf()
    }

    pub fn new(eye: Vec3, target: Vec3, up: Vec3) -> (r: LookTransform)
        ensures
            r.eye == eye,
            r.target == target,
            r.up == up,
    {
        LookTransform { eye, target, up }
    }

    /// Distance from eye to target, rounded down: the integer square root of
    /// the squared distance.
    pub fn radius(&self) -> (r: i64)
        requires
            self.wf(),
        ensures
            r == spec_isqrt(dist2(self.eye, self.target)),
            is_isqrt(dist2(self.eye, self.target), r as int),
            0 <= r,
    {
        let d = self.target.sub_v(self.eye);
        let r = d.length();
        proof {
            assert(norm2(d) == dist2(self.eye, self.target));
        }
        r
    }

    /// Unit view direction from eye toward target, scaled by `ONE`, or `None`
    /// for a degenerate pose.  Each returned component keeps the sign of the
    /// corresponding coordinate difference and lies in `[-ONE, ONE]`.
    pub fn look_direction(&self) -> (r: Option<Vec3>)
        requires
            self.wf(),
        ensures
            (r is None) <==> self.target == self.eye,
            r is Some ==> {
                let d = r->Some_0;
                let n = spec_isqrt(dist2(self.eye, self.target));
                &&& d.x == spec_scale_to_unit(self.target.x - self.eye.x, n)
                &&& d.y == spec_scale_to_unit(self.target.y - self.eye.y, n)
                &&& d.z == spec_scale_to_unit(self.target.z - self.eye.z, n)
                &&& -ONE <= d.x <= ONE
                &&& -ONE <= d.y <= ONE
                &&& -ONE <= d.z <= ONE
                &&& (self.target.x >= self.eye.x ==> d.x >= 0)
                &&& (self.target.x <= self.eye.x ==> d.x <= 0)
                &&& (self.target.y >= self.eye.y ==> d.y >= 0)
                &&& (self.target.y <= self.eye.y ==> d.y <= 0)
                &&& (self.target.z >= self.eye.z ==> d.z >= 0)
                &&& (self.target.z <= self.eye.z ==> d.z <= 0)
            },
    {
        if self.target.x == self.eye.x && self.target.y == self.eye.y && self.target.z
            == self.eye.z {
            return None;
        }
        let d = self.target.sub_v(self.eye);
        let n = d.length();
        let x = scale_to_unit(d.x, n);
        let y = scale_to_unit(d.y, n);
        let z = scale_to_unit(d.z, n);
        Some(Vec3 { x, y, z })
    }
}

/// One normalized component as a function: the sign-preserving quotient
/// `|c| * ONE / n`, with the magnitude rounded down.
pub open spec fn spec_scale_to_unit(c: int, n: int) -> int {
    if c >= 0 {
        (c * ONE) / n
    } else {
        -((-c * ONE) / n)
    }
}

/// One normalized component: `c * ONE / n` with the division rounding the
/// magnitude down, for a coordinate dominated by the length `n`.
pub(crate) fn scale_to_unit(c: i64, n: i64) -> (r: i64)
    requires
        1 <= n,
        fxabs(c as int) <= n,
        -1073741824 <= c <= 1073741824,
    ensures
        r == spec_scale_to_unit(c as int, n as int),
        -ONE <= r <= ONE,
        c >= 0 ==> r >= 0,
        c <= 0 ==> r <= 0,
{
    let a: i64 = if c < 0 {
        -c
    } else {
        c
    };
    proof {
        lemma_mul_inequality(a as int, n as int, ONE as int);
        lemma_div_is_ordered(a as int * ONE, n as int * ONE, n as int);
        lemma_div_multiples_vanish_fancy(ONE as int, 0, n as int);
        assert(n as int * ONE == n as int * ONE + 0);
        assert(n as int * ONE == (n as int) * (ONE as int)) by (nonlinear_arith);
        lemma_div_pos_is_pos(a as int * ONE, n as int);
    }
    let s: i64 = (a * ONE) / n;
    if c < 0 {
        -s
    } else {
        s
    }
}

} // verus!
