use vstd::prelude::*;
use vstd::arithmetic::div_mod::{
    lemma_div_is_ordered, lemma_div_multiples_vanish_fancy, lemma_div_pos_is_pos,
};

verus! {

use crate::fixed::{ONE, DT_MAX, COORD_MAX, fxabs, pow_fx, spec_pow};
use crate::vec3::Vec3;
use crate::look_transform::LookTransform;

/// One interpolated coordinate: move from `a` toward `b` by the fraction
/// `t / ONE`, rounding the step up in magnitude, so any positive fraction
/// makes strict progress over the integers.
pub open spec fn spec_lerp1(a: int, b: int, t: int) -> int {
    if b >= a {
        a + ((b - a) * t + (ONE - 1)) / (ONE as int)
    } else {
        a - ((a - b) * t + (ONE - 1)) / (ONE as int)
    }
}

/// `r` is the pose interpolated from `l` toward `p` by the fraction `t / ONE`
/// in every coordinate of eye, target and up.
pub open spec fn is_lerp_pose(l: LookTransform, p: LookTransform, r: LookTransform, t: int) -> bool {
    &&& r.eye.x == spec_lerp1(l.eye.x as int, p.eye.x as int, t)
    &&& r.eye.y == spec_lerp1(l.eye.y as int, p.eye.y as int, t)
    &&& r.eye.z == spec_lerp1(l.eye.z as int, p.eye.z as int, t)
    &&& r.target.x == spec_lerp1(l.target.x as int, p.target.x as int, t)
    &&& r.target.y == spec_lerp1(l.target.y as int, p.target.y as int, t)
    &&& r.target.z == spec_lerp1(l.target.z as int, p.target.z as int, t)
    &&& r.up.x == spec_lerp1(l.up.x as int, p.up.x as int, t)
    &&& r.up.y == spec_lerp1(l.up.y as int, p.up.y as int, t)
    &&& r.up.z == spec_lerp1(l.up.z as int, p.up.z as int, t)
}

/// Distance between two poses in the one-norm over all nine coordinates.
pub open spec fn pose_dist(a: LookTransform, b: LookTransform) -> int {
    fxabs(b.eye.x - a.eye.x) + fxabs(b.eye.y - a.eye.y) + fxabs(b.eye.z - a.eye.z) + fxabs(
        b.target.x - a.target.x,
    ) + fxabs(b.target.y - a.target.y) + fxabs(b.target.z - a.target.z) + fxabs(
        b.up.x - a.up.x,
    ) + fxabs(b.up.y - a.up.y) + fxabs(b.up.z - a.up.z)
}

/// The facts the smoothing step rests on, for one coordinate: the
/// interpolated value stays between the endpoints, a full fraction lands on
/// the far endpoint exactly, equal endpoints stay fixed, and any positive
/// fraction strictly shrinks a nonzero gap.
pub proof fn lemma_lerp1_props(a: int, b: int, t: int)
    requires
        1 <= t <= ONE,
    ensures
        a <= b ==> a <= spec_lerp1(a, b, t) <= b,
        b <= a ==> b <= spec_lerp1(a, b, t) <= a,
        a == b ==> spec_lerp1(a, b, t) == a,
        t == ONE ==> spec_lerp1(a, b, t) == b,
        fxabs(b - spec_lerp1(a, b, t)) <= fxabs(b - a),
        a != b ==> fxabs(b - spec_lerp1(a, b, t)) < fxabs(b - a),
{
    let d = if b >= a {
        b - a
    } else {
        a - b
    };
    let num = d * t + (ONE - 1);
    let step = num / (ONE as int);
    assert(0 <= d * t) by (nonlinear_arith)
        requires
            0 <= d,
            0 <= t,
    ;
    assert(d * t <= (ONE as int) * d) by (nonlinear_arith)
        requires
            0 <= d,
            0 <= t <= ONE,
    ;
    lemma_div_pos_is_pos(num, ONE as int);
    lemma_div_is_ordered(num, (ONE as int) * d + (ONE - 1), ONE as int);
    lemma_div_multiples_vanish_fancy(d, ONE as int - 1, ONE as int);
    assert(0 <= step <= d);
    if d >= 1 {
        assert(1 <= d * t) by (nonlinear_arith)
            requires
                1 <= d,
                1 <= t,
        ;
        lemma_div_is_ordered(ONE as int, num, ONE as int);
        lemma_div_multiples_vanish_fancy(1, 0, ONE as int);
        assert(step >= 1);
    }
    if t == ONE {
        assert(d * t == (ONE as int) * d) by (nonlinear_arith)
            requires
                t == ONE,
        ;
        assert(step == d);
    }
}

/// One interpolated coordinate, executably.
pub fn lerp1(a: i64, b: i64, t: i64) -> (r: i64)
    requires
        -COORD_MAX <= a <= COORD_MAX,
        -COORD_MAX <= b <= COORD_MAX,
        1 <= t <= ONE,
    ensures
        r == spec_lerp1(a as int, b as int, t as int),
        a <= b ==> a <= r <= b,
        b <= a ==> b <= r <= a,
{
    proof {
        lemma_lerp1_props(a as int, b as int, t as int);
        if b >= a {
            assert(0 <= (b - a) * t <= 1073741824i64 * 65536) by (nonlinear_arith)
                requires
                    0 <= t <= 65536,
                    b >= a,
                    b - a <= 1073741824,
            ;
        } else {
            assert(0 <= (a - b) * t <= 1073741824i64 * 65536) by (nonlinear_arith)
                requires
                    0 <= t <= 65536,
                    a >= b,
                    a - b <= 1073741824,
            ;
        }
    }
    if b >= a {
        let step: i64 = ((b - a) * t + (ONE - 1)) / ONE;
        a + step
    } else {
        let step: i64 = ((a - b) * t + (ONE - 1)) / ONE;
        a - step
    }
}

/// The interpolated pose, coordinate by coordinate.
pub fn lerp_pose(l: &LookTransform, p: &LookTransform, t: i64) -> (r: LookTransform)
    requires
        l.wf(),
        p.wf(),
        1 <= t <= ONE,
    ensures
        is_lerp_pose(*l, *p, r, t as int),
        r.wf(),
{
    LookTransform {
        eye: Vec3 {
            x: lerp1(l.eye.x, p.eye.x, t),
            y: lerp1(l.eye.y, p.eye.y, t),
            z: lerp1(l.eye.z, p.eye.z, t),
        },
        target: Vec3 {
            x: lerp1(l.target.x, p.target.x, t),
            y: lerp1(l.target.y, p.target.y, t),
            z: lerp1(l.target.z, p.target.z, t),
        },
        up: Vec3 {
            x: lerp1(l.up.x, p.up.x, t),
            y: lerp1(l.up.y, p.up.y, t),
            z: lerp1(l.up.z, p.up.z, t),
        },
    }
}

/// The convergence law of the smoothing step: for any positive interpolation
/// fraction the new pose is no farther from the raw pose than the old one,
/// strictly nearer whenever they differ, the raw pose itself is a fixed
/// point, and a full fraction lands on the raw pose exactly.
pub proof fn lemma_lerp_approaches(l: LookTransform, p: LookTransform, r: LookTransform, t: int)
    requires
        is_lerp_pose(l, p, r, t),
        1 <= t <= ONE,
    ensures
        pose_dist(r, p) <= pose_dist(l, p),
        l != p ==> pose_dist(r, p) < pose_dist(l, p),
        l == p ==> r == l,
        t == ONE ==> r == p,
{
    lemma_lerp1_props(l.eye.x as int, p.eye.x as int, t);
    lemma_lerp1_props(l.eye.y as int, p.eye.y as int, t);
    lemma_lerp1_props(l.eye.z as int, p.eye.z as int, t);
    lemma_lerp1_props(l.target.x as int, p.target.x as int, t);
    lemma_lerp1_props(l.target.y as int, p.target.y as int, t);
    lemma_lerp1_props(l.target.z as int, p.target.z as int, t);
    lemma_lerp1_props(l.up.x as int, p.up.x as int, t);
    lemma_lerp1_props(l.up.y as int, p.up.y as int, t);
    lemma_lerp1_props(l.up.z as int, p.up.z as int, t);
}

/// An exponential moving-average filter over poses.  The stored weight is a
/// fraction in `[0, 1)`; the lag pose is absent until the first update and
/// afterwards always holds the last emitted pose.
#[derive(Clone, Copy, Debug)]
pub struct Smoother {
    pub weight: i64,
    pub lag_pose: Option<LookTransform>,
}

/// The weight a call works with: the override when one is given, the stored
/// default otherwise.
pub open spec fn eff_weight(s: Smoother, o: Option<i64>) -> int {
    if o is Some {
        o->0 as int
    } else {
        s.weight as int
    }
}

impl Smoother {
    /// Weight inside `[0, 1)` and a well-formed lag pose, when present.
    pub open spec fn wf(self) -> bool {
        &&& 0 <= self.weight < ONE
        &&& (self.lag_pose is Some ==> self.lag_pose->0.wf())
    }

    pub fn new(weight: i64) -> (r: Smoother)
        requires
            0 <= weight < ONE,
        ensures
            r.weight == weight,
            r.lag_pose is None,
            r.wf(),
    {
        Smoother { weight, lag_pose: None }
    }

    /// One smoothing step.
    ///
    /// The first call returns the raw pose exactly and stores it.  A
    /// non-positive elapsed time is treated as a no-op: the previous lag pose
    /// is returned unmoved.  Otherwise the pose moves from the lag pose
    /// toward the raw pose by exactly the fraction `ONE - spec_pow(w, dt)`,
    /// the fixed-point form of `1 - w^dt` with `w` the effective weight, so
    /// the settling time is independent of the frame rate; a weight of zero
    /// disables smoothing and returns the raw pose.
    /// The returned pose always becomes the new stored lag pose.
    pub fn update(
        &mut self,
        weight_override: Option<i64>,
        raw_pose: LookTransform,
        dt: i64,
    ) -> (r: LookTransform)
        requires
            old(self).wf(),
            raw_pose.wf(),
            weight_override matches Some(w) ==> 0 <= w < ONE,
            dt <= DT_MAX,
        ensures
            final(self).wf(),
            r.wf(),
            final(self).weight == old(self).weight,
            final(self).lag_pose == Some(r),
            old(self).lag_pose is None ==> r == raw_pose,
            old(self).lag_pose matches Some(l) ==> {
                &&& dt <= 0 ==> r == l
                &&& dt >= 1 && eff_weight(*old(self), weight_override) == 0 ==> r == raw_pose
                &&& dt >= 1 && l == raw_pose ==> r == raw_pose
                &&& dt >= 1 ==> is_lerp_pose(
                    l,
                    raw_pose,
                    r,
                    (ONE as int) - spec_pow(eff_weight(*old(self), weight_override), dt as int),
                )
                &&& dt >= 1 ==> pose_dist(r, raw_pose) <= pose_dist(l, raw_pose)
                &&& dt >= 1 && l != raw_pose ==> pose_dist(r, raw_pose) < pose_dist(l, raw_pose)
            },
    {
        let w: i64 = match weight_override {
            Some(w) => w,
            None => self.weight,
        };
        match self.lag_pose {
            None => {
                self.lag_pose = Some(raw_pose);
                raw_pose
            },
            Some(l) => {
                if dt <= 0 {
                    return l;
                }
                let p = pow_fx(w, dt);
                let t: i64 = ONE - p;
                let r = lerp_pose(&l, &raw_pose, t);
                proof {
                    lemma_lerp_approaches(l, raw_pose, r, t as int);
                }
                self.lag_pose = Some(r);
                r
            },
        }
    }
}

} // verus!
