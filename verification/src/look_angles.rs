use vstd::prelude::*;

verus! {

use crate::fixed::{
    ONE, HALF_TURN, QUARTER_TURN, PITCH_MAX, PITCH_EPS, spec_clamp, clamp_fx, fxabs, mul_fx,
    spec_isqrt, spec_mul_div,
};
use crate::angle::{ANGLE_LIMIT, spec_wrap, wrap_angle};
use crate::trig::{sin_fx, cos_fx, atan2_fx, asin_fx, spec_sin, spec_cos, spec_atan2, spec_asin};
use crate::vec3::{Vec3, norm2};
use crate::look_transform::{scale_to_unit, spec_scale_to_unit};

/// The angles of a direction vector, as a function: the yaw is the
/// four-quadrant arctangent of the negated x and z coordinates, the pitch the
/// arcsine of the y coordinate scaled by the vector's length, clamped clear
/// of the poles.
pub open spec fn spec_from_vector(v: Vec3) -> LookAngles {
    let n = spec_isqrt(norm2(v));
    LookAngles {
        yaw: spec_atan2(-(v.x as int), -(v.z as int)) as i64,
        pitch: spec_clamp(
            spec_asin(spec_scale_to_unit(v.y as int, n)),
            -(PITCH_MAX as int),
            PITCH_MAX as int,
        ) as i64,
    }
}

/// The unit direction of an angle pair, as a function, at the working scale.
pub open spec fn spec_unit_vector(a: LookAngles) -> Vec3 {
    let sp = spec_sin(a.pitch as int);
    let cp = spec_cos(a.pitch as int);
    let sy = spec_sin(a.yaw as int);
    let cy = spec_cos(a.yaw as int);
    Vec3 { x: (-spec_mul_div(cp, sy)) as i64, y: sp as i64, z: (-spec_mul_div(cp, cy)) as i64 }
}

/// Largest magnitude accepted for a single yaw or pitch delta; keeps the
/// wrapped sum inside the range the wrapping routine admits.
pub const DELTA_LIMIT: i64 = ANGLE_LIMIT - HALF_TURN;

/// A view direction as a yaw/pitch pair in fixed-point radians.  Yaw is kept
/// wrapped in `[-HALF_TURN, HALF_TURN]`; pitch is kept clamped strictly inside
/// the open interval `(-QUARTER_TURN, QUARTER_TURN)` with a margin of
/// `PITCH_EPS`, so the gimbal poles are never reached.
#[derive(Clone, Copy, Debug, PartialEq, Eq, Structural)]
pub struct LookAngles {
    pub yaw: i64,
    pub pitch: i64,
}

impl LookAngles {
    /// The representation invariant: yaw wrapped, pitch clear of the poles.
    pub open spec fn wf(self) -> bool {
        &&& -HALF_TURN <= self.yaw <= HALF_TURN
        &&& -PITCH_MAX <= self.pitch <= PITCH_MAX
    }

    /// Construct from raw angles: the yaw is wrapped, the pitch clamped.
    pub fn new(yaw: i64, pitch: i64) -> (r: LookAngles)
        requires
            -DELTA_LIMIT <= yaw <= DELTA_LIMIT,
            -DELTA_LIMIT <= pitch <= DELTA_LIMIT,
        ensures
            r.yaw == spec_wrap(yaw as int),
            r.pitch == spec_clamp(pitch as int, -PITCH_MAX as int, PITCH_MAX as int),
            r.wf(),
    {
        LookAngles { yaw: wrap_angle(yaw), pitch: clamp_fx(pitch, -PITCH_MAX, PITCH_MAX) }
    }

    /// Angles of a (possibly non-unit) direction vector: the pitch is the
    /// arcsine of the normalized y component, clamped clear of the poles, and
    /// the yaw is the four-quadrant arctangent placing yaw zero along the
    /// negative z axis.  The direction must not be the zero vector.
    pub fn from_vector(dir: Vec3) -> (r: LookAngles)
        requires
            -1073741824 <= dir.x <= 1073741824,
            -1073741824 <= dir.y <= 1073741824,
            -1073741824 <= dir.z <= 1073741824,
            !(dir.x == 0 && dir.y == 0 && dir.z == 0),
        ensures
            r == spec_from_vector(dir),
            r.wf(),
            dir.y >= 0 ==> r.pitch >= 0,
            dir.y <= 0 ==> r.pitch <= 0,
            dir.x == 0 && dir.y == 0 && dir.z <= -1 ==> r.yaw == 0 && r.pitch == 0,
    {
        let n = dir.length();
        let s = scale_to_unit(dir.y, n);
        let p0 = asin_fx(s);
        let pitch = clamp_fx(p0, -PITCH_MAX, PITCH_MAX);
        let yaw = atan2_fx(-dir.x, -dir.z);
        LookAngles { yaw, pitch }
    }

    /// The unit direction for the current angles, scaled by `ONE`: the
    /// inverse of `from_vector` up to the fixed-point resolution.
    pub fn unit_vector(&self) -> (r: Vec3)
        requires
            self.wf(),
        ensures
            r == spec_unit_vector(*self),
            -ONE <= r.x <= ONE,
            -ONE <= r.y <= ONE,
            -ONE <= r.z <= ONE,
            r.wf(),
            self.pitch == 0 ==> r.y == 0,
            self.yaw == 0 && self.pitch == 0 ==> r.x == 0,
    {
        let sp = sin_fx(self.pitch);
        let cp = cos_fx(self.pitch);
        let sy = sin_fx(self.yaw);
        let cy = cos_fx(self.yaw);
        let x = -mul_fx(cp, sy);
        let z = -mul_fx(cp, cy);
        Vec3 { x, y: sp, z }
    }

    pub fn get_yaw(&self) -> (r: i64)
        ensures
            r == self.yaw,
    {
        self.yaw
    }

    pub fn get_pitch(&self) -> (r: i64)
        ensures
            r == self.pitch,
    {
        self.pitch
    }

    /// Replace the yaw; the stored value is the wrapped angle.
    pub fn set_yaw(&mut self, yaw: i64)
        requires
            -DELTA_LIMIT <= yaw <= DELTA_LIMIT,
        ensures
            final(self).yaw == spec_wrap(yaw as int),
            final(self).pitch == old(self).pitch,
            old(self).wf() ==> final(self).wf(),
    {
        self.yaw = wrap_angle(yaw);
    }

    /// Replace the pitch; the stored value is clamped clear of the poles.
    pub fn set_pitch(&mut self, pitch: i64)
        requires
            -DELTA_LIMIT <= pitch <= DELTA_LIMIT,
        ensures
            final(self).pitch == spec_clamp(pitch as int, -PITCH_MAX as int, PITCH_MAX as int),
            final(self).yaw == old(self).yaw,
            old(self).wf() ==> final(self).wf(),
    {
        self.pitch = clamp_fx(pitch, -PITCH_MAX, PITCH_MAX);
    }

    /// Add a yaw delta; the new yaw is the wrap of the exact sum, so repeated
    /// small increments never jump by more than the increment itself.
    pub fn add_yaw(&mut self, delta: i64)
        requires
            old(self).wf(),
            -DELTA_LIMIT <= delta <= DELTA_LIMIT,
        ensures
            final(self).yaw == spec_wrap(old(self).yaw + delta),
            final(self).pitch == old(self).pitch,
            final(self).wf(),
    {
        self.yaw = wrap_angle(self.yaw + delta);
    }

    /// Add a pitch delta; the new pitch is the clamp of the exact sum, so a
    /// delta past the limit saturates at `PITCH_MAX` instead of overflowing,
    /// and the result always stays at least `PITCH_EPS` away from the poles.
    pub fn add_pitch(&mut self, delta: i64)
        requires
            old(self).wf(),
            -DELTA_LIMIT <= delta <= DELTA_LIMIT,
        ensures
            final(self).pitch == spec_clamp(
                old(self).pitch + delta,
                -PITCH_MAX as int,
                PITCH_MAX as int,
            ),
            final(self).yaw == old(self).yaw,
            final(self).wf(),
            fxabs(final(self).pitch as int) <= QUARTER_TURN - PITCH_EPS,
    {
        self.pitch = clamp_fx(self.pitch + delta, -PITCH_MAX, PITCH_MAX);
    }

    /// The defensive pole check: for any well-formed angle pair the pitch is
    /// provably at least `PITCH_EPS` below the gimbal pole, so the fatal
    /// failure this check guards against can never happen.
    pub fn assert_not_looking_up(&self)
        requires
            self.wf(),
        ensures
            fxabs(self.pitch as int) <= QUARTER_TURN - PITCH_EPS,
    {
    }
}

impl Default for LookAngles {
    /// The straight-ahead direction: yaw and pitch both zero.
    fn default() -> (r: LookAngles)
        ensures
            r.yaw == 0,
            r.pitch == 0,
            r.wf(),
    {
        LookAngles { yaw: 0, pitch: 0 }
    }
}

} // verus!
