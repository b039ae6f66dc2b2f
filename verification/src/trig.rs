use vstd::prelude::*;
use vstd::arithmetic::div_mod::{
    lemma_div_is_ordered, lemma_div_multiples_vanish_fancy, lemma_div_pos_is_pos,
};
use vstd::arithmetic::mul::lemma_mul_inequality;

verus! {

use crate::fixed::{
    ONE, HALF_TURN, QUARTER_TURN, clamp_fx, fxabs, is_isqrt, isqrt, spec_clamp, spec_isqrt,
};
use crate::angle::{ANGLE_LIMIT, wrap_angle, spec_wrap};

/// Largest magnitude the arctangent approximation can return
/// (about 1.058 rad, reached only by the crude bound, not by the function).
pub const ATAN_MAX: i64 = 69363;

/// The fixed-point sine as a function: wrap, quadrant reduction, and the
/// seventh-order Taylor polynomial on the magnitude, clamped into `[0, ONE]`
/// and given the reduced angle's sign.
pub open spec fn spec_sin(x: int) -> int {
    let w0 = spec_wrap(x);
    let w = if w0 > QUARTER_TURN {
        HALF_TURN - w0
    } else if w0 < -QUARTER_TURN {
        -HALF_TURN - w0
    } else {
        w0
    };
    let a = if w < 0 {
        -w
    } else {
        w
    };
    let x2 = (a * a) / (ONE as int);
    let t3 = (a * x2) / (6 * (ONE as int));
    let t5 = (t3 * x2) / (20 * (ONE as int));
    let t7 = (t5 * x2) / (42 * (ONE as int));
    let sc = spec_clamp(a - t3 + t5 - t7, 0, ONE as int);
    if w < 0 {
        -sc
    } else {
        sc
    }
}

/// The fixed-point cosine: the sine shifted by a quarter turn.
pub open spec fn spec_cos(x: int) -> int {
    spec_sin(spec_wrap(x) + QUARTER_TURN)
}

/// The arctangent approximation on `[-ONE, ONE]` as a function.
pub open spec fn spec_atan_frac(z: int) -> int {
    let a = if z < 0 {
        -z
    } else {
        z
    };
    let term1 = (51472 * a) / (ONE as int);
    let u = (17891 * a) / (ONE as int);
    let term2 = (u * ((ONE as int) - a)) / (ONE as int);
    let s = term1 + term2;
    if z < 0 {
        -s
    } else {
        s
    }
}

/// The four-quadrant arctangent as a function: octant reduction of the
/// quotient, the `[-ONE, ONE]` approximation, and the quadrant shift.
pub open spec fn spec_atan2(y: int, x: int) -> int {
    if y == 0 && x == 0 {
        0
    } else {
        let ax = fxabs(x);
        let ay = fxabs(y);
        let same = (y >= 0) == (x >= 0);
        if ay <= ax {
            let q = (ay * ONE) / ax;
            let z = if same {
                q
            } else {
                -q
            };
            let a = spec_atan_frac(z);
            if x > 0 {
                a
            } else if y >= 0 {
                a + HALF_TURN
            } else {
                a - HALF_TURN
            }
        } else {
            let q = (ax * ONE) / ay;
            let z = if same {
                q
            } else {
                -q
            };
            let a = spec_atan_frac(z);
            if y > 0 {
                (QUARTER_TURN as int) - a
            } else {
                -(QUARTER_TURN as int) - a
            }
        }
    }
}

/// The arcsine as a function: `atan2(s, sqrt(1 - s^2))` at the working scale.
pub open spec fn spec_asin(s: int) -> int {
    spec_atan2(s, spec_isqrt((ONE as int) * ONE - s * s))
}

/// Sine of a fixed-point angle, by wrapping, quadrant reduction and a
/// seventh-order Taylor polynomial; the result is a fraction in `[-1, 1]`.
pub fn sin_fx(x: i64) -> (r: i64)
    requires
        -ANGLE_LIMIT <= x <= ANGLE_LIMIT,
    ensures
        r == spec_sin(x as int),
        -ONE <= r <= ONE,
        x == 0 ==> r == 0,
        x == QUARTER_TURN ==> r >= 0,
    {
    let w0: i64 = wrap_angle(x);
    let w: i64 = if w0 > QUARTER_TURN {
        HALF_TURN - w0
    } else if w0 < -QUARTER_TURN {
        -HALF_TURN - w0
    } else {
        w0
    };
    let neg: bool = w < 0;
    let a: i64 = if neg {
        -w
    } else {
        w
    };
    proof {
        assert(0 <= a <= QUARTER_TURN);
        assert(a * a <= 102944i64 * 102944) by (nonlinear_arith)
            requires
                0 <= a <= 102944,
        ;
        assert(a * a >= 0) by (nonlinear_arith)
            requires
                0 <= a,
        ;
    }
    let x2: i64 = (a * a) / ONE;
    proof {
        lemma_div_is_ordered(a as int * a, 102944i64 * 102944, ONE as int);
        lemma_div_pos_is_pos(a as int * a, ONE as int);
        assert(0 <= x2 <= 161705);
        assert(a * x2 <= 102944i64 * 161705) by (nonlinear_arith)
            requires
                0 <= a <= 102944,
                0 <= x2 <= 161705,
        ;
        assert(a * x2 >= 0) by (nonlinear_arith)
            requires
                0 <= a,
                0 <= x2,
        ;
    }
    let t3: i64 = (a * x2) / (6 * ONE);
    proof {
        lemma_div_is_ordered(a as int * x2, 102944i64 * 161705, 6 * ONE as int);
        lemma_div_pos_is_pos(a as int * x2, 6 * ONE as int);
        assert(0 <= t3 <= 42335);
        assert(t3 * x2 <= 42335i64 * 161705) by (nonlinear_arith)
            requires
                0 <= t3 <= 42335,
                0 <= x2 <= 161705,
        ;
        assert(t3 * x2 >= 0) by (nonlinear_arith)
            requires
                0 <= t3,
                0 <= x2,
        ;
    }
    let t5: i64 = (t3 * x2) / (20 * ONE);
    proof {
        lemma_div_is_ordered(t3 as int * x2, 42335i64 * 161705, 20 * ONE as int);
        lemma_div_pos_is_pos(t3 as int * x2, 20 * ONE as int);
        assert(0 <= t5 <= 5224);
        assert(t5 * x2 <= 5224i64 * 161705) by (nonlinear_arith)
            requires
                0 <= t5 <= 5224,
                0 <= x2 <= 161705,
        ;
        assert(t5 * x2 >= 0) by (nonlinear_arith)
            requires
                0 <= t5,
                0 <= x2,
        ;
    }
    let t7: i64 = (t5 * x2) / (42 * ONE);
    proof {
        lemma_div_is_ordered(t5 as int * x2, 5224i64 * 161705, 42 * ONE as int);
        lemma_div_pos_is_pos(t5 as int * x2, 42 * ONE as int);
        assert(0 <= t7 <= 307);
    }
    let s: i64 = a - t3 + t5 - t7;
    let sc: i64 = clamp_fx(s, 0, ONE);
    proof {
        if x == 0 {
            assert(w0 == 0);
            assert(a == 0);
            assert(a as int * a == 0) by (nonlinear_arith)
                requires
                    a == 0,
            ;
            assert(x2 == 0);
            assert(a as int * x2 == 0) by (nonlinear_arith)
                requires
                    a == 0,
            ;
            assert(t3 == 0);
            assert(t3 as int * x2 == 0) by (nonlinear_arith)
                requires
                    t3 == 0,
            ;
            assert(t5 == 0);
            assert(t5 as int * x2 == 0) by (nonlinear_arith)
                requires
                    t5 == 0,
            ;
            assert(t7 == 0);
            assert(sc == 0);
        }
    }
    if neg {
        -sc
    } else {
        sc
    }
}

/// Cosine of a fixed-point angle, as the sine shifted by a quarter turn.
pub fn cos_fx(x: i64) -> (r: i64)
    requires
        -ANGLE_LIMIT <= x <= ANGLE_LIMIT,
    ensures
        r == spec_cos(x as int),
        -ONE <= r <= ONE,
    {
    let w: i64 = wrap_angle(x);
    sin_fx(w + QUARTER_TURN)
}

/// Arctangent of a fraction `z` in `[-1, 1]`, by the quadratic approximation
/// `atan(z) ~ (pi/4) z + 0.273 z (1 - |z|)`; odd in `z` and zero at zero.
fn atan_frac(z: i64) -> (r: i64)
    requires
        -ONE <= z <= ONE,
    ensures
        r == spec_atan_frac(z as int),
        -ATAN_MAX <= r <= ATAN_MAX,
        z >= 0 ==> r >= 0,
        z <= 0 ==> r <= 0,
        z == 0 ==> r == 0,
    {
    let neg: bool = z < 0;
    let a: i64 = if neg {
        -z
    } else {
        z
    };
    let term1: i64 = (51472 * a) / ONE;
    proof {
        lemma_div_is_ordered(51472 * a as int, 51472 * ONE as int, ONE as int);
        lemma_div_multiples_vanish_fancy(51472, 0, ONE as int);
        assert(51472 * (ONE as int) == (ONE as int) * 51472) by (nonlinear_arith);
        lemma_div_pos_is_pos(51472 * a as int, ONE as int);
        assert(0 <= term1 <= 51472);
    }
    let u: i64 = (17891 * a) / ONE;
    proof {
        lemma_div_is_ordered(17891 * a as int, 17891 * ONE as int, ONE as int);
        lemma_div_multiples_vanish_fancy(17891, 0, ONE as int);
        assert(17891 * (ONE as int) == (ONE as int) * 17891) by (nonlinear_arith);
        lemma_div_pos_is_pos(17891 * a as int, ONE as int);
        assert(0 <= u <= 17891);
        assert(u * (ONE - a) <= 17891i64 * 65536) by (nonlinear_arith)
            requires
                0 <= u <= 17891,
                0 <= ONE - a <= 65536,
                ONE == 65536,
        ;
        assert(u * (ONE - a) >= 0) by (nonlinear_arith)
            requires
                0 <= u,
                0 <= ONE - a,
        ;
    }
    let term2: i64 = (u * (ONE - a)) / ONE;
    proof {
        lemma_div_is_ordered(u as int * (ONE - a), 17891i64 * 65536, ONE as int);
        lemma_div_pos_is_pos(u as int * (ONE - a), ONE as int);
        assert(0 <= term2 <= 17891);
    }
    let s: i64 = term1 + term2;
    proof {
        if z == 0 {
            assert(a == 0);
            assert(51472 * 0int == 0);
            assert(17891 * 0int == 0);
            assert(u as int * (ONE - a) == 0) by (nonlinear_arith)
                requires
                    u == 0,
            ;
        }
    }
    if neg {
        -s
    } else {
        s
    }
}

/// Four-quadrant arctangent of `y / x` in fixed-point angle units, in
/// `[-HALF_TURN, HALF_TURN]`; zero along the positive x axis, a quarter turn
/// on the positive y axis, a half turn on the negative x axis, and zero when
/// both arguments are zero.
pub fn atan2_fx(y: i64, x: i64) -> (r: i64)
    requires
        -1073741824 <= y <= 1073741824,
        -1073741824 <= x <= 1073741824,
    ensures
        r == spec_atan2(y as int, x as int),
        -HALF_TURN <= r <= HALF_TURN,
        x >= 1 && y == 0 ==> r == 0,
        x >= 0 && y >= 0 ==> 0 <= r <= QUARTER_TURN,
        x >= 0 && y <= 0 ==> -QUARTER_TURN <= r <= 0,
    {
    if y == 0 && x == 0 {
        return 0;
    }
    let ax: i64 = if x < 0 {
        -x
    } else {
        x
    };
    let ay: i64 = if y < 0 {
        -y
    } else {
        y
    };
    let same: bool = (y >= 0) == (x >= 0);
    if ay <= ax {
        proof {
            assert(ax >= 1);
            lemma_mul_inequality(ay as int, ax as int, ONE as int);
            lemma_div_is_ordered(ay as int * ONE, ax as int * ONE, ax as int);
            assert(ax as int * ONE == ax as int * ONE + 0);
            lemma_div_multiples_vanish_fancy(ONE as int, 0, ax as int);
            assert(ax as int * ONE == ONE * ax) by (nonlinear_arith);
            lemma_div_pos_is_pos(ay as int * ONE, ax as int);
            if ay == 0 {
                assert(ay as int * ONE == 0) by (nonlinear_arith)
                    requires
                        ay == 0,
                ;
                assert(0int / (ax as int) == 0) by {
                    vstd::arithmetic::div_mod::lemma_div_of0(ax as int);
                }
            }
        }
        let s: i64 = (ay * ONE) / ax;
        let z: i64 = if same {
            s
        } else {
            -s
        };
        let a: i64 = atan_frac(z);
        if x > 0 {
            a
        } else if y >= 0 {
            a + HALF_TURN
        } else {
            a - HALF_TURN
        }
    } else {
        proof {
            assert(ay >= 1);
            lemma_mul_inequality(ax as int, ay as int, ONE as int);
            lemma_div_is_ordered(ax as int * ONE, ay as int * ONE, ay as int);
            lemma_div_multiples_vanish_fancy(ONE as int, 0, ay as int);
            assert(ay as int * ONE == ONE * ay) by (nonlinear_arith);
            lemma_div_pos_is_pos(ax as int * ONE, ay as int);
        }
        let s: i64 = (ax * ONE) / ay;
        let z: i64 = if same {
            s
        } else {
            -s
        };
        let a: i64 = atan_frac(z);
        if y > 0 {
            QUARTER_TURN - a
        } else {
            -QUARTER_TURN - a
        }
    }
}

/// Arcsine of a fraction in `[-1, 1]`, via `asin(s) = atan2(s, sqrt(1 - s^2))`;
/// the result lies in `[-QUARTER_TURN, QUARTER_TURN]` with the sign of the
/// argument, and is zero at zero.
pub fn asin_fx(s: i64) -> (r: i64)
    requires
        -ONE <= s <= ONE,
    ensures
        r == spec_asin(s as int),
        -QUARTER_TURN <= r <= QUARTER_TURN,
        s >= 0 ==> r >= 0,
        s <= 0 ==> r <= 0,
        s == 0 ==> r == 0,
    {
    proof {
        assert(0 <= s * s <= 65536i64 * 65536) by (nonlinear_arith)
            requires
                -65536 <= s <= 65536,
        ;
    }
    let q: i64 = ONE * ONE - s * s;
    let c: i64 = isqrt(q);
    proof {
        assert(c <= ONE) by (nonlinear_arith)
            requires
                is_isqrt(q as int, c as int),
                0 <= q <= 65536i64 * 65536,
                ONE == 65536,
        ;
        if s == 0 {
            assert(q == 65536i64 * 65536);
            assert(c == ONE) by (nonlinear_arith)
                requires
                    is_isqrt(q as int, c as int),
                    q == 65536i64 * 65536,
                    ONE == 65536,
            ;
        }
    }
    atan2_fx(s, c)
}

} // verus!
