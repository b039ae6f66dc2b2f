use vstd::prelude::*;
use vstd::arithmetic::div_mod::{lemma_div_multiples_vanish_fancy, lemma_div_is_ordered, lemma_div_pos_is_pos};

verus! {

/// Scale of the fixed-point representation: a rational x is stored as the
/// integer round(x * 65536), so values carry 16 fractional bits.
pub const ONE: i64 = 65536;

/// Half a turn (pi radians) in fixed-point angle units: round(pi * 65536).
pub const HALF_TURN: i64 = 205887;

/// A full turn (2 pi radians), kept as exactly twice `HALF_TURN` so that the
/// wrapping arithmetic on yaw is exact.
pub const FULL_TURN: i64 = 411774;

/// A quarter turn (pi/2 radians), rounded up: round(pi/2 * 65536).
pub const QUARTER_TURN: i64 = 102944;

/// Margin kept between the pitch and the gimbal pole (about 0.01 rad).
pub const PITCH_EPS: i64 = 655;

/// Largest pitch magnitude the angle type admits: strictly inside (-pi/2, pi/2).
pub const PITCH_MAX: i64 = QUARTER_TURN - PITCH_EPS;

/// Largest coordinate magnitude the pose arithmetic admits
/// (2^29, i.e. 8192 world units at the 2^16 scale).
pub const COORD_MAX: i64 = 536870912;

/// Largest elapsed-time value the smoother accepts (one hour).
pub const DT_MAX: i64 = 235929600;

/// Absolute value over the mathematical integers.
pub open spec fn fxabs(x: int) -> int {
    if x < 0 {
        -x
    } else {
        x
    }
}

/// Clamping over the mathematical integers.
pub open spec fn spec_clamp(x: int, lo: int, hi: int) -> int {
    if x < lo {
        lo
    } else if x > hi {
        hi
    } else {
        x
    }
}

/// Clamp `x` into the closed interval `[lo, hi]`.
pub fn clamp_fx(x: i64, lo: i64, hi: i64) -> (r: i64)
    requires
        lo <= hi,
    ensures
        r == spec_clamp(x as int, lo as int, hi as int),
{
    if x < lo {
        lo
    } else if x > hi {
        hi
    } else {
        x
    }
}

/// `r` is the integer square root of `s`.
pub open spec fn is_isqrt(s: int, r: int) -> bool {
    &&& 0 <= r
    &&& r * r <= s
    &&& s < (r + 1) * (r + 1)
}

/// The integer square root as a function over the integers, defined by
/// counting up from zero.
pub open spec fn spec_isqrt(s: int) -> int
    decreases s,
{
    if s <= 0 {
        0
    } else {
        let p = spec_isqrt(s - 1);
        if (p + 1) * (p + 1) <= s {
            p + 1
        } else {
            p
        }
    }
}

/// The functional square root satisfies the root bracketing.
pub proof fn lemma_spec_isqrt(s: int)
    requires
        0 <= s,
    ensures
        is_isqrt(s, spec_isqrt(s)),
    decreases s,
{
    if s == 0 {
    } else {
        lemma_spec_isqrt(s - 1);
        let p = spec_isqrt(s - 1);
        if (p + 1) * (p + 1) <= s {
            assert(s < ((p + 1) + 1) * ((p + 1) + 1)) by (nonlinear_arith)
                requires
                    0 <= p,
                    s - 1 < (p + 1) * (p + 1),
            ;
        }
    }
}

/// Integer square root by binary search: the unique `r` with
/// `r * r <= s < (r + 1) * (r + 1)`.
pub fn isqrt(s: i64) -> (r: i64)
    requires
        0 <= s,
    ensures
        is_isqrt(s as int, r as int),
        r == spec_isqrt(s as int),
{
    let mut lo: i64 = 0;
    let mut hi: i64 = if s < 3037000499 {
        s
    } else {
        3037000499
    };
    proof {
        assert(s < 3037000499 ==> s < (s + 1) * (s + 1)) by (nonlinear_arith);
        assert(i64::MAX < 3037000500i64 * 3037000500);
    }
    while lo < hi
        invariant
            0 <= lo <= hi <= 3037000499,
            lo * lo <= s,
            s < (hi + 1) * (hi + 1),
        decreases hi - lo,
    {
        let mid: i64 = lo + (hi - lo + 1) / 2;
        proof {
            assert(mid * mid <= 3037000499i64 * 3037000499) by (nonlinear_arith)
                requires
                    0 <= mid <= 3037000499,
            ;
        }
        if mid * mid <= s {
            lo = mid;
        } else {
            hi = mid - 1;
        }
    }
    proof {
        lemma_spec_isqrt(s as int);
        assert(lo == spec_isqrt(s as int)) by (nonlinear_arith)
            requires
                is_isqrt(s as int, lo as int),
                is_isqrt(s as int, spec_isqrt(s as int)),
        ;
    }
    lo
}

/// Square root of a fixed-point fraction at the working scale.
pub open spec fn spec_sqrt_fx(x: int) -> int {
    spec_isqrt(x * ONE)
}

/// Square root of a fixed-point fraction in `[0, 1]`, exact as an integer
/// square root at the working scale.
pub fn sqrt_fx(x: i64) -> (r: i64)
    requires
        0 <= x <= ONE,
    ensures
        r == spec_sqrt_fx(x as int),
        is_isqrt(x * ONE, r as int),
        0 <= r <= ONE,
        x == 0 ==> r == 0,
        x == ONE ==> r == ONE,
        x < ONE ==> r < ONE,
{
    let r = isqrt(x * ONE);
    proof {
        assert(r <= ONE) by (nonlinear_arith)
            requires
                is_isqrt(x as int * ONE, r as int),
                0 <= x <= ONE,
                ONE == 65536,
        ;
        assert(x == 0 ==> r == 0) by (nonlinear_arith)
            requires
                is_isqrt(x as int * ONE, r as int),
                0 <= x,
        ;
        assert(x == ONE ==> r == ONE) by (nonlinear_arith)
            requires
                is_isqrt(x as int * ONE, r as int),
                0 <= x <= ONE,
                ONE == 65536,
        ;
        assert(x < ONE ==> r < ONE) by (nonlinear_arith)
            requires
                is_isqrt(x as int * ONE, r as int),
                0 <= x <= ONE,
                ONE == 65536,
        ;
    }
    r
}

/// The integer-exponent part of the fixed-point power: `n` scaled
/// multiplications by the base.
pub open spec fn spec_pow_int(w: int, n: int) -> int
    decreases n,
{
    if n <= 0 {
        ONE as int
    } else {
        spec_pow_int(w, n - 1) * w / (ONE as int)
    }
}

/// The fractional-bit part of the fixed-point power: at each bit position the
/// running root is square-rooted, and multiplied in when the bit is set.
pub open spec fn spec_pow_frac(result: int, r: int, fbits: int, bit: int) -> int
    decreases bit,
{
    if bit <= 0 {
        result
    } else {
        let r2 = spec_sqrt_fx(r);
        if fbits >= bit {
            spec_pow_frac(result * r2 / (ONE as int), r2, fbits - bit, bit / 2)
        } else {
            spec_pow_frac(result, r2, fbits, bit / 2)
        }
    }
}

/// The fixed-point power `w^(dt / ONE)`: the integer part of the exponent by
/// repeated multiplication, the fractional bits by repeated square roots.
pub open spec fn spec_pow(w: int, dt: int) -> int {
    spec_pow_frac(spec_pow_int(w, dt / (ONE as int)), w, dt % (ONE as int), 32768)
}

/// Fixed-point power `w^(dt)` for a base in `[0, 1]` and a non-negative
/// exponent, computed by square-and-multiply over the exponent's integer part
/// and by repeated square roots over its fractional bits.
///
/// The result is a fraction in `[0, 1]`; the endpoints are exact: a base of 1
/// stays 1, a base of 0 with a positive exponent gives 0, and a zero exponent
/// gives 1.  A base below 1 with a positive exponent stays strictly below 1.
pub fn pow_fx(w: i64, dt: i64) -> (r: i64)
    requires
        0 <= w <= ONE,
        0 <= dt <= DT_MAX,
    ensures
        r == spec_pow(w as int, dt as int),
        0 <= r <= ONE,
        w == ONE ==> r == ONE,
        dt == 0 ==> r == ONE,
        w == 0 && dt >= 1 ==> r == 0,
        w < ONE && dt >= 1 ==> r < ONE,
{
    let ip: i64 = dt / ONE;
    let mut fbits: i64 = dt % ONE;
    let mut result: i64 = ONE;
    let mut i: i64 = 0;
    proof {
        assert(ip == dt as int / ONE as int);
        assert(fbits == dt as int % ONE as int);
        assert(0 <= ip <= 3600);
        assert(0 <= fbits < ONE);
        assert(dt == ip * ONE + fbits) by {
            vstd::arithmetic::div_mod::lemma_fundamental_div_mod(dt as int, ONE as int);
        }
    }
    while i < ip
        invariant
            0 <= i <= ip,
            0 <= w <= ONE,
            0 <= result <= ONE,
            w == ONE ==> result == ONE,
            i == 0 ==> result == ONE,
            result == spec_pow_int(w as int, i as int),
            w < ONE && i >= 1 ==> result < ONE,
            w == 0 && i >= 1 ==> result == 0,
        decreases ip - i,
    {
        proof {
            assert(0 <= result * w <= ONE * ONE) by (nonlinear_arith)
                requires
                    0 <= result <= ONE,
                    0 <= w <= ONE,
            ;
            assert(result as int * w / (ONE as int) <= ONE) by {
                lemma_div_is_ordered(result as int * w, ONE as int * ONE, ONE as int);
                lemma_div_multiples_vanish_fancy(ONE as int, 0, ONE as int);
            }
            assert(w < ONE ==> result * w <= ONE * (ONE - 1)) by (nonlinear_arith)
                requires
                    0 <= result <= ONE,
                    0 <= w <= ONE,
            ;
            assert(w < ONE ==> result as int * w / (ONE as int) <= ONE - 1) by {
                if w < ONE {
                    lemma_div_is_ordered(result as int * w, ONE as int * (ONE - 1), ONE as int);
                    lemma_div_multiples_vanish_fancy(ONE as int - 1, 0, ONE as int);
                }
            }
            assert(w == ONE ==> result as int * w / (ONE as int) == result) by {
                if w == ONE {
                    lemma_div_multiples_vanish_fancy(result as int, 0, ONE as int);
                    assert(result * ONE == ONE * result) by (nonlinear_arith);
                }
            }
            assert(w == 0 ==> result * w == 0) by (nonlinear_arith);
        }
        let next: i64 = (result * w) / ONE;
        result = next;
        i = i + 1;
    }
    let mut r: i64 = w;
    let mut bit: i64 = 32768;
    while bit > 0
        invariant
            bit == 32768 || bit == 16384 || bit == 8192 || bit == 4096 || bit == 2048 || bit
                == 1024 || bit == 512 || bit == 256 || bit == 128 || bit == 64 || bit == 32 || bit
                == 16 || bit == 8 || bit == 4 || bit == 2 || bit == 1 || bit == 0,
            0 <= w <= ONE,
            0 <= r <= ONE,
            0 <= result <= ONE,
            bit > 0 ==> fbits <= 2 * bit - 1,
            bit == 0 ==> fbits == 0,
            0 <= fbits,
            w == ONE ==> r == ONE && result == ONE,
            spec_pow_frac(result as int, r as int, fbits as int, bit as int) == spec_pow(
                w as int,
                dt as int,
            ),
            w == 0 ==> r == 0,
            w < ONE ==> r < ONE,
            w < ONE && dt >= 1 ==> result < ONE || fbits >= 1,
            w == 0 && dt >= 1 ==> result == 0 || fbits >= 1,
            dt == 0 ==> result == ONE && fbits == 0,
        decreases bit,
    {
        r = sqrt_fx(r);
        if fbits >= bit {
            fbits = fbits - bit;
            proof {
                assert(0 <= result * r <= ONE * ONE) by (nonlinear_arith)
                    requires
                        0 <= result <= ONE,
                        0 <= r <= ONE,
                ;
                assert(result as int * r / (ONE as int) <= ONE) by {
                    lemma_div_is_ordered(result as int * r, ONE as int * ONE, ONE as int);
                    lemma_div_multiples_vanish_fancy(ONE as int, 0, ONE as int);
                }
                assert(r < ONE ==> result * r <= ONE * (ONE - 1)) by (nonlinear_arith)
                    requires
                        0 <= result <= ONE,
                        0 <= r <= ONE,
                ;
                assert(r < ONE ==> result as int * r / (ONE as int) <= ONE - 1) by {
                    if r < ONE {
                        lemma_div_is_ordered(result as int * r, ONE as int * (ONE - 1), ONE as int);
                        lemma_div_multiples_vanish_fancy(ONE as int - 1, 0, ONE as int);
                    }
                }
                assert(r == ONE ==> result as int * r / (ONE as int) == result) by {
                    if r == ONE {
                        lemma_div_multiples_vanish_fancy(result as int, 0, ONE as int);
                        assert(result * ONE == ONE * result) by (nonlinear_arith);
                    }
                }
                assert(r == 0 ==> result * r == 0) by (nonlinear_arith);
            }
            let next: i64 = (result * r) / ONE;
            result = next;
        }
        bit = bit / 2;
    }
    result
}

/// Fixed-point product of two fractions in `[-1, 1]`.
pub fn mul_fx(a: i64, b: i64) -> (r: i64)
    requires
        -ONE <= a <= ONE,
        -ONE <= b <= ONE,
    ensures
        r == spec_mul_div(a as int, b as int),
        -ONE <= r <= ONE,
        a == 0 || b == 0 ==> r == 0,
{
    let aa: i64 = if a < 0 {
        -a
    } else {
        a
    };
    let ab: i64 = if b < 0 {
        -b
    } else {
        b
    };
    proof {
        assert(0 <= aa * ab <= ONE * ONE) by (nonlinear_arith)
            requires
                0 <= aa <= ONE,
                0 <= ab <= ONE,
        ;
        assert(aa as int * ab / (ONE as int) <= ONE) by {
            lemma_div_is_ordered(aa as int * ab, ONE as int * ONE, ONE as int);
            lemma_div_multiples_vanish_fancy(ONE as int, 0, ONE as int);
        }
    }
    let m: i64 = (aa * ab) / ONE;
    proof {
        if a == 0 || b == 0 {
            assert(aa as int * ab == 0) by (nonlinear_arith)
                requires
                    aa == 0 || ab == 0,
            ;
        }
    }
    if (a >= 0) == (b >= 0) {
        m
    } else {
        -m
    }
}

/// Scaled product over the integers: `a * b / ONE` with the magnitude
/// rounded down and the usual sign rule.
pub open spec fn spec_mul_div(a: int, b: int) -> int {
    if (a >= 0) == (b >= 0) {
        (fxabs(a) * fxabs(b)) / (ONE as int)
    } else {
        -((fxabs(a) * fxabs(b)) / (ONE as int))
    }
}

/// Scaled product of two fixed-point values of up to 2^31 magnitude.
pub fn mul_div_fx(a: i64, b: i64) -> (r: i64)
    requires
        -2147483648 <= a <= 2147483648,
        -2147483648 <= b <= 2147483648,
    ensures
        r == spec_mul_div(a as int, b as int),
        fxabs(r as int) <= 70368744177664,
        fxabs(b as int) <= ONE ==> fxabs(r as int) <= fxabs(a as int),
        a == 0 || b == 0 ==> r == 0,
{
    let aa: i64 = if a < 0 {
        -a
    } else {
        a
    };
    let ab: i64 = if b < 0 {
        -b
    } else {
        b
    };
    proof {
        assert(0 <= aa * ab <= 2147483648i64 * 2147483648) by (nonlinear_arith)
            requires
                0 <= aa <= 2147483648,
                0 <= ab <= 2147483648,
        ;
        lemma_div_is_ordered(aa as int * ab, 2147483648i64 * 2147483648, ONE as int);
        lemma_div_pos_is_pos(aa as int * ab, ONE as int);
        if ab <= ONE {
            assert(aa * ab <= (ONE as int) * aa) by (nonlinear_arith)
                requires
                    0 <= aa,
                    0 <= ab <= ONE,
            ;
            lemma_div_is_ordered(aa as int * ab, (ONE as int) * aa, ONE as int);
            lemma_div_multiples_vanish_fancy(aa as int, 0, ONE as int);
        }
        if a == 0 || b == 0 {
            assert(aa as int * ab == 0) by (nonlinear_arith)
                requires
                    aa == 0 || ab == 0,
            ;
        }
    }
    let m: i64 = (aa * ab) / ONE;
    if (a >= 0) == (b >= 0) {
        m
    } else {
        -m
    }
}

} // verus!


