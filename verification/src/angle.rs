use vstd::prelude::*;
use vstd::arithmetic::div_mod::{
    lemma_fundamental_div_mod, lemma_mod_add_multiples_vanish, lemma_mod_multiples_vanish,
};

verus! {

use crate::fixed::{HALF_TURN, FULL_TURN};

/// Largest angle magnitude (about a million turns) the wrapping routine
/// accepts; keeps the shifted intermediate inside the machine range.
pub const ANGLE_LIMIT: i64 = FULL_TURN * 1000000;

/// A multiple of `FULL_TURN` larger than `ANGLE_LIMIT`, used to shift the
/// operand of the remainder into the non-negative range.
pub const WRAP_OFFSET: i64 = FULL_TURN * 1000001;

/// Wrapping of an angle into `[-HALF_TURN, HALF_TURN)`, the mathematical
/// meaning of yaw normalization.
pub open spec fn spec_wrap(a: int) -> int {
    (a + HALF_TURN) % (FULL_TURN as int) - HALF_TURN
}

/// Wrap an angle into `[-HALF_TURN, HALF_TURN)`.
pub fn wrap_angle(a: i64) -> (r: i64)
    requires
        -ANGLE_LIMIT <= a <= ANGLE_LIMIT,
    ensures
        r == spec_wrap(a as int),
        -HALF_TURN <= r < HALF_TURN,
{
    let shifted: i64 = a + WRAP_OFFSET + HALF_TURN;
    let m: i64 = shifted % FULL_TURN;
    proof {
        lemma_mod_multiples_vanish(1000001, a + HALF_TURN, FULL_TURN as int);
        assert((FULL_TURN as int) * 1000001 + (a + HALF_TURN) == shifted);
    }
    m - HALF_TURN
}

/// Wrapping is periodic: a full turn leaves the wrapped angle unchanged.
pub proof fn lemma_wrap_period(a: int)
    ensures
        spec_wrap(a + FULL_TURN) == spec_wrap(a),
{
    lemma_mod_add_multiples_vanish(a + HALF_TURN, FULL_TURN as int);
}

/// Wrapping first never changes the final wrapped value: incremental
/// wrapping agrees with wrapping the mathematical sum.
pub proof fn lemma_wrap_absorb(a: int, d: int)
    ensures
        spec_wrap(spec_wrap(a) + d) == spec_wrap(a + d),
{
    let k = (a + HALF_TURN) / (FULL_TURN as int);
    lemma_fundamental_div_mod(a + HALF_TURN, FULL_TURN as int);
    assert(spec_wrap(a) == a - (FULL_TURN as int) * k);
    lemma_mod_multiples_vanish(-k, a + d + HALF_TURN, FULL_TURN as int);
    assert((FULL_TURN as int) * -k + (a + d + HALF_TURN) == spec_wrap(a) + d + HALF_TURN);
}

/// Sum of a sequence of angle deltas.
pub open spec fn sum_of(ds: Seq<int>) -> int
    decreases ds.len(),
{
    if ds.len() == 0 {
        0
    } else {
        ds[0] + sum_of(ds.subrange(1, ds.len() as int))
    }
}

/// The wrapped yaw after applying a sequence of deltas one by one, each
/// followed by a wrap, starting from angle `a`.
pub open spec fn wrap_fold(a: int, ds: Seq<int>) -> int
    decreases ds.len(),
{
    if ds.len() == 0 {
        spec_wrap(a)
    } else {
        wrap_fold(spec_wrap(a + ds[0]), ds.subrange(1, ds.len() as int))
    }
}

/// Applying deltas one wrap at a time agrees with wrapping the total once.
pub proof fn lemma_wrap_fold_is_sum(a: int, ds: Seq<int>)
    ensures
        wrap_fold(a, ds) == spec_wrap(a + sum_of(ds)),
    decreases ds.len(),
{
    if ds.len() == 0 {
    } else {
        let rest = ds.subrange(1, ds.len() as int);
        lemma_wrap_fold_is_sum(spec_wrap(a + ds[0]), rest);
        lemma_wrap_absorb(a + ds[0], sum_of(rest));
    }
}

/// Yaw is periodic in a full turn: any sequence of deltas whose sum is
/// exactly `FULL_TURN` returns the yaw to its original wrapped value.
pub proof fn lemma_yaw_periodic(a: int, ds: Seq<int>)
    requires
        sum_of(ds) == FULL_TURN,
    ensures
        wrap_fold(a, ds) == spec_wrap(a),
{
    lemma_wrap_fold_is_sum(a, ds);
    lemma_wrap_period(a);
}

} // verus!
