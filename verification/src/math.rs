//! Q16 fixed-point arithmetic: truncating division, clamping, integer square
//! root, and the cancellation/monotonicity lemmas the mixer contracts rest on.

use vstd::prelude::*;
use vstd::arithmetic::div_mod::{
    lemma_div_denominator, lemma_div_is_ordered, lemma_div_is_ordered_by_denominator,
    lemma_div_multiples_vanish, lemma_div_pos_is_pos, lemma_div_nonincreasing,
};
use vstd::arithmetic::mul::{lemma_mul_inequality, lemma_mul_nonnegative, lemma_mul_strictly_positive};

verus! {

/// Fixed-point scale: the integer that stands for 1.0.
pub const SCALE: i64 = 65536;

/// Largest magnitude a source's own gain may have (256.0 in Q16).
pub const GAIN_LIMIT: i64 = 16777216;

/// Largest magnitude a per-channel target gain may have after panning
/// doubles it at most (`2 * GAIN_LIMIT`).
pub const GAIN_BOUND: i64 = 2 * GAIN_LIMIT;

/// Largest magnitude of a decoded sample value (16.0 in Q16).
pub const SAMPLE_LIMIT: i64 = 1048576;

/// Largest number of sample pairs in one tick's mix buffer.
pub const MAX_TICK_LEN: usize = 65536;

/// Largest magnitude of a listener or source coordinate (Q16), kept small
/// enough that a squared distance fits the machine word.
pub const POS_LIMIT: i64 = 536870912;

/// Largest length of a head-related impulse response, in coefficients.
pub const IR_LEN_LIMIT: usize = 128;

/// Largest magnitude of one impulse-response coefficient (1.0 in Q16).
pub const IR_COEF_LIMIT: i64 = 65536;

/// Largest magnitude of a distance-model rolloff factor (64.0 in Q16).
pub const ROLLOFF_LIMIT: i64 = 4194304;

/// Largest magnitude a mix-buffer cell may hold before one more source is
/// accumulated into it.
pub const MIX_LIMIT: i64 = 1152921504606846976;

/// Largest magnitude one source can add to one mix-buffer cell in one tick.
pub const CONTRIB_LIMIT: i64 = 274877906944;

/// Truncating division (rounding toward zero), the semantics of `/` on the
/// machine's signed integers, stated over mathematical integers.
pub open spec fn div_trunc(a: int, d: int) -> int
    recommends
        d > 0,
{
    if a >= 0 {
        a / d
    } else {
        -((-a) / d)
    }
}

/// Clamping an integer into an inclusive interval.
pub open spec fn clamp_spec(v: int, lo: int, hi: int) -> int {
    if v < lo {
        lo
    } else if v > hi {
        hi
    } else {
        v
    }
}

/// Truncating division of a machine integer by a positive divisor.
pub fn div_trunc_i64(a: i64, d: i64) -> (r: i64)
    requires
        d > 0,
    ensures
        r == div_trunc(a as int, d as int),
{
    proof {
        lemma_div_trunc_in_range(a as int, d as int);
    }
    match a.checked_div(d) {
        Some(q) => q,
        None => {
            proof {
                assert(false);
            }
            0
        },
    }
}

/// Truncating division by a positive divisor never grows the magnitude, so
/// the quotient of an `i64` numerator always fits in `i64`.
pub proof fn lemma_div_trunc_in_range(a: int, d: int)
    requires
        d > 0,
    ensures
        a >= 0 ==> 0 <= div_trunc(a, d) <= a,
        a < 0 ==> a <= div_trunc(a, d) <= 0,
{
    if a >= 0 {
        lemma_div_pos_is_pos(a, d);
        lemma_div_nonincreasing(a, d);
    } else {
        lemma_div_pos_is_pos(-a, d);
        lemma_div_nonincreasing(-a, d);
    }
}

/// A common positive factor of numerator and divisor cancels out of a
/// truncating division.
pub proof fn lemma_div_trunc_cancel(m: int, a: int, d: int)
    requires
        m > 0,
        d > 0,
    ensures
        div_trunc(m * a, m * d) == div_trunc(a, d),
{
    lemma_mul_strictly_positive(m, d);
    if a >= 0 {
        lemma_mul_nonnegative(m, a);
        lemma_div_denominator(m * a, m, d);
        lemma_div_multiples_vanish(a, m);
        assert((m * a) / m == a);
    } else {
        lemma_mul_nonnegative(m, -a);
        lemma_div_denominator(m * (-a), m, d);
        lemma_div_multiples_vanish(-a, m);
        assert((m * (-a)) / m == (-a));
        assert(m * (-a) == -(m * a)) by (nonlinear_arith);
    }
}

/// Bounding the numerator bounds a truncating quotient.
pub proof fn lemma_div_trunc_bound(a: int, d: int, b: int)
    requires
        d > 0,
        -b <= a <= b,
        b >= 0,
    ensures
        -(b / d) <= div_trunc(a, d) <= b / d,
{
    lemma_div_pos_is_pos(b, d);
    if a >= 0 {
        lemma_div_is_ordered(a, b, d);
        lemma_div_pos_is_pos(a, d);
    } else {
        lemma_div_is_ordered(-a, b, d);
        lemma_div_pos_is_pos(-a, d);
    }
}

/// For nonnegative numerators, truncating division is monotone in the
/// numerator and antitone in the divisor.
pub proof fn lemma_div_trunc_monotone(a1: int, a2: int, d1: int, d2: int)
    requires
        0 <= a1 <= a2,
        0 < d1 <= d2,
    ensures
        div_trunc(a1, d2) <= div_trunc(a2, d1),
{
    lemma_div_is_ordered(a1, a2, d2);
    lemma_div_is_ordered_by_denominator(a2, d1, d2);
}

/// Clamp a machine integer into an inclusive interval.
pub fn clamp_i64(v: i64, lo: i64, hi: i64) -> (r: i64)
    requires
        lo <= hi,
    ensures
        r == clamp_spec(v as int, lo as int, hi as int),
        lo <= r <= hi,
{
    if v < lo {
        lo
    } else if v > hi {
        hi
    } else {
        v
    }
}

/// Integer square root: the largest `r` with `r * r <= x`.
pub fn isqrt_u64(x: u64) -> (r: u64)
    ensures
        r * r <= x,
        (r + 1) * (r + 1) > x,
{
    let mut lo: u64 = 0;
    let mut hi: u64 = 4294967296;
    proof {
        assert(hi as int * hi as int > x as int) by (nonlinear_arith)
            requires
                hi == 4294967296u64,
                x <= u64::MAX,
        ;
    }
    while hi - lo > 1
        invariant
            lo < hi <= 4294967296,
            lo * lo <= x,
            hi as int * hi as int > x as int,
        decreases hi - lo,
    {
        let mid: u64 = lo + (hi - lo) / 2;
        proof {
            assert(mid as int * mid as int <= 4294967295i64 * 4294967295i64) by (nonlinear_arith)
                requires
                    0 <= mid < 4294967296u64,
            ;
        }
        if mid * mid <= x {
            lo = mid;
        } else {
            hi = mid;
        }
    }
    lo
}

/// What it means for `r` to be the integer square root of `x`.
pub open spec fn is_sqrt_floor(x: int, r: int) -> bool {
    r >= 0 && r * r <= x && (r + 1) * (r + 1) > x
}

/// The integer square root of a nonnegative integer, as a value.
pub open spec fn sqrt_floor(x: int) -> int {
    choose|r: int| is_sqrt_floor(x, r)
}

/// Every nonnegative integer has an integer square root, so [`sqrt_floor`]
/// denotes one.
pub proof fn lemma_sqrt_floor_exists(x: int)
    requires
        x >= 0,
    ensures
        is_sqrt_floor(x, sqrt_floor(x)),
    decreases x,
{
    if x == 0 {
        assert(is_sqrt_floor(0, 0));
    } else {
        lemma_sqrt_floor_exists(x - 1);
        let w = sqrt_floor(x - 1);
        if (w + 1) * (w + 1) <= x {
            assert((w + 1) * (w + 1) == x);
            assert((w + 2) * (w + 2) > (w + 1) * (w + 1)) by (nonlinear_arith)
                requires
                    w >= 0,
            ;
            assert(is_sqrt_floor(x, w + 1));
        } else {
            assert(is_sqrt_floor(x, w));
        }
    }
    assert(exists|r: int| is_sqrt_floor(x, r));
}

/// The integer square root is unique.
pub proof fn lemma_sqrt_floor_unique(x: int, r: int)
    requires
        x >= 0,
        is_sqrt_floor(x, r),
    ensures
        r == sqrt_floor(x),
{
    lemma_sqrt_floor_exists(x);
    let s = sqrt_floor(x);
    lemma_isqrt_monotone(x, x, r, s);
    lemma_isqrt_monotone(x, x, s, r);
}

/// Integer square roots are ordered as their arguments are.
pub proof fn lemma_isqrt_monotone(x1: int, x2: int, r1: int, r2: int)
    requires
        0 <= x1 <= x2,
        r1 >= 0,
        r2 >= 0,
        r1 * r1 <= x1,
        (r1 + 1) * (r1 + 1) > x1,
        r2 * r2 <= x2,
        (r2 + 1) * (r2 + 1) > x2,
    ensures
        r1 <= r2,
{
    if r1 > r2 {
        assert(r2 + 1 <= r1);
        lemma_mul_inequality(r2 + 1, r1, r2 + 1);
        lemma_mul_inequality(r2 + 1, r1, r1);
        assert((r2 + 1) * (r2 + 1) <= r1 * (r2 + 1)) by (nonlinear_arith)
            requires
                0 <= r2 + 1 <= r1,
        ;
        assert(r1 * (r2 + 1) <= r1 * r1) by (nonlinear_arith)
            requires
                0 <= r2 + 1 <= r1,
        ;
        assert(false);
    }
}

} // verus!
