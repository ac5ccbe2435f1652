//! Distance models: the attenuation curves mapping source-to-listener
//! distance to a gain multiplier in `[0, SCALE]`, and their monotonicity laws.

use vstd::prelude::*;
use crate::math::{
    clamp_i64, clamp_spec, div_trunc, div_trunc_i64, lemma_div_trunc_bound,
    lemma_div_trunc_monotone, lemma_div_trunc_in_range, POS_LIMIT, ROLLOFF_LIMIT, SCALE,
};
use vstd::arithmetic::div_mod::{lemma_div_is_ordered, lemma_div_multiples_vanish, lemma_div_pos_is_pos};

verus! {

/// Largest distance the attenuation functions accept: the diagonal of the
/// coordinate box fits well under it.
pub const DIST_BOUND: i64 = 4 * POS_LIMIT;

/// Selector for the attenuation curve applied to a spatial source. The
/// numeric curves are fixed here only up to their contracts: each is exact in
/// its `ensures`, monotone non-increasing in distance, and equal to `SCALE`
/// (unit gain) at or inside the reference radius.
#[derive(Clone, Copy, PartialEq, Eq, Structural, Debug)]
pub enum DistanceModel {
    /// Linear falloff from the radius to the maximum distance.
    LinearDistance,
    /// Reciprocal falloff past the radius.
    InverseDistance,
    /// Power-law falloff: the radius/distance ratio raised to the rolloff's
    /// integer part.
    ExponentDistance,
}

/// Linear curve: unit gain inside the radius, then `1 - rolloff * t` where
/// `t` runs linearly from 0 at the radius to 1 at the maximum distance,
/// clamped to `[0, 1]` (all in Q16).
pub open spec fn linear_gain(d: int, radius: int, max_distance: int, rolloff: int) -> int {
    if d <= radius || max_distance <= radius {
        SCALE as int
    } else {
        let dc = clamp_spec(d, radius, max_distance);
        let t = div_trunc((dc - radius) * (SCALE as int), max_distance - radius);
        clamp_spec(SCALE as int - div_trunc(rolloff * t, SCALE as int), 0, SCALE as int)
    }
}

/// Inverse curve: unit gain inside the radius, then
/// `radius / (radius + rolloff * (d - radius))` in Q16.
pub open spec fn inverse_gain(d: int, radius: int, rolloff: int) -> int {
    if d <= radius {
        SCALE as int
    } else {
        div_trunc(radius * (SCALE as int), radius + div_trunc(rolloff * (d - radius), SCALE as int))
    }
}

/// The Q16 ratio `r` raised to the `k`-th power, renormalizing after each
/// multiplication.
pub open spec fn pow_ratio(r: int, k: nat) -> int
    decreases k,
{
    if k == 0 {
        SCALE as int
    } else {
        div_trunc(pow_ratio(r, (k - 1) as nat) * r, SCALE as int)
    }
}

/// Exponential curve: unit gain inside the radius, then `(radius / d)` raised
/// to the integer part of the rolloff factor.
pub open spec fn exponent_gain(d: int, radius: int, rolloff: int) -> int {
    if d <= radius {
        SCALE as int
    } else {
        pow_ratio(div_trunc(radius * (SCALE as int), d), div_trunc(rolloff, SCALE as int) as nat)
    }
}

/// The attenuation of the selected model.
pub open spec fn attenuation(
    model: DistanceModel,
    d: int,
    radius: int,
    max_distance: int,
    rolloff: int,
) -> int {
    match model {
        DistanceModel::LinearDistance => linear_gain(d, radius, max_distance, rolloff),
        DistanceModel::InverseDistance => inverse_gain(d, radius, rolloff),
        DistanceModel::ExponentDistance => exponent_gain(d, radius, rolloff),
    }
}

/// Valid parameters for any of the curves.
pub open spec fn attenuation_args_ok(d: int, radius: int, max_distance: int, rolloff: int) -> bool {
    &&& 0 <= d <= DIST_BOUND as int
    &&& 0 < radius <= POS_LIMIT as int
    &&& radius <= max_distance <= POS_LIMIT as int
    &&& 0 <= rolloff <= ROLLOFF_LIMIT as int
}

/// Every curve lands in `[0, SCALE]`.
pub proof fn lemma_attenuation_bounds(
    model: DistanceModel,
    d: int,
    radius: int,
    max_distance: int,
    rolloff: int,
)
    requires
        attenuation_args_ok(d, radius, max_distance, rolloff),
    ensures
        0 <= attenuation(model, d, radius, max_distance, rolloff) <= SCALE as int,
{
    let s = SCALE as int;
    match model {
        DistanceModel::LinearDistance => {
        },
        DistanceModel::InverseDistance => {
            if d > radius {
                let inner = div_trunc(rolloff * (d - radius), s);
                assert(rolloff * (d - radius) >= 0) by (nonlinear_arith)
                    requires
                        rolloff >= 0,
                        d - radius >= 0,
                ;
                lemma_div_trunc_in_range(rolloff * (d - radius), s);
                assert(radius * s >= 0) by (nonlinear_arith)
                    requires
                        radius >= 0,
                        s >= 0,
                ;
                lemma_div_trunc_monotone(radius * s, radius * s, radius, radius + inner);
                lemma_div_multiples_vanish(s, radius);
                assert(s * radius == radius * s) by (nonlinear_arith);
                assert(div_trunc(radius * s, radius) == s);
                lemma_div_pos_is_pos(radius * s, radius + inner);
            }
        },
        DistanceModel::ExponentDistance => {
            if d > radius {
                let ratio = div_trunc(radius * s, d);
                assert(radius * s >= 0) by (nonlinear_arith)
                    requires
                        radius >= 0,
                        s >= 0,
                ;
                lemma_div_trunc_monotone(radius * s, radius * s, radius, d);
                lemma_div_multiples_vanish(s, radius);
                assert(s * radius == radius * s) by (nonlinear_arith);
                lemma_div_pos_is_pos(radius * s, d);
                assert(0 <= ratio <= s);
                lemma_div_trunc_in_range(rolloff, s);
                lemma_pow_ratio_bounds(ratio, div_trunc(rolloff, s) as nat);
            }
        },
    }
}

/// A renormalized power of a ratio in `[0, 1]` stays in `[0, 1]` (Q16).
pub proof fn lemma_pow_ratio_bounds(r: int, k: nat)
    requires
        0 <= r <= SCALE as int,
    ensures
        0 <= pow_ratio(r, k) <= SCALE as int,
    decreases k,
{
    let s = SCALE as int;
    if k > 0 {
        lemma_pow_ratio_bounds(r, (k - 1) as nat);
        let p = pow_ratio(r, (k - 1) as nat);
        assert(0 <= p * r <= s * s) by (nonlinear_arith)
            requires
                0 <= p <= s,
                0 <= r <= s,
        ;
        lemma_div_trunc_bound(p * r, s, s * s);
        lemma_div_multiples_vanish(s, s);
        assert((s * s) / s == s);
        lemma_div_trunc_in_range(p * r, s);
    }
}

/// Raising a smaller ratio to the same power gives a smaller result.
pub proof fn lemma_pow_ratio_monotone(r1: int, r2: int, k: nat)
    requires
        0 <= r2 <= r1 <= SCALE as int,
    ensures
        pow_ratio(r2, k) <= pow_ratio(r1, k),
    decreases k,
{
    let s = SCALE as int;
    if k > 0 {
        lemma_pow_ratio_monotone(r1, r2, (k - 1) as nat);
        lemma_pow_ratio_bounds(r1, (k - 1) as nat);
        lemma_pow_ratio_bounds(r2, (k - 1) as nat);
        let p1 = pow_ratio(r1, (k - 1) as nat);
        let p2 = pow_ratio(r2, (k - 1) as nat);
        assert(p2 * r2 <= p1 * r1) by (nonlinear_arith)
            requires
                0 <= p2 <= p1,
                0 <= r2 <= r1,
        ;
        assert(p2 * r2 >= 0) by (nonlinear_arith)
            requires
                p2 >= 0,
                r2 >= 0,
        ;
        lemma_div_is_ordered(p2 * r2, p1 * r1, s);
    }
}

/// Distance monotonicity of the inverse model: moving a source farther from
/// the listener never raises its distance gain.
pub proof fn lemma_inverse_monotone(d1: int, d2: int, radius: int, rolloff: int)
    requires
        0 < radius,
        0 <= rolloff,
        0 <= d1 <= d2,
    ensures
        inverse_gain(d2, radius, rolloff) <= inverse_gain(d1, radius, rolloff),
{
    let s = SCALE as int;
    if d1 <= radius {
        if d2 > radius {
            let inner2 = div_trunc(rolloff * (d2 - radius), s);
            assert(rolloff * (d2 - radius) >= 0) by (nonlinear_arith)
                requires
                    rolloff >= 0,
                    d2 - radius >= 0,
            ;
            lemma_div_trunc_in_range(rolloff * (d2 - radius), s);
            assert(radius * s >= 0) by (nonlinear_arith)
                requires
                    radius >= 0,
                    s >= 0,
            ;
            lemma_div_trunc_monotone(radius * s, radius * s, radius, radius + inner2);
            lemma_div_multiples_vanish(s, radius);
            assert(s * radius == radius * s) by (nonlinear_arith);
        }
    } else {
        let a1 = rolloff * (d1 - radius);
        let a2 = rolloff * (d2 - radius);
        assert(0 <= rolloff * (d1 - radius) <= rolloff * (d2 - radius)) by (nonlinear_arith)
            requires
                rolloff >= 0,
                0 <= d1 - radius <= d2 - radius,
        ;
        lemma_div_trunc_monotone(a1, a2, s, s);
        let inner1 = div_trunc(a1, s);
        let inner2 = div_trunc(a2, s);
        lemma_div_trunc_in_range(a1, s);
        assert(radius * s >= 0) by (nonlinear_arith)
            requires
                radius >= 0,
                s >= 0,
        ;
        lemma_div_trunc_monotone(radius * s, radius * s, radius + inner1, radius + inner2);
    }
}

/// Distance monotonicity of the exponential model: moving a source farther
/// from the listener never raises its distance gain.
pub proof fn lemma_exponent_monotone(d1: int, d2: int, radius: int, rolloff: int)
    requires
        0 < radius,
        0 <= rolloff,
        0 <= d1 <= d2,
    ensures
        exponent_gain(d2, radius, rolloff) <= exponent_gain(d1, radius, rolloff),
{
    let s = SCALE as int;
    let e = div_trunc(rolloff, s) as nat;
    lemma_div_trunc_in_range(rolloff, s);
    if d1 <= radius {
        if d2 > radius {
            let ratio2 = div_trunc(radius * s, d2);
            assert(radius * s >= 0) by (nonlinear_arith)
                requires
                    radius >= 0,
                    s >= 0,
            ;
            lemma_div_trunc_monotone(radius * s, radius * s, radius, d2);
            lemma_div_multiples_vanish(s, radius);
            assert(s * radius == radius * s) by (nonlinear_arith);
            lemma_div_pos_is_pos(radius * s, d2);
            lemma_pow_ratio_bounds(ratio2, e);
        }
    } else {
        assert(radius * s >= 0) by (nonlinear_arith)
            requires
                radius >= 0,
                s >= 0,
        ;
        let ratio1 = div_trunc(radius * s, d1);
        let ratio2 = div_trunc(radius * s, d2);
        lemma_div_trunc_monotone(radius * s, radius * s, d1, d2);
        lemma_div_trunc_monotone(radius * s, radius * s, radius, d1);
        lemma_div_multiples_vanish(s, radius);
        assert(s * radius == radius * s) by (nonlinear_arith);
        lemma_div_pos_is_pos(radius * s, d1);
        lemma_div_pos_is_pos(radius * s, d2);
        lemma_pow_ratio_monotone(ratio1, ratio2, e);
    }
}

/// Compute the attenuation of the selected model at distance `d`.
pub fn distance_gain_for(
    model: DistanceModel,
    d: i64,
    radius: i64,
    max_distance: i64,
    rolloff: i64,
) -> (g: i64)
    requires
        attenuation_args_ok(d as int, radius as int, max_distance as int, rolloff as int),
    ensures
        g == attenuation(model, d as int, radius as int, max_distance as int, rolloff as int),
        0 <= g <= SCALE,
{
    let ghost s_int: int = SCALE as int;
    proof {
        lemma_attenuation_bounds(model, d as int, radius as int, max_distance as int, rolloff as int);
    }
    match model {
        DistanceModel::LinearDistance => {
            if d <= radius || max_distance <= radius {
                SCALE
            } else {
                let dc = clamp_i64(d, radius, max_distance);
                proof {
                    assert((dc - radius) * SCALE <= POS_LIMIT * SCALE) by (nonlinear_arith)
                        requires
                            0 <= dc - radius <= POS_LIMIT,
                    ;
                    assert((dc - radius) * SCALE >= 0) by (nonlinear_arith)
                        requires
                            dc - radius >= 0,
                            SCALE > 0,
                    ;
                }
                let t = div_trunc_i64((dc - radius) * SCALE, max_distance - radius);
                proof {
                    lemma_div_trunc_bound(
                        (dc - radius) * s_int,
                        (max_distance - radius) as int,
                        POS_LIMIT as int * s_int,
                    );
                    lemma_div_trunc_in_range((dc - radius) * s_int, (max_distance - radius) as int);
                    assert((dc - radius) * s_int <= (max_distance - radius) * s_int)
                        by (nonlinear_arith)
                        requires
                            0 <= dc - radius <= max_distance - radius,
                            s_int > 0,
                    ;
                    lemma_div_trunc_monotone(
                        (dc - radius) * s_int,
                        (max_distance - radius) * s_int,
                        (max_distance - radius) as int,
                        (max_distance - radius) as int,
                    );
                    lemma_div_multiples_vanish(s_int, (max_distance - radius) as int);
                    assert((max_distance - radius) * s_int == s_int * (max_distance - radius))
                        by (nonlinear_arith);
                    assert(0 <= t <= SCALE);
                    assert(0 <= rolloff * t <= ROLLOFF_LIMIT * SCALE) by (nonlinear_arith)
                        requires
                            0 <= rolloff <= ROLLOFF_LIMIT,
                            0 <= t <= SCALE,
                    ;
                }
                let fall = div_trunc_i64(rolloff * t, SCALE);
                proof {
                    lemma_div_trunc_bound(rolloff as int * t as int, s_int, ROLLOFF_LIMIT as int * s_int);
                }
                clamp_i64(SCALE - fall, 0, SCALE)
            }
        },
        DistanceModel::InverseDistance => {
            if d <= radius {
                SCALE
            } else {
                proof {
                    assert(0 <= rolloff * (d - radius) <= ROLLOFF_LIMIT * DIST_BOUND)
                        by (nonlinear_arith)
                        requires
                            0 <= rolloff <= ROLLOFF_LIMIT,
                            0 <= d - radius <= DIST_BOUND,
                    ;
                }
                let inner = div_trunc_i64(rolloff * (d - radius), SCALE);
                proof {
                    lemma_div_trunc_bound(
                        rolloff as int * (d - radius) as int,
                        s_int,
                        ROLLOFF_LIMIT as int * DIST_BOUND as int,
                    );
                    lemma_div_trunc_in_range(rolloff as int * (d - radius) as int, s_int);
                    assert(0 <= radius * SCALE <= POS_LIMIT * SCALE) by (nonlinear_arith)
                        requires
                            0 < radius <= POS_LIMIT,
                            SCALE > 0,
                    ;
                }
                div_trunc_i64(radius * SCALE, radius + inner)
            }
        },
        DistanceModel::ExponentDistance => {
            if d <= radius {
                SCALE
            } else {
                proof {
                    assert(0 <= radius * SCALE <= POS_LIMIT * SCALE) by (nonlinear_arith)
                        requires
                            0 < radius <= POS_LIMIT,
                            SCALE > 0,
                    ;
                }
                let ratio = div_trunc_i64(radius * SCALE, d);
                let e = div_trunc_i64(rolloff, SCALE);
                proof {
                    lemma_div_trunc_monotone(radius as int * s_int, radius as int * s_int, radius as int, d as int);
                    lemma_div_multiples_vanish(s_int, radius as int);
                    assert(s_int * radius as int == radius as int * s_int) by (nonlinear_arith);
                    lemma_div_pos_is_pos(radius as int * s_int, d as int);
                    assert(0 <= ratio <= SCALE);
                    lemma_div_trunc_in_range(rolloff as int, s_int);
                }
                let mut g: i64 = SCALE;
                let mut k: i64 = 0;
                while k < e
                    invariant
                        s_int == SCALE as int,
                        0 <= k <= e,
                        e == div_trunc(rolloff as int, s_int),
                        0 <= e <= ROLLOFF_LIMIT,
                        0 <= ratio <= SCALE,
                        g == pow_ratio(ratio as int, k as nat),
                        0 <= g <= SCALE,
                    decreases e - k,
                {
                    proof {
                        assert(0 <= g * ratio <= SCALE * SCALE) by (nonlinear_arith)
                            requires
                                0 <= g <= SCALE,
                                0 <= ratio <= SCALE,
                        ;
                    }
                    let g2 = div_trunc_i64(g * ratio, SCALE);
                    proof {
                        let kk: nat = k as nat;
                        lemma_pow_ratio_bounds(ratio as int, kk + 1);
                        assert(pow_ratio(ratio as int, kk + 1) == div_trunc(
                            pow_ratio(ratio as int, kk) * ratio as int,
                            s_int,
                        ));
                        assert((k + 1) as nat == kk + 1);
                    }
                    g = g2;
                    k = k + 1;
                }
                g
            }
        },
    }
}

} // verus!
