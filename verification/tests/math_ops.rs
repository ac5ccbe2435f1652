//! Tests of the fixed-point arithmetic helpers.

use rg3d::math::{clamp_i64, div_trunc_i64, isqrt_u64, SCALE};

#[test]
fn truncating_division_rounds_toward_zero() {
    assert_eq!(div_trunc_i64(7, 2), 3);
    assert_eq!(div_trunc_i64(-7, 2), -3);
    assert_eq!(div_trunc_i64(0, 5), 0);
    assert_eq!(div_trunc_i64(SCALE, SCALE), 1);
    assert_eq!(div_trunc_i64(i64::MIN, 1), i64::MIN);
}

#[test]
fn integer_square_roots() {
    assert_eq!(isqrt_u64(0), 0);
    assert_eq!(isqrt_u64(1), 1);
    assert_eq!(isqrt_u64(24), 4);
    assert_eq!(isqrt_u64(25), 5);
    assert_eq!(isqrt_u64(u64::MAX), 4294967295);
}

#[test]
fn clamping() {
    assert_eq!(clamp_i64(5, 0, 10), 5);
    assert_eq!(clamp_i64(-5, 0, 10), 0);
    assert_eq!(clamp_i64(50, 0, 10), 10);
}
