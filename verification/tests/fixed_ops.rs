use raytrace::fixed::{fx_add, fx_div, fx_mul, fx_neg, fx_sqrt, fx_sub, FX_MAX, HALF, ONE, TWO};

#[test]
fn fx_mul_exact_halves() {
    assert_eq!(fx_mul(HALF, HALF), ONE / 4);
    assert_eq!(fx_mul(ONE, ONE), ONE);
    assert_eq!(fx_mul(TWO, HALF), ONE);
    assert_eq!(fx_mul(-ONE, ONE), -ONE);
    assert_eq!(fx_mul(0, 12345), 0);
}

#[test]
fn fx_mul_truncates_toward_zero() {
    // 1/65536 * 1/65536 is far below one step and truncates to zero
    assert_eq!(fx_mul(1, 1), 0);
    assert_eq!(fx_mul(-1, 1), 0);
    // 0.5 * 0.70000... = 0.35 rounds toward zero in both signs
    assert_eq!(fx_mul(HALF, 45875), 22937);
    assert_eq!(fx_mul(-HALF, 45875), -22937);
}

#[test]
fn fx_mul_saturates() {
    assert_eq!(fx_mul(FX_MAX, FX_MAX), FX_MAX);
    assert_eq!(fx_mul(-FX_MAX, FX_MAX), -FX_MAX);
}

#[test]
fn fx_div_exact_values() {
    assert_eq!(fx_div(ONE, TWO), HALF);
    assert_eq!(fx_div(ONE, ONE), ONE);
    assert_eq!(fx_div(-ONE, TWO), -HALF);
    assert_eq!(fx_div(ONE, -TWO), -HALF);
    assert_eq!(fx_div(0, 7), 0);
}

#[test]
fn fx_sqrt_exact_values() {
    assert_eq!(fx_sqrt(0), 0);
    assert_eq!(fx_sqrt(ONE), ONE);
    assert_eq!(fx_sqrt(ONE / 4), HALF);
    assert_eq!(fx_sqrt(4 * ONE), TWO);
    // sqrt(2) = 1.41421356...; floor(sqrt(2) * 65536) = 92681
    assert_eq!(fx_sqrt(TWO), 92681);
}

#[test]
fn fx_add_sub_neg_saturate() {
    assert_eq!(fx_add(ONE, ONE), TWO);
    assert_eq!(fx_sub(ONE, TWO), -ONE);
    assert_eq!(fx_neg(HALF), -HALF);
    assert_eq!(fx_add(FX_MAX, FX_MAX), FX_MAX);
    assert_eq!(fx_sub(-FX_MAX, FX_MAX), -FX_MAX);
    assert_eq!(fx_neg(i64::MIN), FX_MAX);
}
