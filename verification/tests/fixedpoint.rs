use linreg::fixed::{fx_add, fx_div, fx_mul, fx_sqrt, fx_sub, SCALE};

#[test]
fn scale_is_one_million() {
    assert_eq!(SCALE, 1_000_000);
}

#[test]
fn mul_exact_values() {
    // 1.5 * 2.0 == 3.0
    assert_eq!(fx_mul(1_500_000, 2_000_000), 3_000_000);
    // (-1.5) * 2.0 == -3.0
    assert_eq!(fx_mul(-1_500_000, 2_000_000), -3_000_000);
    // 2.0 * 2.0 == 4.0
    assert_eq!(fx_mul(2_000_000, 2_000_000), 4_000_000);
}

#[test]
fn mul_truncates_toward_zero() {
    // 1e-6 * 1e-6 is far below one raw unit.
    assert_eq!(fx_mul(1, 1), 0);
    // -0.999999 truncates to 0, not to -1.
    assert_eq!(fx_mul(-1, 999_999), 0);
}

#[test]
fn div_exact_values() {
    // 3.0 / 2.0 == 1.5
    assert_eq!(fx_div(3_000_000, 2_000_000), 1_500_000);
    // -1e-6 / 3.0 truncates toward zero.
    assert_eq!(fx_div(-1, 3_000_000), 0);
}

#[test]
fn add_sub_saturate() {
    assert_eq!(fx_add(i64::MAX, 1), i64::MAX);
    assert_eq!(fx_sub(i64::MIN, 1), i64::MIN);
    assert_eq!(fx_mul(i64::MAX, 2_000_000), i64::MAX);
    assert_eq!(fx_mul(i64::MIN, 2_000_000), i64::MIN);
}

#[test]
fn add_sub_exact_values() {
    assert_eq!(fx_add(1_250_000, 2_750_000), 4_000_000);
    assert_eq!(fx_sub(1_250_000, 2_750_000), -1_500_000);
}

#[test]
fn sqrt_exact_values() {
    // sqrt(4.0) == 2.0
    assert_eq!(fx_sqrt(4_000_000), 2_000_000);
    // sqrt(2.0) == 1.414213...
    assert_eq!(fx_sqrt(2_000_000), 1_414_213);
    assert_eq!(fx_sqrt(0), 0);
    // sqrt(1e-6) == 1e-3
    assert_eq!(fx_sqrt(1), 1_000);
    // sqrt(1.0) == 1.0
    assert_eq!(fx_sqrt(1_000_000), 1_000_000);
}
