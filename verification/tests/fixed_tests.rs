use backtest::fixed::{div_trunc, isqrt, SCALE};

#[test]
fn division_rounds_toward_zero() {
    assert_eq!(div_trunc(7, 2), 3);
    assert_eq!(div_trunc(-7, 2), -3);
    assert_eq!(div_trunc(7, -2), -3);
    assert_eq!(div_trunc(-7, -2), 3);
    assert_eq!(div_trunc(6, 3), 2);
    assert_eq!(div_trunc(0, 5), 0);
    assert_eq!(div_trunc(1, 5), 0);
    assert_eq!(div_trunc(-1, 5), 0);
}

#[test]
fn division_by_zero_is_zero() {
    assert_eq!(div_trunc(7, 0), 0);
    assert_eq!(div_trunc(-7, 0), 0);
    assert_eq!(div_trunc(0, 0), 0);
}

#[test]
fn division_at_the_limits() {
    assert_eq!(div_trunc(i128::MAX, 1), i128::MAX);
    assert_eq!(div_trunc(i128::MAX, -1), -i128::MAX);
    assert_eq!(div_trunc(-i128::MAX, i128::MAX), -1);
}

#[test]
fn square_root_is_rounded_down() {
    assert_eq!(isqrt(0), 0);
    assert_eq!(isqrt(1), 1);
    assert_eq!(isqrt(3), 1);
    assert_eq!(isqrt(4), 2);
    assert_eq!(isqrt(99), 9);
    assert_eq!(isqrt(100), 10);
    assert_eq!(isqrt(2_000_000_000_000), 1_414_213);
    assert_eq!(isqrt(u128::MAX), u64::MAX as u128);
    assert_eq!(isqrt((u64::MAX as u128) * (u64::MAX as u128)), u64::MAX as u128);
    assert_eq!(isqrt((u64::MAX as u128) * (u64::MAX as u128) - 1), u64::MAX as u128 - 1);
}

#[test]
fn one_unit_is_a_million() {
    assert_eq!(SCALE, 1_000_000);
}
