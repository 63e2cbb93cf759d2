use gridsol::error::GridError;
use gridsol::math::{calc_fee_u64, mul_div_u64, sum_u64_slice, u128_to_u64};

#[test]
fn test_mul_div_u64_basic() {
    let out = mul_div_u64(3, 10, 2).expect("ok");
    assert_eq!(out, 15);
}

#[test]
fn test_mul_div_u64_reject_zero_denom() {
    let err = mul_div_u64(1, 1, 0).expect_err("must fail");
    assert_eq!(err, GridError::MathOverflow);
}

#[test]
fn test_calc_fee_u64_basic() {
    let fee = calc_fee_u64(10_000, 100).expect("ok");
    assert_eq!(fee, 100);
}

#[test]
fn test_calc_fee_u64_zero_fee() {
    let fee = calc_fee_u64(10_000, 0).expect("ok");
    assert_eq!(fee, 0);
}

#[test]
fn test_sum_u64_slice_basic() {
    let total = sum_u64_slice(&[1, 2, 3, 4]).expect("ok");
    assert_eq!(total, 10);
}

#[test]
fn test_sum_u64_slice_overflow() {
    let err = sum_u64_slice(&[u64::MAX, 1]).expect_err("must fail");
    assert_eq!(err, GridError::MathOverflow);
}

#[test]
fn sum_of_empty_slice_is_zero() {
    assert_eq!(sum_u64_slice(&[]), Ok(0));
}

#[test]
fn mul_div_rounds_down_and_uses_wide_intermediate() {
    assert_eq!(mul_div_u64(7, 1, 2), Ok(3));
    assert_eq!(mul_div_u64(u64::MAX, u64::MAX, u64::MAX), Ok(u64::MAX));
    assert_eq!(mul_div_u64(u64::MAX, 2, 1), Err(GridError::MathOverflow));
}

#[test]
fn calc_fee_overflows_only_past_u64() {
    assert_eq!(calc_fee_u64(u64::MAX, 10_000), Ok(u64::MAX));
    assert_eq!(calc_fee_u64(u64::MAX, 10_001), Err(GridError::MathOverflow));
    assert_eq!(calc_fee_u64(99, 100), Ok(0));
}

#[test]
fn u128_narrowing() {
    assert_eq!(u128_to_u64(u64::MAX as u128), Ok(u64::MAX));
    assert_eq!(u128_to_u64(u64::MAX as u128 + 1), Err(GridError::MathOverflow));
}
