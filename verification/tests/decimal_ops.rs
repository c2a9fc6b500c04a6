//! The fixed-point ratio helpers on concrete values.

use prism_hub::dec::{decimal_division, mul_amount, Dec};
use prism_hub::DEC_ONE;

fn dec_ratio(n: u128, d: u128) -> Dec {
    Dec::ratio(n, d).unwrap()
}

#[test]
fn test_decimal_division() {
    let a: u128 = 100;
    let b = dec_ratio(10, 50);
    let res = decimal_division(a, b);
    assert_eq!(res, Some(500));
}

#[test]
fn test_decimal_sumation() {
    let a = dec_ratio(20, 50);
    let b = dec_ratio(10, 50);
    let res = a.checked_add(&b).unwrap();
    assert_eq!(res.raw, 600_000_000_000_000_000);
}

#[test]
fn test_decimal_sumation_in_256() {
    let a = dec_ratio(20, 50);
    let b = dec_ratio(10, 50);
    let res = b.checked_add(&a).unwrap();
    assert_eq!(res.raw, 600_000_000_000_000_000);
}

#[test]
fn ratio_is_exact_fixed_point() {
    assert_eq!(dec_ratio(10, 50).raw, 200_000_000_000_000_000);
    assert_eq!(Dec::one().raw, DEC_ONE);
    assert_eq!(Dec::zero().raw, 0);
    assert!(Dec::ratio(1, 0).is_none());
}

#[test]
fn mul_amount_rounds_down() {
    // 5 * 99/100 floors to 4.
    assert_eq!(mul_amount(5, dec_ratio(99, 100)), Some(4));
    assert_eq!(mul_amount(1000, dec_ratio(9, 10)), Some(900));
    // An overflowing product is refused, not saturated.
    assert_eq!(mul_amount(u128::MAX, dec_ratio(3, 1)), None);
}

#[test]
fn division_by_tiny_ratio_fails() {
    // A divisor that rounds to zero at nine fractional digits is refused.
    let tiny = Dec { raw: 1 };
    assert_eq!(decimal_division(100, tiny), None);
}

#[test]
fn test_decimal_multiplication() {
    let a = dec_ratio(100, 1);
    let b = dec_ratio(1_111_111, 10_000_000);
    let res = a.checked_mul(&b).unwrap();
    // 100 * 0.1111111 == 11.11111
    assert_eq!(res.raw, 11_111_110_000_000_000_000);
}

#[test]
fn test_decimal_multiplication_in_256() {
    let a = dec_ratio(100, 1);
    let b = dec_ratio(1_111_111, 10_000_000);
    let res = b.checked_mul(&a).unwrap();
    assert_eq!(res.raw, 11_111_110_000_000_000_000);
}

#[test]
fn test_decimal_subtraction() {
    let a = dec_ratio(20, 50);
    let b = dec_ratio(10, 50);
    let res = a.checked_sub(&b).unwrap();
    assert_eq!(res.raw, 200_000_000_000_000_000);
}

#[test]
fn test_decimal_subtraction_in_256() {
    let a = dec_ratio(20, 50);
    let b = dec_ratio(10, 50);
    let res = a.checked_sub(&b).unwrap();
    assert_eq!(res.raw, 200_000_000_000_000_000);
    // the difference is never clamped: a negative result is refused
    assert!(b.checked_sub(&a).is_none());
}
