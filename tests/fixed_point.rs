use pid_control::{Fixed, SCALE};

fn micros(raw: i64) -> Fixed {
    Fixed { raw }
}

#[test]
fn from_int_scales_by_one_million() {
    assert_eq!(1_000_000, SCALE);
    assert_eq!(-42_000_000, Fixed::from_int(-42).raw);
    assert_eq!(i32::MAX as i64 * SCALE, Fixed::from_int(i32::MAX).raw);
}

#[test]
fn products_round_toward_zero() {
    assert_eq!(micros(3_750_000), micros(1_500_000).times(micros(2_500_000)));
    assert_eq!(micros(0), micros(1).times(micros(500_000)));
    assert_eq!(micros(0), micros(-1).times(micros(500_000)));
    assert_eq!(micros(-1), micros(-3).times(micros(500_000)));
}

#[test]
fn quotients_round_toward_zero() {
    assert_eq!(micros(333_333), micros(1_000_000).over(micros(3_000_000)));
    assert_eq!(micros(-333_333), micros(-1_000_000).over(micros(3_000_000)));
    assert_eq!(micros(10_000), Fixed::from_int(10).over(Fixed::from_int(1000)));
}

#[test]
fn arithmetic_saturates_symmetrically() {
    assert_eq!(micros(i64::MAX), micros(i64::MAX).plus(micros(1)));
    assert_eq!(micros(-i64::MAX), micros(-i64::MAX).minus(micros(1)));
    assert_eq!(micros(i64::MAX), micros(i64::MIN).negate());
    assert_eq!(micros(-i64::MAX), micros(i64::MAX).times(micros(-i64::MAX)));
    assert_eq!(micros(i64::MAX), micros(i64::MAX).over(micros(1)));
}

#[test]
fn sums_and_differences_are_exact_in_range() {
    assert_eq!(micros(1_100_000), micros(1_000_000).plus(micros(100_000)));
    assert_eq!(micros(-900_000), micros(100_000).minus(micros(1_000_000)));
    assert_eq!(micros(-7), micros(7).negate());
    assert_eq!(micros(0), Fixed::zero());
}
