use particle_collider::fixed::{Fixed, LIMIT, SCALE};

#[test]
fn whole_numbers_are_scaled() {
    assert_eq!(Fixed::from_int(3).raw(), 3 * SCALE);
    assert_eq!(Fixed::from_int(-7).raw(), -7 * SCALE);
    assert_eq!(Fixed::zero().raw(), 0);
}

#[test]
fn construction_saturates() {
    assert_eq!(Fixed::from_raw(i64::MAX).raw(), LIMIT);
    assert_eq!(Fixed::from_raw(i64::MIN).raw(), -LIMIT);
    assert_eq!(Fixed::from_int(i64::MAX).raw(), LIMIT);
    assert_eq!(Fixed::from_int(i64::MIN).raw(), -LIMIT);
    assert_eq!(Fixed::from_raw(LIMIT).raw(), LIMIT);
    assert_eq!(Fixed::from_raw(-LIMIT - 1).raw(), -LIMIT);
}

#[test]
fn addition_and_subtraction_are_exact_in_range() {
    let a = Fixed::from_raw(1_500_000);
    let b = Fixed::from_raw(-250_000);
    assert_eq!(a.add(b).raw(), 1_250_000);
    assert_eq!(a.sub(b).raw(), 1_750_000);
    assert_eq!(b.sub(a).raw(), -1_750_000);
}

#[test]
fn addition_and_subtraction_saturate() {
    let top = Fixed::from_raw(LIMIT);
    let one = Fixed::from_int(1);
    assert_eq!(top.add(one).raw(), LIMIT);
    assert_eq!(top.neg().sub(one).raw(), -LIMIT);
    assert_eq!(top.add(top).raw(), LIMIT);
}

#[test]
fn negation_is_exact() {
    assert_eq!(Fixed::from_raw(123).neg().raw(), -123);
    assert_eq!(Fixed::from_raw(-LIMIT).neg().raw(), LIMIT);
    assert_eq!(Fixed::zero().neg().raw(), 0);
}

#[test]
fn multiplication_gives_the_product() {
    let a = Fixed::from_raw(1_500_000);
    let b = Fixed::from_raw(2_500_000);
    assert_eq!(a.mul(b).raw(), 3_750_000);
    assert_eq!(a.neg().mul(b).raw(), -3_750_000);
    assert_eq!(a.mul(Fixed::zero()).raw(), 0);
}

#[test]
fn multiplication_rounds_toward_zero() {
    let third = Fixed::from_raw(333_333);
    assert_eq!(third.mul(third).raw(), 111_110);
    assert_eq!(third.neg().mul(third).raw(), -111_110);
    assert_eq!(Fixed::from_raw(1).mul(Fixed::from_raw(999_999)).raw(), 0);
    assert_eq!(Fixed::from_raw(-1).mul(Fixed::from_raw(999_999)).raw(), 0);
}

#[test]
fn multiplication_saturates() {
    let big = Fixed::from_raw(LIMIT);
    assert_eq!(big.mul(Fixed::from_int(2)).raw(), LIMIT);
    assert_eq!(big.mul(Fixed::from_int(-2)).raw(), -LIMIT);
}

#[test]
fn division_gives_the_quotient() {
    assert_eq!(Fixed::from_int(10).div(Fixed::from_int(4)).raw(), 2_500_000);
    assert_eq!(Fixed::from_int(-10).div(Fixed::from_int(4)).raw(), -2_500_000);
    assert_eq!(Fixed::from_int(10).div(Fixed::from_int(-4)).raw(), -2_500_000);
    assert_eq!(Fixed::from_int(-10).div(Fixed::from_int(-4)).raw(), 2_500_000);
}

#[test]
fn division_rounds_toward_zero() {
    assert_eq!(Fixed::from_int(1).div(Fixed::from_int(3)).raw(), 333_333);
    assert_eq!(Fixed::from_int(-1).div(Fixed::from_int(3)).raw(), -333_333);
    assert_eq!(Fixed::from_int(2).div(Fixed::from_int(-3)).raw(), -666_666);
}

#[test]
fn division_saturates() {
    let tiny = Fixed::from_raw(1);
    assert_eq!(Fixed::from_raw(LIMIT).div(tiny).raw(), LIMIT);
    assert_eq!(Fixed::from_raw(-LIMIT).div(tiny).raw(), -LIMIT);
}

#[test]
fn rounding_sends_halves_away_from_zero() {
    assert_eq!(Fixed::from_raw(500_000).round().raw(), 1_000_000);
    assert_eq!(Fixed::from_raw(-500_000).round().raw(), -1_000_000);
    assert_eq!(Fixed::from_raw(499_999).round().raw(), 0);
    assert_eq!(Fixed::from_raw(-499_999).round().raw(), 0);
    assert_eq!(Fixed::from_raw(2_500_000).round().raw(), 3_000_000);
    assert_eq!(Fixed::from_raw(-1_400_000).round().raw(), -1_000_000);
    assert_eq!(Fixed::from_raw(LIMIT).round().raw(), LIMIT);
    assert_eq!(Fixed::from_raw(-LIMIT).round().raw(), -LIMIT);
}

#[test]
fn minimum_and_maximum() {
    let a = Fixed::from_int(-3);
    let b = Fixed::from_int(2);
    assert_eq!(a.min(b).raw(), -3 * SCALE);
    assert_eq!(a.max(b).raw(), 2 * SCALE);
    assert_eq!(b.min(a).raw(), -3 * SCALE);
    assert_eq!(b.max(a).raw(), 2 * SCALE);
}

#[test]
fn equal_numbers_compare_equal() {
    assert_eq!(Fixed::from_int(5), Fixed::from_raw(5 * SCALE));
    assert_ne!(Fixed::from_int(5), Fixed::from_raw(5 * SCALE + 1));
}

#[test]
fn product_over_divisor_rounds_once() {
    let a = Fixed::from_raw(12_500_000);
    assert_eq!(a.mul_div(Fixed::from_int(1), Fixed::from_int(2)).raw(), 6_250_000);
    // One third of one, times three: a product and a quotient lose a
    // millionth, the fused form does not.
    let one = Fixed::from_int(1);
    let three = Fixed::from_int(3);
    assert_eq!(one.mul_div(one, three).mul(three).raw(), 999_999);
    assert_eq!(Fixed::from_raw(1).mul_div(Fixed::from_raw(1), Fixed::from_raw(2)).raw(), 0);
    assert_eq!(Fixed::from_raw(3).mul_div(Fixed::from_raw(-5), Fixed::from_raw(2)).raw(), -7);
    assert_eq!(Fixed::from_raw(LIMIT).mul_div(three, one).raw(), LIMIT);
    assert_eq!(Fixed::from_raw(LIMIT).mul_div(three, three).raw(), LIMIT);
    assert_eq!(Fixed::from_raw(LIMIT).mul_div(three.neg(), one).raw(), -LIMIT);
}
