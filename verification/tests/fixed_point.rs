use raytracer::fixed::{isqrt, Fp, RAW_MAX, SCALE};

#[test]
fn product_rounds_towards_zero() {
    let a = Fp::from_raw(1_500_000_001);
    let b = Fp::from_raw(-500_000_000);
    assert_eq!(a.mul(b).raw, -750_000_000);
    assert_eq!(b.mul(a).raw, -750_000_000);
    assert_eq!(a.neg().mul(b).raw, 750_000_000);
}

#[test]
fn quotient_rounds_towards_zero() {
    assert_eq!(Fp::from_int(1).div(Fp::from_int(3)).raw, 333_333_333);
    assert_eq!(Fp::from_int(-1).div(Fp::from_int(3)).raw, -333_333_333);
    assert_eq!(Fp::from_int(1).div(Fp::from_int(-3)).raw, -333_333_333);
    assert_eq!(Fp::from_int(-1).div(Fp::from_int(-3)).raw, 333_333_333);
    assert_eq!(Fp::from_int(80).div(Fp::from_int(180)).raw, 444_444_444);
}

#[test]
fn division_by_zero_saturates() {
    let zero = Fp::zero();
    assert_eq!(Fp::one().div(zero).raw, RAW_MAX);
    assert_eq!(Fp::one().neg().div(zero).raw, -RAW_MAX);
    assert_eq!(zero.div(zero).raw, 0);
}

#[test]
fn sums_and_products_saturate() {
    let max = Fp::max_value();
    assert_eq!(max.add(Fp::one()).raw, RAW_MAX);
    assert_eq!(max.neg().sub(Fp::one()).raw, -RAW_MAX);
    assert_eq!(max.mul(max).raw, RAW_MAX);
    assert_eq!(max.mul(max.neg()).raw, -RAW_MAX);
    assert_eq!(Fp::from_raw(i64::MIN).neg().raw, RAW_MAX);
    assert_eq!(Fp::from_raw(i64::MIN).abs().raw, RAW_MAX);
}

#[test]
fn square_root_of_two() {
    assert_eq!(Fp::from_int(2).sqrt().raw, 1_414_213_562);
    assert_eq!(Fp::from_int(4).sqrt().raw, 2 * SCALE);
    assert_eq!(Fp::from_int(-2).sqrt().raw, 0);
    assert_eq!(Fp::zero().sqrt().raw, 0);
    assert_eq!(Fp::from_raw(1).sqrt().raw, 31_622);
}

#[test]
fn square_root_of_the_largest_number() {
    let root = Fp::max_value().sqrt();
    let r = root.raw as i128;
    let n = (RAW_MAX as i128) * (SCALE as i128);
    assert!(r * r <= n);
    assert!((r + 1) * (r + 1) > n);
}

#[test]
fn integer_square_root_rounds_down() {
    assert_eq!(isqrt(0), 0);
    assert_eq!(isqrt(1), 1);
    assert_eq!(isqrt(99), 9);
    assert_eq!(isqrt(100), 10);
    assert_eq!(isqrt(1_000_000_000_000_000_000), 1_000_000_000);
    assert_eq!(isqrt(999_999_999_999_999_999), 999_999_999);
}

#[test]
fn floor_goes_down_for_negative_numbers() {
    assert_eq!(Fp::from_milli(1500).floor(), 1);
    assert_eq!(Fp::from_milli(-1500).floor(), -2);
    assert_eq!(Fp::from_milli(-1000).floor(), -1);
    assert_eq!(Fp::from_raw(-1).floor(), -1);
    assert_eq!(Fp::from_raw(0).floor(), 0);
    assert_eq!(Fp::from_raw(i64::MIN).floor(), -9_223_372_037);
}

#[test]
fn constructors_scale_their_argument() {
    assert_eq!(Fp::from_int(-3).raw, -3 * SCALE);
    assert_eq!(Fp::from_milli(700).raw, 700_000_000);
    assert_eq!(Fp::from_milli(-100_500).raw, -100_500_000_000);
    assert_eq!(Fp::from_count(7).raw, 7 * SCALE);
    assert_eq!(Fp::from_count(usize::MAX).raw, RAW_MAX);
    assert_eq!(Fp::one().raw, SCALE);
}

#[test]
fn comparisons_and_clamping() {
    let a = Fp::from_milli(250);
    let b = Fp::from_milli(750);
    assert!(a.lt(b) && a.le(b) && b.gt(a) && b.ge(a));
    assert!(!a.lt(a) && a.le(a) && a.ge(a) && !a.gt(a));
    assert_eq!(a.min(b), a);
    assert_eq!(a.max(b), b);
    assert_eq!(Fp::from_int(2).clamp(a, b), b);
    assert_eq!(Fp::from_int(-2).clamp(a, b), a);
    assert_eq!(Fp::from_milli(500).clamp(a, b), Fp::from_milli(500));
    assert_eq!(Fp::from_milli(-500).abs(), Fp::from_milli(500));
}
