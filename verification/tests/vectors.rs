use raytracer::fixed::{Fp, SCALE};
use raytracer::vecmath::{cross, dot, Color3U8, Vec3, Vec3F};

fn v(x: i32, y: i32, z: i32) -> Vec3F {
    Vec3::new(Fp::from_milli(x), Fp::from_milli(y), Fp::from_milli(z))
}

#[test]
fn componentwise_operations() {
    let a = v(1000, -2000, 3500);
    let b = v(500, 250, -1000);
    assert_eq!(a.add(b), v(1500, -1750, 2500));
    assert_eq!(a.sub(b), v(500, -2250, 4500));
    assert_eq!(a.mul(b), v(500, -500, -3500));
    assert_eq!(a.scale(Fp::from_int(2)), v(2000, -4000, 7000));
    assert_eq!(a.div(Fp::from_int(2)), v(500, -1000, 1750));
    assert_eq!(a.neg(), v(-1000, 2000, -3500));
    assert_eq!(Vec3F::zero(), v(0, 0, 0));
}

#[test]
fn dot_and_cross_products() {
    let a = v(1000, 2000, 3000);
    let b = v(-4000, 5000, 500);
    assert_eq!(dot(&a, &b), Fp::from_milli(7500));
    assert_eq!(cross(&a, &b), v(-14_000, -12_500, 13_000));
    assert_eq!(cross(&v(1000, 0, 0), &v(0, 1000, 0)), v(0, 0, 1000));
    assert_eq!(dot(&a, &cross(&a, &b)), Fp::zero());
}

#[test]
fn length_of_a_pythagorean_vector() {
    let a = v(3000, 4000, 0);
    assert_eq!(a.length_squared(), Fp::from_int(25));
    assert_eq!(a.length(), Fp::from_int(5));
    assert_eq!(a.normalized(), v(600, 800, 0));
}

#[test]
fn normalized_vectors_have_unit_length() {
    for i in 1..50 {
        let a = v(37 * i - 900, 1000 - 91 * i, 13 * i * i - 400);
        let n = a.normalized();
        let len = n.length().raw;
        assert!((len - SCALE).abs() < 10, "length {} of {:?}", len, n);
    }
}

#[test]
fn short_vectors_have_their_length_and_their_unit_vector() {
    let short = Vec3::new(Fp::zero(), Fp::from_raw(40_000), Fp::zero());
    assert_eq!(short.length(), Fp::from_raw(40_000));
    assert_eq!(short.normalized(), v(0, 1000, 0));
    let least = Vec3::new(Fp::from_raw(1), Fp::from_raw(-1), Fp::zero());
    assert_eq!(least.length(), Fp::from_raw(1));
    assert_eq!(least.normalized(), Vec3::new(Fp::from_raw(707_106_781), Fp::from_raw(-707_106_781), Fp::zero()));
    let three = Vec3::new(Fp::from_raw(3), Fp::from_raw(0), Fp::from_raw(-4));
    assert_eq!(three.length(), Fp::from_raw(5));
    assert_eq!(three.normalized(), v(600, 0, -800));
    for i in 1..200i64 {
        let a = Vec3::new(Fp::from_raw(i * i - 90), Fp::from_raw(17 - i), Fp::from_raw(3 * i));
        let len = a.normalized().length().raw;
        assert!((len - SCALE).abs() <= 4, "length {} of the unit vector of {:?}", len, a);
    }
}

#[test]
fn long_vectors_have_their_length_and_their_unit_vector() {
    let long = Vec3::new(Fp::from_int(3_000_000), Fp::from_int(-4_000_000), Fp::zero());
    assert_eq!(long.length(), Fp::from_int(5_000_000));
    assert_eq!(long.normalized(), v(600, -800, 0));
    // The rounded square of this length is clamped, the length is not.
    assert_eq!(long.length_squared(), Fp::max_value());
    let longest = Vec3::new(Fp::max_value(), Fp::max_value().neg(), Fp::max_value());
    assert_eq!(longest.length(), Fp::max_value());
    assert_eq!(longest.normalized(), Vec3::new(Fp::from_raw(577_350_269), Fp::from_raw(-577_350_269), Fp::from_raw(577_350_269)));
    assert_eq!(long.in_lengths(Fp::from_int(10_000_000)), Fp::from_int(2));
    assert_eq!(Vec3F::zero().in_lengths(Fp::one()), Fp::max_value());
    assert_eq!(Vec3F::zero().in_lengths(Fp::zero()), Fp::zero());
}

#[test]
fn the_zero_vector_stays_zero_when_normalized() {
    assert_eq!(Vec3F::zero().normalized(), Vec3F::zero());
}

#[test]
fn approximately_zero() {
    assert!(Vec3F::zero().approx_zero());
    assert!(Vec3::new(Fp::from_raw(9), Fp::from_raw(-9), Fp::from_raw(0)).approx_zero());
    assert!(!Vec3::new(Fp::from_raw(10), Fp::from_raw(0), Fp::from_raw(0)).approx_zero());
    assert!(!Vec3::new(Fp::from_raw(0), Fp::from_raw(0), Fp::from_raw(-10)).approx_zero());
}

#[test]
fn colours_to_bytes_and_back() {
    let white: Color3U8 = Vec3::new(255, 255, 255);
    assert_eq!(white.to_color(), v(1000, 1000, 1000));
    let grey: Color3U8 = Vec3::new(0, 51, 102);
    assert_eq!(grey.to_color(), v(0, 200, 400));
    assert_eq!(v(1000, 500, 0).to_bytes(), Vec3::new(255, 127, 0));
    assert_eq!(v(2000, -500, 999).to_bytes(), Vec3::new(255, 0, 254));
    for b in 0..=255u8 {
        let c: Color3U8 = Vec3::new(b, b, b);
        let back = c.to_color().to_bytes();
        assert!(back.x == b || back.x + 1 == b, "byte {} came back as {}", b, back.x);
    }
}

#[test]
fn arrays_and_vectors() {
    let a: Color3U8 = Vec3::from_array([1, 2, 3]);
    assert_eq!(a, Vec3::new(1, 2, 3));
    assert_eq!(a.to_array(), [1, 2, 3]);
}

#[test]
fn operators_are_the_saturating_operations() {
    let a = v(1000, -2000, 3500);
    let b = v(500, 250, -1000);
    let two = Fp::from_int(2);
    assert_eq!(a + b, a.add(b));
    assert_eq!(a - b, a.sub(b));
    assert_eq!(a * b, a.mul(b));
    assert_eq!(a * two, a.scale(two));
    assert_eq!(two * a, a.scale(two));
    assert_eq!(a / two, a.div(two));
    assert_eq!(-a, a.neg());
    assert_eq!(two + two, Fp::from_int(4));
    assert_eq!(two - Fp::one(), Fp::one());
    assert_eq!(two * two, Fp::from_int(4));
    assert_eq!(Fp::one() / two, Fp::from_milli(500));
    assert_eq!(-two, Fp::from_int(-2));
    assert_eq!(Fp::max_value() + Fp::max_value(), Fp::max_value());
    assert_eq!(Fp::one() / Fp::zero(), Fp::max_value());
}

#[test]
fn conversions_between_bytes_and_colours() {
    let bytes: Color3U8 = Vec3::new(255, 51, 0);
    let colour = Vec3F::from(bytes);
    assert_eq!(colour, v(1000, 200, 0));
    assert_eq!(Color3U8::from(colour), bytes);
    assert_eq!(Color3U8::from([1, 2, 3]), Vec3::new(1, 2, 3));
    let from_array: Vec3F = [Fp::one(), Fp::zero(), Fp::one()].into();
    assert_eq!(from_array, v(1000, 0, 1000));
}
