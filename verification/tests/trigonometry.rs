use raytracer::fixed::{Fp, SCALE};
use raytracer::trig::{
    acos_half_turns, atan2_turns, atan_unit, cos_turns, pi, sin_cos_turns, sin_turns,
    tan_half_turns,
};

fn to_float(x: Fp) -> f64 {
    x.raw as f64 / SCALE as f64
}

fn from_float(x: f64) -> Fp {
    Fp::from_raw((x * SCALE as f64).round() as i64)
}

#[test]
fn sine_and_cosine_at_the_quarter_turns() {
    assert_eq!(sin_turns(Fp::zero()).raw, 0);
    assert_eq!(cos_turns(Fp::zero()).raw, SCALE);
    assert_eq!(sin_turns(Fp::from_milli(500)).raw, 0);
    assert_eq!(cos_turns(Fp::from_milli(500)).raw, -SCALE);
    assert_eq!(cos_turns(Fp::from_milli(250)).raw, 0);
    assert_eq!(sin_turns(Fp::from_milli(250)).raw, SCALE);
    assert_eq!(sin_turns(Fp::from_milli(750)).raw, -SCALE);
}

#[test]
fn sine_and_cosine_follow_the_real_functions() {
    for i in -2000..2000 {
        let t = i as f64 / 1000.0 + 0.000123;
        let (s, c) = sin_cos_turns(from_float(t));
        let angle = t * 2.0 * std::f64::consts::PI;
        assert!((to_float(s) - angle.sin()).abs() < 2e-8, "sin at {}", t);
        assert!((to_float(c) - angle.cos()).abs() < 2e-8, "cos at {}", t);
        assert!(s.raw.abs() <= SCALE && c.raw.abs() <= SCALE);
    }
}

#[test]
fn sine_is_periodic() {
    let t = Fp::from_raw(123_456_789);
    assert_eq!(sin_turns(t), sin_turns(t.add(Fp::from_int(3))));
    assert_eq!(cos_turns(t), cos_turns(t.sub(Fp::from_int(5))));
}

#[test]
fn tangent_of_an_eighth_turn_is_one() {
    let t = tan_half_turns(Fp::from_milli(250));
    assert!((to_float(t) - 1.0).abs() < 1e-8);
    assert_eq!(tan_half_turns(Fp::zero()).raw, 0);
    let third = tan_half_turns(from_float(1.0 / 3.0));
    assert!((to_float(third) - 3f64.sqrt()).abs() < 1e-7);
}

#[test]
fn arctangent_on_the_unit_interval() {
    for i in 0..=1000 {
        let a = i as f64 / 1000.0;
        assert!((to_float(atan_unit(from_float(a))) - a.atan()).abs() < 5e-8, "atan at {}", a);
    }
}

#[test]
fn angle_of_a_point_in_every_quadrant() {
    let one = Fp::one();
    let zero = Fp::zero();
    assert_eq!(atan2_turns(zero, zero).raw, 0);
    assert_eq!(atan2_turns(zero, one).raw, 0);
    assert!((to_float(atan2_turns(one, zero)) - 0.25).abs() < 1e-8);
    assert!((to_float(atan2_turns(zero, one.neg())) - 0.5).abs() < 1e-8);
    assert!((to_float(atan2_turns(one.neg(), zero)) + 0.25).abs() < 1e-8);
    for i in 0..360 {
        let angle = (i as f64 + 0.5 - 180.0).to_radians();
        let t = atan2_turns(from_float(2.5 * angle.sin()), from_float(2.5 * angle.cos()));
        assert!((to_float(t) - angle / (2.0 * std::f64::consts::PI)).abs() < 2e-8, "at {}", i);
        assert!(t.raw.abs() <= SCALE / 2);
    }
}

#[test]
fn arccosine_in_half_turns() {
    assert_eq!(acos_half_turns(Fp::one()).raw, 0);
    assert!((to_float(acos_half_turns(Fp::zero())) - 0.5).abs() < 1e-8);
    assert!((to_float(acos_half_turns(Fp::one().neg())) - 1.0).abs() < 1e-8);
    assert_eq!(acos_half_turns(Fp::from_int(7)).raw, 0);
    for i in -100..=100 {
        let x = i as f64 / 100.0;
        let got = to_float(acos_half_turns(from_float(x)));
        assert!((got - x.acos() / std::f64::consts::PI).abs() < 2e-5, "acos at {}", x);
        assert!((0.0..=1.0).contains(&got));
    }
}

#[test]
fn pi_to_nine_digits() {
    assert_eq!(pi().raw, 3_141_592_654);
}

#[test]
fn values_to_the_last_digit() {
    let (s, c) = sin_cos_turns(Fp::from_milli(125));
    assert_eq!((s.raw, c.raw), (707_106_781, 707_106_782));
    let (s, c) = sin_cos_turns(Fp::from_milli(100));
    assert_eq!((s.raw, c.raw), (587_785_252, 809_016_996));
    assert_eq!(tan_half_turns(Fp::from_milli(250)).raw, 999_999_998);
    assert_eq!(tan_half_turns(Fp::from_milli(100)).raw, 324_919_695);
    assert_eq!(atan2_turns(Fp::one(), Fp::one()).raw, 124_999_999);
    assert_eq!(atan2_turns(Fp::from_int(-3), Fp::from_int(4)).raw, -102_416_383);
    assert_eq!(acos_half_turns(Fp::from_milli(500)).raw, 333_333_334);
    assert_eq!(acos_half_turns(Fp::zero()).raw, 500_000_000);
}
