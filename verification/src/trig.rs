//! Trigonometry on fixed-point numbers.
//!
//! Angles that the renderer handles are fractions of a turn, so the functions
//! here take and return turns (or half turns) and never a multiple of pi.
//! Sine and cosine are truncated power series on one quarter turn, the
//! arctangent is a degree-seventeen polynomial on the unit interval; each is
//! specified by the very polynomial, evaluated in fixed-point arithmetic.
//! How far the polynomials lie from the functions that they stand for is
//! not proved. Proved are the ranges of the results, the period, and the
//! values at the quarter turns and on the axes, which are exact.

use crate::fixed::{fp, Fp, SCALE};
use vstd::prelude::*;

verus! {

/// Pi, to nine digits.
pub const PI_RAW: i64 = 3_141_592_654;

/// A quarter turn in radians.
pub const HALF_PI_RAW: i64 = 1_570_796_327;

/// A full turn in radians.
pub const TWO_PI_RAW: i64 = 6_283_185_307;

/// Pi as a fixed-point number.
pub fn pi() -> (r: Fp)
    ensures
        r.raw == PI_RAW,
{
    Fp::from_raw(PI_RAW)
}

/// One step of a power series in nested form: `1 - (y / k) * acc`.
pub open spec fn spec_series_step(y: Fp, k: int, acc: Fp) -> Fp {
    fp(SCALE as int).spec_sub(y.spec_div(Fp::spec_from_int(k)).spec_mul(acc))
}

fn series_step(y: Fp, k: i32, acc: Fp) -> (r: Fp)
    ensures
        r == spec_series_step(y, k as int, acc),
{
    Fp::one().sub(y.div(Fp::from_int(k)).mul(acc))
}

/// The series of the sine of `x` radians up to the thirteenth power,
/// clamped to `[-1, 1]`. It is evaluated on a quarter turn only.
pub open spec fn spec_sin_series(x: Fp) -> Fp {
    let y = x.spec_mul(x);
    let one = fp(SCALE as int);
    let a6 = spec_series_step(y, 156, one);
    let a5 = spec_series_step(y, 110, a6);
    let a4 = spec_series_step(y, 72, a5);
    let a3 = spec_series_step(y, 42, a4);
    let a2 = spec_series_step(y, 20, a3);
    let a1 = spec_series_step(y, 6, a2);
    x.spec_mul(a1).spec_clamp(one.spec_neg(), one)
}

/// The series of the cosine of `x` radians up to the fourteenth power,
/// clamped to `[-1, 1]`. It is evaluated on a quarter turn only.
pub open spec fn spec_cos_series(x: Fp) -> Fp {
    let y = x.spec_mul(x);
    let one = fp(SCALE as int);
    let a7 = spec_series_step(y, 182, one);
    let a6 = spec_series_step(y, 132, a7);
    let a5 = spec_series_step(y, 90, a6);
    let a4 = spec_series_step(y, 56, a5);
    let a3 = spec_series_step(y, 30, a4);
    let a2 = spec_series_step(y, 12, a3);
    let a1 = spec_series_step(y, 2, a2);
    a1.spec_clamp(one.spec_neg(), one)
}

pub fn sin_series(x: Fp) -> (r: Fp)
    ensures
        r == spec_sin_series(x),
        -SCALE <= r.raw <= SCALE,
{
    let y = x.mul(x);
    let one = Fp::one();
    let a6 = series_step(y, 156, one);
    let a5 = series_step(y, 110, a6);
    let a4 = series_step(y, 72, a5);
    let a3 = series_step(y, 42, a4);
    let a2 = series_step(y, 20, a3);
    let a1 = series_step(y, 6, a2);
    x.mul(a1).clamp(one.neg(), one)
}

pub fn cos_series(x: Fp) -> (r: Fp)
    ensures
        r == spec_cos_series(x),
        -SCALE <= r.raw <= SCALE,
{
    let y = x.mul(x);
    let one = Fp::one();
    let a7 = series_step(y, 182, one);
    let a6 = series_step(y, 132, a7);
    let a5 = series_step(y, 90, a6);
    let a4 = series_step(y, 56, a5);
    let a3 = series_step(y, 30, a4);
    let a2 = series_step(y, 12, a3);
    let a1 = series_step(y, 2, a2);
    a1.clamp(one.neg(), one)
}

/// The part of `t` turns within one turn, as a raw value in `[0, SCALE)`.
pub open spec fn turn_fraction(t: Fp) -> int {
    (t.raw as int) % (SCALE as int)
}

/// Sine and cosine of `t` turns: the angle is reduced to one turn, then to a
/// quarter turn, where the series are evaluated, and the quadrant gives the
/// signs.
pub open spec fn spec_sin_cos_turns(t: Fp) -> (Fp, Fp) {
    let r = turn_fraction(t);
    let quadrant = (4 * r) / (SCALE as int);
    let x = fp((4 * r) % (SCALE as int)).spec_mul(fp(HALF_PI_RAW as int));
    let s = spec_sin_series(x);
    let c = spec_cos_series(x);
    if quadrant == 0 {
        (s, c)
    } else if quadrant == 1 {
        (c, s.spec_neg())
    } else if quadrant == 2 {
        (s.spec_neg(), c.spec_neg())
    } else {
        (c.spec_neg(), s)
    }
}

pub open spec fn spec_sin_turns(t: Fp) -> Fp {
    spec_sin_cos_turns(t).0
}

pub open spec fn spec_cos_turns(t: Fp) -> Fp {
    spec_sin_cos_turns(t).1
}

/// Sine and cosine of an angle given in turns.
pub fn sin_cos_turns(t: Fp) -> (r: (Fp, Fp))
    ensures
        r == spec_sin_cos_turns(t),
        -SCALE <= r.0.raw <= SCALE,
        -SCALE <= r.1.raw <= SCALE,
{
    // Ten thousand million turns lift every raw value above zero.
    let lifted: i128 = (t.raw as i128) + 10_000_000_000_000_000_000i128;
    let frac: i128 = lifted % (SCALE as i128);
    proof {
        assert(10_000_000_000_000_000_000int == 10_000_000_000int * SCALE);
        vstd::arithmetic::div_mod::lemma_mod_multiples_vanish(
            10_000_000_000int,
            t.raw as int,
            SCALE as int,
        );
        assert(frac == turn_fraction(t));
    }
    let four: i128 = 4 * frac;
    let quadrant: i128 = four / (SCALE as i128);
    let rest: i64 = (four % (SCALE as i128)) as i64;
    let x = Fp::from_raw(rest).mul(Fp::from_raw(HALF_PI_RAW));
    let s = sin_series(x);
    let c = cos_series(x);
    if quadrant == 0 {
        (s, c)
    } else if quadrant == 1 {
        (c, s.neg())
    } else if quadrant == 2 {
        (s.neg(), c.neg())
    } else {
        (c.neg(), s)
    }
}

pub fn sin_turns(t: Fp) -> (r: Fp)
    ensures
        r == spec_sin_turns(t),
        -SCALE <= r.raw <= SCALE,
{
    sin_cos_turns(t).0
}

pub fn cos_turns(t: Fp) -> (r: Fp)
    ensures
        r == spec_cos_turns(t),
        -SCALE <= r.raw <= SCALE,
{
    sin_cos_turns(t).1
}

/// Tangent of `h` half turns: sine over cosine.
pub open spec fn spec_tan_half_turns(h: Fp) -> Fp {
    let t = h.spec_div(Fp::spec_from_int(2));
    spec_sin_turns(t).spec_div(spec_cos_turns(t))
}

pub fn tan_half_turns(h: Fp) -> (r: Fp)
    ensures
        r == spec_tan_half_turns(h),
{
    let (s, c) = sin_cos_turns(h.div(Fp::from_int(2)));
    s.div(c)
}

/// One step of a polynomial in nested form: `acc * y + c`.
pub open spec fn spec_poly_step(acc: Fp, y: Fp, c: int) -> Fp {
    acc.spec_mul(y).spec_add(fp(c))
}

fn poly_step(acc: Fp, y: Fp, c: i64) -> (r: Fp)
    ensures
        r == spec_poly_step(acc, y, c as int),
{
    acc.mul(y).add(Fp::from_raw(c))
}

/// An odd polynomial of degree seventeen that stands for the arctangent in
/// radians. It is evaluated on `[0, 1]` only.
pub open spec fn spec_atan_unit(a: Fp) -> Fp {
    let y = a.spec_mul(a);
    let q8 = fp(2_866_226);
    let q7 = spec_poly_step(q8, y, -16_165_737);
    let q6 = spec_poly_step(q7, y, 42_909_614);
    let q5 = spec_poly_step(q6, y, -75_289_640);
    let q4 = spec_poly_step(q5, y, 106_562_639);
    let q3 = spec_poly_step(q4, y, -142_088_994);
    let q2 = spec_poly_step(q3, y, 199_935_508);
    let q1 = spec_poly_step(q2, y, -333_331_453);
    let q0 = spec_poly_step(q1, y, 1_000_000_000);
    a.spec_mul(q0)
}

pub fn atan_unit(a: Fp) -> (r: Fp)
    ensures
        r == spec_atan_unit(a),
{
    let y = a.mul(a);
    let q8 = Fp::from_raw(2_866_226);
    let q7 = poly_step(q8, y, -16_165_737);
    let q6 = poly_step(q7, y, 42_909_614);
    let q5 = poly_step(q6, y, -75_289_640);
    let q4 = poly_step(q5, y, 106_562_639);
    let q3 = poly_step(q4, y, -142_088_994);
    let q2 = poly_step(q3, y, 199_935_508);
    let q1 = poly_step(q2, y, -333_331_453);
    let q0 = poly_step(q1, y, 1_000_000_000);
    a.mul(q0)
}

/// The angle of the point `(x, y)` in turns, in `[-1/2, 1/2]`; zero at the
/// origin. The smaller coordinate over the larger goes through the
/// arctangent, and the octant gives the rest.
pub open spec fn spec_atan2_turns(y: Fp, x: Fp) -> Fp {
    let ax = x.spec_abs();
    let ay = y.spec_abs();
    if x.raw == 0 && y.raw == 0 {
        fp(0)
    } else {
        let first = if ay.raw <= ax.raw {
            spec_atan_unit(ay.spec_div(ax))
        } else {
            fp(HALF_PI_RAW as int).spec_sub(spec_atan_unit(ax.spec_div(ay)))
        };
        let upper = if x.raw < 0 {
            fp(PI_RAW as int).spec_sub(first)
        } else {
            first
        };
        let turns = upper.spec_div(fp(TWO_PI_RAW as int)).spec_clamp(
            fp(0),
            fp(SCALE as int / 2),
        );
        if y.raw < 0 {
            turns.spec_neg()
        } else {
            turns
        }
    }
}

pub fn atan2_turns(y: Fp, x: Fp) -> (r: Fp)
    ensures
        r == spec_atan2_turns(y, x),
        -SCALE / 2 <= r.raw <= SCALE / 2,
        y.raw >= 0 ==> r.raw >= 0,
{
    let ax = x.abs();
    let ay = y.abs();
    if x.raw == 0 && y.raw == 0 {
        Fp::zero()
    } else {
        let first = if ay.raw <= ax.raw {
            atan_unit(ay.div(ax))
        } else {
            Fp::from_raw(HALF_PI_RAW).sub(atan_unit(ax.div(ay)))
        };
        let upper = if x.raw < 0 {
            Fp::from_raw(PI_RAW).sub(first)
        } else {
            first
        };
        let turns = upper.div(Fp::from_raw(TWO_PI_RAW)).clamp(
            Fp::zero(),
            Fp::from_raw(SCALE / 2),
        );
        if y.raw < 0 {
            turns.neg()
        } else {
            turns
        }
    }
}

/// The arccosine of `x` in half turns, in `[0, 1]`: the angle of the point
/// `(x, sqrt(1 - x * x))`, with `x` clamped to `[-1, 1]`.
pub open spec fn spec_acos_half_turns(x: Fp) -> Fp {
    let one = fp(SCALE as int);
    let c = x.spec_clamp(one.spec_neg(), one);
    let s = one.spec_sub(c.spec_mul(c)).spec_sqrt();
    spec_atan2_turns(s, c).spec_mul(Fp::spec_from_int(2))
}

pub fn acos_half_turns(x: Fp) -> (r: Fp)
    ensures
        r == spec_acos_half_turns(x),
        0 <= r.raw <= SCALE,
{
    let one = Fp::one();
    let c = x.clamp(one.neg(), one);
    let s = one.sub(c.mul(c)).sqrt();
    let half = atan2_turns(s, c);
    let r = half.mul(Fp::from_int(2));
    proof {
        lemma_double(half);
    }
    r
}

/// Doubling a number of at most a half gives that number twice.
proof fn lemma_double(h: Fp)
    requires
        0 <= h.raw <= SCALE / 2,
    ensures
        h.spec_mul(Fp::spec_from_int(2)).raw == 2 * h.raw,
{
    let s = SCALE as int;
    let r = h.raw as int;
    assert(r * (2 * s) == (2 * r) * s) by (nonlinear_arith);
    assert(((2 * r) * s) / s == 2 * r) by (nonlinear_arith)
        requires
            s > 0,
    ;
    assert((2 * r) * s >= 0) by (nonlinear_arith)
        requires
            r >= 0,
            s > 0,
    ;
}

/// Without an angle the series give the sine zero and the cosine one.
pub proof fn lemma_series_at_zero()
    ensures
        spec_sin_series(fp(0)) == fp(0),
        spec_cos_series(fp(0)) == fp(SCALE as int),
{
    let zero = fp(0);
    let one = fp(SCALE as int);
    assert(0int * 0int == 0);
    assert(zero.spec_mul(zero) == zero);
    assert forall|k: int, acc: Fp| 0 < k <= 200 implies #[trigger] spec_series_step(zero, k, acc)
        == one by {
        assert(0int * SCALE == 0);
        let q = zero.spec_div(Fp::spec_from_int(k));
        assert(q == zero);
        assert(0int * (acc.raw as int) == 0);
    }
    assert(0int * SCALE == 0);
}

/// At a whole number of quarter turns sine and cosine are exact: zero, one
/// or minus one, as the quadrant says.
pub proof fn lemma_quarter_turns(t: Fp)
    requires
        (t.raw as int) % 250_000_000 == 0,
    ensures
        ({
            let quadrant = (turn_fraction(t) * 4) / (SCALE as int);
            let one = fp(SCALE as int);
            let zero = fp(0);
            spec_sin_cos_turns(t) == if quadrant == 0 {
                (zero, one)
            } else if quadrant == 1 {
                (one, zero)
            } else if quadrant == 2 {
                (zero, fp(-SCALE))
            } else {
                (fp(-SCALE), zero)
            }
        }),
{
    lemma_series_at_zero();
    let r = turn_fraction(t);
    assert(r % 250_000_000 == 0 && 0 <= r < SCALE);
    assert((4 * r) % (SCALE as int) == 0);
    assert(0int * HALF_PI_RAW == 0);
    assert(fp(0).spec_mul(fp(HALF_PI_RAW as int)) == fp(0));
}

/// Sine and cosine have the period of one turn.
pub proof fn lemma_period(t: Fp, u: Fp)
    requires
        (u.raw - t.raw) % (SCALE as int) == 0,
    ensures
        spec_sin_cos_turns(t) == spec_sin_cos_turns(u),
{
    assert(turn_fraction(t) == turn_fraction(u)) by {
        let k = (u.raw - t.raw) / (SCALE as int);
        assert(u.raw == t.raw + k * SCALE);
        vstd::arithmetic::div_mod::lemma_mod_multiples_vanish(k, t.raw as int, SCALE as int);
    }
}

/// Sine and cosine lie in `[-1, 1]`.
pub proof fn lemma_sin_cos_range(t: Fp)
    ensures
        -SCALE <= spec_sin_turns(t).raw <= SCALE,
        -SCALE <= spec_cos_turns(t).raw <= SCALE,
{
}

/// A point on the positive x axis has the angle zero.
pub proof fn lemma_angle_of_the_x_axis(x: Fp)
    requires
        x.raw > 0,
    ensures
        spec_atan2_turns(fp(0), x) == fp(0),
{
    assert(0int * SCALE == 0);
    assert(fp(0).spec_div(x) == fp(0));
    assert(0int * 0int == 0);
    assert(spec_atan_unit(fp(0)) == fp(0));
}

} // verus!
