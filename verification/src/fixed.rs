//! Fixed-point scalars.
//!
//! Every quantity of the renderer (coordinates, ray parameters, colour
//! channels, probabilities) is an [`Fp`]: a signed decimal fixed-point number
//! with nine fractional digits. All operations are total. A result that does
//! not fit is clamped to the largest or smallest representable value, and a
//! quotient or product that is not representable exactly is rounded towards
//! zero, so that negation commutes with every operation.

use vstd::prelude::*;

verus! {

/// Raw units per whole unit: `Fp { raw: SCALE }` is the number one.
pub const SCALE: i64 = 1_000_000_000;

/// Largest raw magnitude that an operation produces.
pub const RAW_MAX: i64 = 0x7fff_ffff_ffff_ffff;

/// A fixed-point number whose value is `raw / SCALE`.
#[derive(Clone, Copy, Debug, PartialEq, Eq, PartialOrd, Ord, Hash, Structural)]
pub struct Fp {
    pub raw: i64,
}

/// The number with the given raw value.
pub open spec fn fp(raw: int) -> Fp {
    Fp { raw: raw as i64 }
}

/// Clamps an integer into the symmetric raw range.
pub open spec fn sat(x: int) -> int {
    if x > RAW_MAX {
        RAW_MAX as int
    } else if x < -RAW_MAX {
        -RAW_MAX
    } else {
        x
    }
}

/// Quotient rounded towards zero, for a positive divisor.
pub open spec fn tdiv(a: int, b: int) -> int
    recommends
        b > 0,
{
    if a >= 0 {
        a / b
    } else {
        -((-a) / b)
    }
}

/// Raw value of the product of two raw values.
pub open spec fn mul_raw(a: int, b: int) -> int {
    sat(tdiv(a * b, SCALE as int))
}

/// Raw value of the quotient of two raw values. Division by zero saturates in
/// the direction of the dividend's sign, and zero by zero is zero.
pub open spec fn div_raw(a: int, b: int) -> int {
    if b == 0 {
        if a > 0 {
            RAW_MAX as int
        } else if a < 0 {
            -RAW_MAX
        } else {
            0
        }
    } else if b > 0 {
        sat(tdiv(a * SCALE, b))
    } else {
        sat(-tdiv(a * SCALE, -b))
    }
}

/// `r` is the integer square root of `n`, rounded down.
pub open spec fn is_floor_sqrt(n: int, r: int) -> bool {
    0 <= r && r * r <= n && n < (r + 1) * (r + 1)
}

/// The integer square root of `n`, rounded down (for `n >= 0`).
pub closed spec fn floor_sqrt(n: int) -> int {
    choose|r: int| is_floor_sqrt(n, r)
}

/// Raw value of the square root of a raw value; zero for a negative one.
pub open spec fn sqrt_raw(a: int) -> int {
    if a <= 0 {
        0
    } else {
        floor_sqrt(a * SCALE)
    }
}

/// Largest integer not above `raw / SCALE`.
pub open spec fn floor_raw(a: int) -> int {
    a / (SCALE as int)
}

/// At most one integer is the floor square root of `n`.
pub proof fn lemma_floor_sqrt_unique(n: int, r1: int, r2: int)
    requires
        is_floor_sqrt(n, r1),
        is_floor_sqrt(n, r2),
    ensures
        r1 == r2,
{
    if r1 < r2 {
        assert((r1 + 1) * (r1 + 1) <= r2 * r2) by (nonlinear_arith)
            requires
                0 <= r1,
                r1 + 1 <= r2,
        ;
    } else if r2 < r1 {
        assert((r2 + 1) * (r2 + 1) <= r1 * r1) by (nonlinear_arith)
            requires
                0 <= r2,
                r2 + 1 <= r1,
        ;
    }
}

/// Whatever satisfies `is_floor_sqrt` is the value of `floor_sqrt`.
pub proof fn lemma_floor_sqrt_is(n: int, r: int)
    requires
        is_floor_sqrt(n, r),
    ensures
        floor_sqrt(n) == r,
{
    let c = choose|c: int| is_floor_sqrt(n, c);
    lemma_floor_sqrt_unique(n, r, c);
}

/// The floor square root is monotone.
pub proof fn lemma_floor_sqrt_bounds(n: int, r: int, bound: int)
    requires
        is_floor_sqrt(n, r),
        0 <= bound,
        n < bound * bound,
    ensures
        r < bound,
{
    if r >= bound {
        assert(bound * bound <= r * r) by (nonlinear_arith)
            requires
                0 <= bound,
                bound <= r,
        ;
    }
}

/// Every natural number has a floor square root.
pub proof fn lemma_floor_sqrt_exists(n: int)
    requires
        n >= 0,
    ensures
        is_floor_sqrt(n, floor_sqrt(n)),
    decreases n,
{
    if n == 0 {
        assert(is_floor_sqrt(0, 0));
    } else {
        lemma_floor_sqrt_exists(n - 1);
        let r = floor_sqrt(n - 1);
        if n < (r + 1) * (r + 1) {
            assert(is_floor_sqrt(n, r));
        } else {
            assert((r + 1) * (r + 1) < (r + 2) * (r + 2)) by (nonlinear_arith)
                requires
                    r >= 0,
            ;
            assert(is_floor_sqrt(n, r + 1));
        }
    }
}

/// A square root is not negative and stays far below the largest raw
/// value.
pub proof fn lemma_sqrt_range(a: Fp)
    ensures
        0 <= a.spec_sqrt().raw < 0x8000_0000_0000,
        sqrt_raw(a.raw as int) == a.spec_sqrt().raw,
{
    if a.raw > 0 {
        let n = a.raw as int * SCALE;
        assert(0 <= n < 0x4000_0000_0000_0000_0000_0000) by (nonlinear_arith)
            requires
                n == a.raw as int * 1_000_000_000,
                0 < a.raw <= 0x7fff_ffff_ffff_ffff,
        ;
        lemma_floor_sqrt_exists(n);
        assert(0x8000_0000_0000int * 0x8000_0000_0000int == 0x4000_0000_0000_0000_0000_0000int)
            by (nonlinear_arith);
        lemma_floor_sqrt_bounds(n, floor_sqrt(n), 0x8000_0000_0000);
    }
}

/// The square root of a number of `[0, 1]` lies in `[0, 1]`, and is zero
/// for zero only.
pub proof fn lemma_sqrt_of_fraction(a: Fp)
    requires
        0 <= a.raw <= SCALE,
    ensures
        0 <= a.spec_sqrt().raw <= SCALE,
        a.raw > 0 ==> a.spec_sqrt().raw > 0,
{
    if a.raw > 0 {
        let s = SCALE as int;
        let n = a.raw as int * s;
        assert(s <= n <= s * s) by (nonlinear_arith)
            requires
                n == a.raw as int * s,
                0 < a.raw <= s,
                s > 0,
        ;
        lemma_floor_sqrt_exists(n);
        assert(n < (s + 1) * (s + 1)) by (nonlinear_arith)
            requires
                n <= s * s,
                s > 0,
        ;
        lemma_floor_sqrt_bounds(n, floor_sqrt(n), s + 1);
        lemma_sqrt_range(a);
        let r = floor_sqrt(n);
        assert(r > 0) by (nonlinear_arith)
            requires
                r >= 0,
                n < (r + 1) * (r + 1),
                n >= 1,
        ;
    }
}

/// Integer square root by bisection.
pub fn isqrt(n: u128) -> (r: u128)
    ensures
        is_floor_sqrt(n as int, r as int),
        r == floor_sqrt(n as int),
        r < 0x1_0000_0000_0000_0000,
        n < 0x4000_0000_0000_0000_0000_0000 ==> r < 0x8000_0000_0000,
{
    let mut lo: u128 = 0;
    let mut hi: u128 = 0x1_0000_0000_0000_0000;
    assert(0x1_0000_0000_0000_0000int * 0x1_0000_0000_0000_0000int
        == 0x1_0000_0000_0000_0000_0000_0000_0000_0000int) by (nonlinear_arith);
    while hi - lo > 1
        invariant
            lo < hi,
            hi <= 0x1_0000_0000_0000_0000,
            lo * lo <= n,
            n < hi * hi,
        decreases hi - lo,
    {
        let mid: u128 = lo + (hi - lo) / 2;
        assert(mid * mid <= 0xffff_ffff_ffff_ffff * 0xffff_ffff_ffff_ffff) by (nonlinear_arith)
            requires
                mid <= 0xffff_ffff_ffff_ffff,
        ;
        assert(0xffff_ffff_ffff_ffffint * 0xffff_ffff_ffff_ffffint
            < 0x1_0000_0000_0000_0000_0000_0000_0000_0000int) by (nonlinear_arith);
        if mid * mid <= n {
            lo = mid;
        } else {
            hi = mid;
        }
    }
    proof {
        assert(hi == lo + 1);
        lemma_floor_sqrt_is(n as int, lo as int);
        if n < 0x4000_0000_0000_0000_0000_0000 {
            assert(0x8000_0000_0000int * 0x8000_0000_0000int
                == 0x4000_0000_0000_0000_0000_0000int) by (nonlinear_arith);
            lemma_floor_sqrt_bounds(n as int, lo as int, 0x8000_0000_0000);
        }
    }
    lo
}

/// Magnitude of a raw value.
pub fn magnitude(a: i64) -> (r: u128)
    ensures
        r == if a < 0 {
            -(a as int)
        } else {
            a as int
        },
        r <= 0x8000_0000_0000_0000,
{
    if a < 0 {
        (-(a as i128)) as u128
    } else {
        a as u128
    }
}

/// The quotient of a number over a wide one, given by its sign and its
/// magnitude, whose unit is the square of the raw unit: the raw quotient
/// of the number's raw value times the scale over the wide number.
pub fn over_wide(num: Fp, negative: bool, den: u128) -> (r: Fp)
    ensures
        r == fp(
            div_raw(
                num.raw * SCALE,
                if negative {
                    -(den as int)
                } else {
                    den as int
                },
            ),
        ),
{
    let ghost a = num.raw as int * SCALE as int;
    let ghost b = if negative {
        -(den as int)
    } else {
        den as int
    };
    proof {
        assert((num.raw > 0 ==> a > 0) && (num.raw < 0 ==> a < 0) && (num.raw == 0 ==> a == 0))
            by (nonlinear_arith)
            requires
                a == num.raw as int * 1_000_000_000,
        ;
    }
    if den == 0 {
        if num.raw > 0 {
            Fp { raw: RAW_MAX }
        } else if num.raw < 0 {
            Fp { raw: -RAW_MAX }
        } else {
            Fp { raw: 0 }
        }
    } else {
        let m = magnitude(num.raw);
        assert(m * 1_000_000_000 * 1_000_000_000 <= 0x8000_0000_0000_0000
            * 1_000_000_000_000_000_000) by (nonlinear_arith)
            requires
                m <= 0x8000_0000_0000_0000,
        ;
        let wide = m * (SCALE as u128) * (SCALE as u128);
        let q = wide / den;
        proof {
            lemma_quotient_magnitude(a, b);
            let ma = if a < 0 {
                -a
            } else {
                a
            };
            assert(ma == m * 1_000_000_000) by (nonlinear_arith)
                requires
                    a == num.raw as int * 1_000_000_000,
                    m == if num.raw < 0 {
                        -(num.raw as int)
                    } else {
                        num.raw as int
                    },
                    ma == if a < 0 {
                        -a
                    } else {
                        a
                    },
            ;
        }
        Fp { raw: signed_sat((num.raw < 0) != negative, q) }
    }
}

/// Gives a magnitude its sign and clamps it into the raw range.
pub fn signed_sat(negative: bool, m: u128) -> (r: i64)
    ensures
        r == sat(
            if negative {
                -(m as int)
            } else {
                m as int
            },
        ),
{
    if m >= RAW_MAX as u128 {
        if negative {
            -RAW_MAX
        } else {
            RAW_MAX
        }
    } else if negative {
        -(m as i64)
    } else {
        m as i64
    }
}

/// Clamps a wide integer into the raw range.
fn sat_wide(x: i128) -> (r: i64)
    ensures
        r == sat(x as int),
{
    if x > RAW_MAX as i128 {
        RAW_MAX
    } else if x < -(RAW_MAX as i128) {
        -RAW_MAX
    } else {
        x as i64
    }
}

impl Fp {
    /// Sum, clamped.
    pub open spec fn spec_add(self, o: Fp) -> Fp {
        Fp { raw: sat(self.raw + o.raw) as i64 }
    }

    /// Difference, clamped.
    pub open spec fn spec_sub(self, o: Fp) -> Fp {
        Fp { raw: sat(self.raw - o.raw) as i64 }
    }

    /// Product, rounded towards zero and clamped.
    pub open spec fn spec_mul(self, o: Fp) -> Fp {
        Fp { raw: mul_raw(self.raw as int, o.raw as int) as i64 }
    }

    /// Quotient, rounded towards zero and clamped.
    pub open spec fn spec_div(self, o: Fp) -> Fp {
        Fp { raw: div_raw(self.raw as int, o.raw as int) as i64 }
    }

    /// Negation, clamped.
    pub open spec fn spec_neg(self) -> Fp {
        Fp { raw: sat(-self.raw) as i64 }
    }

    /// Absolute value, clamped.
    pub open spec fn spec_abs(self) -> Fp {
        if self.raw < 0 {
            self.spec_neg()
        } else {
            self
        }
    }

    /// The smaller of two numbers.
    pub open spec fn spec_min(self, o: Fp) -> Fp {
        if o.raw < self.raw {
            o
        } else {
            self
        }
    }

    /// The larger of two numbers.
    pub open spec fn spec_max(self, o: Fp) -> Fp {
        if o.raw > self.raw {
            o
        } else {
            self
        }
    }

    /// Square root, rounded down; zero for a negative number.
    pub open spec fn spec_sqrt(self) -> Fp {
        Fp { raw: sqrt_raw(self.raw as int) as i64 }
    }

    /// The number with every raw unit counted in `[lo, hi]`.
    pub open spec fn spec_clamp(self, lo: Fp, hi: Fp) -> Fp {
        if self.raw < lo.raw {
            lo
        } else if self.raw > hi.raw {
            hi
        } else {
            self
        }
    }

    /// Whether the raw value lies in the symmetric range that every operation
    /// produces.
    pub open spec fn in_range(self) -> bool {
        -RAW_MAX <= self.raw
    }

    /// The whole number `i`.
    pub open spec fn spec_from_int(i: int) -> Fp {
        Fp { raw: (i * SCALE) as i64 }
    }

    /// The number `m / 1000`.
    pub open spec fn spec_from_milli(m: int) -> Fp {
        Fp { raw: (m * 1_000_000) as i64 }
    }

    pub fn from_raw(raw: i64) -> (r: Fp)
        ensures
            r.raw == raw,
    {
        Fp { raw }
    }

    pub fn zero() -> (r: Fp)
        ensures
            r.raw == 0,
    {
        Fp { raw: 0 }
    }

    pub fn one() -> (r: Fp)
        ensures
            r.raw == SCALE,
    {
        Fp { raw: SCALE }
    }

    /// The largest number, which stands for an unbounded ray parameter.
    pub fn max_value() -> (r: Fp)
        ensures
            r.raw == RAW_MAX,
    {
        Fp { raw: RAW_MAX }
    }

    pub fn from_int(i: i32) -> (r: Fp)
        ensures
            r == Fp::spec_from_int(i as int),
            r.raw == i * SCALE,
    {
        assert(-0x8000_0000 * 1_000_000_000 <= i * SCALE <= 0x8000_0000 * 1_000_000_000)
            by (nonlinear_arith)
            requires
                -0x8000_0000 <= i <= 0x8000_0000,
                SCALE == 1_000_000_000,
        ;
        Fp { raw: (i as i64) * SCALE }
    }

    /// The number `m / 1000`, for writing decimal constants.
    pub fn from_milli(m: i32) -> (r: Fp)
        ensures
            r == Fp::spec_from_milli(m as int),
            r.raw == m * 1_000_000,
    {
        Fp { raw: (m as i64) * 1_000_000 }
    }

    /// The whole number `n`, clamped.
    pub open spec fn spec_from_count(n: int) -> Fp {
        Fp { raw: sat(n * SCALE) as i64 }
    }

    /// A count as a number; the largest number where the count exceeds it.
    pub fn from_count(n: usize) -> (r: Fp)
        ensures
            r == Fp::spec_from_count(n as int),
    {
        assert(n * 1_000_000_000 <= 0xffff_ffff_ffff_ffff * 1_000_000_000) by (nonlinear_arith)
            requires
                n <= 0xffff_ffff_ffff_ffff,
        ;
        let wide: u128 = (n as u128) * (SCALE as u128);
        if wide > RAW_MAX as u128 {
            Fp { raw: RAW_MAX }
        } else {
            Fp { raw: wide as i64 }
        }
    }

    pub fn add(self, o: Fp) -> (r: Fp)
        ensures
            r == self.spec_add(o),
    {
        Fp { raw: sat_wide(self.raw as i128 + o.raw as i128) }
    }

    pub fn sub(self, o: Fp) -> (r: Fp)
        ensures
            r == self.spec_sub(o),
    {
        Fp { raw: sat_wide(self.raw as i128 - o.raw as i128) }
    }

    pub fn neg(self) -> (r: Fp)
        ensures
            r == self.spec_neg(),
    {
        Fp { raw: sat_wide(-(self.raw as i128)) }
    }

    pub fn abs(self) -> (r: Fp)
        ensures
            r == self.spec_abs(),
    {
        if self.raw < 0 {
            self.neg()
        } else {
            self
        }
    }

    pub fn mul(self, o: Fp) -> (r: Fp)
        ensures
            r == self.spec_mul(o),
    {
        let ma = magnitude(self.raw);
        let mb = magnitude(o.raw);
        let negative = (self.raw < 0) != (o.raw < 0);
        proof {
            lemma_product_magnitude(self.raw as int, o.raw as int);
            assert(ma * mb <= 0x8000_0000_0000_0000 * 0x8000_0000_0000_0000) by (nonlinear_arith)
                requires
                    ma <= 0x8000_0000_0000_0000,
                    mb <= 0x8000_0000_0000_0000,
            ;
        }
        let q = (ma * mb) / (SCALE as u128);
        Fp { raw: signed_sat(negative, q) }
    }

    pub fn div(self, o: Fp) -> (r: Fp)
        ensures
            r == self.spec_div(o),
    {
        if o.raw == 0 {
            if self.raw > 0 {
                Fp { raw: RAW_MAX }
            } else if self.raw < 0 {
                Fp { raw: -RAW_MAX }
            } else {
                Fp { raw: 0 }
            }
        } else {
            let ma = magnitude(self.raw);
            let mb = magnitude(o.raw);
            let negative = (self.raw < 0) != (o.raw < 0);
            assert(ma * 1_000_000_000 <= 0x8000_0000_0000_0000 * 1_000_000_000)
                by (nonlinear_arith)
                requires
                    ma <= 0x8000_0000_0000_0000,
            ;
            let q = (ma * (SCALE as u128)) / mb;
            proof {
                lemma_quotient_magnitude(self.raw as int, o.raw as int);
            }
            Fp { raw: signed_sat(negative, q) }
        }
    }

    pub fn sqrt(self) -> (r: Fp)
        ensures
            r == self.spec_sqrt(),
            r.raw >= 0,
    {
        if self.raw <= 0 {
            Fp { raw: 0 }
        } else {
            let n: u128 = (self.raw as u128) * (SCALE as u128);
            let root = isqrt(n);
            Fp { raw: root as i64 }
        }
    }

    pub fn min(self, o: Fp) -> (r: Fp)
        ensures
            r == self.spec_min(o),
    {
        if o.raw < self.raw {
            o
        } else {
            self
        }
    }

    pub fn max(self, o: Fp) -> (r: Fp)
        ensures
            r == self.spec_max(o),
    {
        if o.raw > self.raw {
            o
        } else {
            self
        }
    }

    pub fn clamp(self, lo: Fp, hi: Fp) -> (r: Fp)
        ensures
            r == self.spec_clamp(lo, hi),
    {
        if self.raw < lo.raw {
            lo
        } else if self.raw > hi.raw {
            hi
        } else {
            self
        }
    }

    pub fn lt(self, o: Fp) -> (r: bool)
        ensures
            r == (self.raw < o.raw),
    {
        self.raw < o.raw
    }

    pub fn le(self, o: Fp) -> (r: bool)
        ensures
            r == (self.raw <= o.raw),
    {
        self.raw <= o.raw
    }

    pub fn gt(self, o: Fp) -> (r: bool)
        ensures
            r == (self.raw > o.raw),
    {
        self.raw > o.raw
    }

    pub fn ge(self, o: Fp) -> (r: bool)
        ensures
            r == (self.raw >= o.raw),
    {
        self.raw >= o.raw
    }

    /// Largest whole number not above the value.
    pub fn floor(self) -> (r: i64)
        ensures
            r == floor_raw(self.raw as int),
    {
        if self.raw >= 0 {
            self.raw / SCALE
        } else {
            let m: u128 = magnitude(self.raw);
            let q: u128 = (m + (SCALE as u128 - 1)) / (SCALE as u128);
            proof {
                lemma_floor_negative(self.raw as int);
            }
            -(q as i64)
        }
    }
}

/// The product of two magnitudes is the magnitude of the product, and its
/// sign is negative only where the signs differ.
pub proof fn lemma_product_magnitude(a: int, b: int)
    ensures
        ({
            let ma = if a < 0 { -a } else { a };
            let mb = if b < 0 { -b } else { b };
            let differ = (a < 0) != (b < 0);
            &&& ma * mb >= 0
            &&& differ ==> a * b == -(ma * mb)
            &&& !differ ==> a * b == ma * mb
        }),
{
    let ma = if a < 0 { -a } else { a };
    let mb = if b < 0 { -b } else { b };
    assert(ma * mb >= 0) by (nonlinear_arith)
        requires
            ma >= 0,
            mb >= 0,
    ;
    assert((-a) * b == -(a * b)) by (nonlinear_arith);
    assert(a * (-b) == -(a * b)) by (nonlinear_arith);
    assert((-a) * (-b) == a * b) by (nonlinear_arith);
}

/// The truncated quotient by magnitudes, with the sign put back, is the raw
/// quotient before clamping.
pub proof fn lemma_quotient_magnitude(a: int, b: int)
    requires
        b != 0,
    ensures
        ({
            let ma = if a < 0 { -a } else { a };
            let mb = if b < 0 { -b } else { b };
            let differ = (a < 0) != (b < 0);
            let q = (ma * SCALE) / mb;
            div_raw(a, b) == sat(if differ { -q } else { q })
        }),
{
    let ma = if a < 0 { -a } else { a };
    assert((-a) * SCALE == -(a * SCALE)) by (nonlinear_arith);
    assert(ma * SCALE >= 0) by (nonlinear_arith)
        requires
            ma >= 0,
            SCALE > 0,
    ;
    if a == 0 {
        assert(a * SCALE == 0);
    } else if a > 0 {
        assert(a * SCALE > 0) by (nonlinear_arith)
            requires
                a > 0,
                SCALE > 0,
        ;
    } else {
        assert(a * SCALE < 0) by (nonlinear_arith)
            requires
                a < 0,
                SCALE > 0,
        ;
    }
}

/// For a negative raw value, the floor is minus the ceiling of the magnitude.
pub proof fn lemma_floor_negative(a: int)
    requires
        a < 0,
    ensures
        floor_raw(a) == -((-a + (SCALE - 1)) / (SCALE as int)),
{
    let s = SCALE as int;
    let q = a / s;
    let r = a % s;
    assert(a == s * q + r && 0 <= r < s) by {
        vstd::arithmetic::div_mod::lemma_fundamental_div_mod(a, s);
        vstd::arithmetic::div_mod::lemma_mod_bound(a, s);
    }
    let m = -a + (s - 1);
    assert(m == s * (-q) + (s - 1 - r));
    vstd::arithmetic::div_mod::lemma_fundamental_div_mod_converse(m, s, -q, s - 1 - r);
}

} // verus!
