//! Three-component vectors over fixed-point numbers and bytes.

use crate::fixed::{
    div_raw, floor_raw, floor_sqrt, fp, is_floor_sqrt, isqrt, lemma_floor_sqrt_bounds,
    lemma_floor_sqrt_exists, magnitude, sat, signed_sat, tdiv, Fp, RAW_MAX, SCALE,
};
use vstd::prelude::*;

verus! {

/// A vector of three components of one type.
#[derive(Clone, Copy, Debug, PartialEq, Eq, Structural)]
pub struct Vec3<T: Copy> {
    pub x: T,
    pub y: T,
    pub z: T,
}

pub type Vec3F = Vec3<Fp>;

pub type Color3F = Vec3<Fp>;

pub type Color3U8 = Vec3<u8>;

/// A vector whose components are all below this in raw size is lifted by
/// this factor before its length is taken for a unit vector, so that the
/// length keeps its digits.
pub const LIFT: i64 = 0x8000_0000;

/// Raw threshold below which a component counts as zero: `1e-8`.
pub const APPROX_ZERO_RAW: i64 = 10;

/// The byte that a colour channel quantises to: the channel times 255,
/// rounded towards zero and clamped to a byte.
pub open spec fn channel_to_byte(c: Fp) -> u8 {
    let scaled = c.spec_mul(Fp::spec_from_int(255));
    if scaled.raw < 0 {
        0u8
    } else if floor_raw(scaled.raw as int) > 255 {
        255u8
    } else {
        floor_raw(scaled.raw as int) as u8
    }
}

/// The colour channel that a byte stands for: the byte over 255.
pub open spec fn byte_to_channel(b: u8) -> Fp {
    Fp { raw: (b as int * SCALE) as i64 }.spec_div(Fp::spec_from_int(255))
}

impl<T: Copy> Vec3<T> {
    pub fn new(x: T, y: T, z: T) -> (r: Self)
        ensures
            r.x == x,
            r.y == y,
            r.z == z,
    {
        Self { x, y, z }
    }

    pub fn to_array(self) -> (r: [T; 3])
        ensures
            r@ == seq![self.x, self.y, self.z],
    {
        [self.x, self.y, self.z]
    }

    pub fn from_array(a: [T; 3]) -> (r: Self)
        ensures
            r.x == a@[0],
            r.y == a@[1],
            r.z == a@[2],
    {
        Self { x: a[0], y: a[1], z: a[2] }
    }
}

impl Vec3<u8> {
    /// The colour with each byte taken as a fraction of 255.
    pub open spec fn spec_to_color(self) -> Color3F {
        Vec3 {
            x: byte_to_channel(self.x),
            y: byte_to_channel(self.y),
            z: byte_to_channel(self.z),
        }
    }

    pub fn to_color(self) -> (r: Color3F)
        ensures
            r == self.spec_to_color(),
    {
        let full = Fp::from_int(255);
        Vec3 {
            x: Fp::from_int(self.x as i32).div(full),
            y: Fp::from_int(self.y as i32).div(full),
            z: Fp::from_int(self.z as i32).div(full),
        }
    }
}

fn quantise(c: Fp) -> (r: u8)
    ensures
        r == channel_to_byte(c),
{
    let scaled = c.mul(Fp::from_int(255));
    if scaled.raw < 0 {
        0
    } else {
        let whole = scaled.floor();
        if whole > 255 {
            255
        } else {
            whole as u8
        }
    }
}

impl Vec3<Fp> {
    pub open spec fn spec_zero() -> Vec3F {
        Vec3 { x: Fp { raw: 0 }, y: Fp { raw: 0 }, z: Fp { raw: 0 } }
    }

    pub open spec fn spec_add(self, o: Vec3F) -> Vec3F {
        Vec3 { x: self.x.spec_add(o.x), y: self.y.spec_add(o.y), z: self.z.spec_add(o.z) }
    }

    pub open spec fn spec_sub(self, o: Vec3F) -> Vec3F {
        Vec3 { x: self.x.spec_sub(o.x), y: self.y.spec_sub(o.y), z: self.z.spec_sub(o.z) }
    }

    /// Component by component product.
    pub open spec fn spec_mul(self, o: Vec3F) -> Vec3F {
        Vec3 { x: self.x.spec_mul(o.x), y: self.y.spec_mul(o.y), z: self.z.spec_mul(o.z) }
    }

    pub open spec fn spec_scale(self, s: Fp) -> Vec3F {
        Vec3 { x: self.x.spec_mul(s), y: self.y.spec_mul(s), z: self.z.spec_mul(s) }
    }

    pub open spec fn spec_div(self, s: Fp) -> Vec3F {
        Vec3 { x: self.x.spec_div(s), y: self.y.spec_div(s), z: self.z.spec_div(s) }
    }

    pub open spec fn spec_neg(self) -> Vec3F {
        Vec3 { x: self.x.spec_neg(), y: self.y.spec_neg(), z: self.z.spec_neg() }
    }

    pub open spec fn spec_length_squared(self) -> Fp {
        spec_dot(self, self)
    }

    /// The sum of the squares of the raw components.
    pub open spec fn spec_raw_square(self) -> int {
        self.x.raw * self.x.raw + self.y.raw * self.y.raw + self.z.raw * self.z.raw
    }

    /// The length: the square root of the sum of the squares of the raw
    /// components, rounded down and clamped.
    pub open spec fn spec_length(self) -> Fp {
        fp(sat(floor_sqrt(self.spec_raw_square())))
    }

    /// The factor by which the vector is lifted before its length is taken
    /// for a unit vector: `LIFT` where every component is below `LIFT` in
    /// raw size, else one.
    pub open spec fn spec_lift(self) -> int {
        if -LIFT < self.x.raw < LIFT && -LIFT < self.y.raw < LIFT && -LIFT < self.z.raw < LIFT {
            LIFT as int
        } else {
            1
        }
    }

    /// The raw length of the lifted vector, rounded down. It is zero for the
    /// zero vector only, and else at least `LIFT`.
    pub open spec fn spec_lifted_length(self) -> int {
        let k = self.spec_lift();
        floor_sqrt(
            (self.x.raw * k) * (self.x.raw * k) + (self.y.raw * k) * (self.y.raw * k) + (self.z.raw
                * k) * (self.z.raw * k),
        )
    }

    /// A number over the length of the vector: the number times the lift,
    /// over the lifted length. By a vector without length the number is
    /// divided as by zero.
    pub open spec fn spec_in_lengths(self, s: Fp) -> Fp {
        let l = self.spec_lifted_length();
        if l == 0 {
            fp(div_raw(s.raw as int, 0))
        } else {
            fp(sat(tdiv(s.raw * self.spec_lift() * SCALE, l)))
        }
    }

    /// The unit vector: each component over the length. The zero vector
    /// stays zero.
    pub open spec fn spec_normalized(self) -> Vec3F {
        if self.spec_lifted_length() == 0 {
            Vec3F::spec_zero()
        } else {
            Vec3 {
                x: self.spec_in_lengths(self.x),
                y: self.spec_in_lengths(self.y),
                z: self.spec_in_lengths(self.z),
            }
        }
    }

    pub open spec fn spec_approx_zero(self) -> bool {
        &&& -APPROX_ZERO_RAW < self.x.raw < APPROX_ZERO_RAW
        &&& -APPROX_ZERO_RAW < self.y.raw < APPROX_ZERO_RAW
        &&& -APPROX_ZERO_RAW < self.z.raw < APPROX_ZERO_RAW
    }

    /// Every component lies in the range that the operations produce.
    pub open spec fn in_range(self) -> bool {
        self.x.in_range() && self.y.in_range() && self.z.in_range()
    }

    pub open spec fn spec_to_bytes(self) -> Color3U8 {
        Vec3 {
            x: channel_to_byte(self.x),
            y: channel_to_byte(self.y),
            z: channel_to_byte(self.z),
        }
    }

    pub fn zero() -> (r: Self)
        ensures
            r == Vec3F::spec_zero(),
    {
        Vec3 { x: Fp::zero(), y: Fp::zero(), z: Fp::zero() }
    }

    pub fn add(self, o: Vec3F) -> (r: Vec3F)
        ensures
            r == self.spec_add(o),
    {
        Vec3 { x: self.x.add(o.x), y: self.y.add(o.y), z: self.z.add(o.z) }
    }

    pub fn sub(self, o: Vec3F) -> (r: Vec3F)
        ensures
            r == self.spec_sub(o),
    {
        Vec3 { x: self.x.sub(o.x), y: self.y.sub(o.y), z: self.z.sub(o.z) }
    }

    pub fn mul(self, o: Vec3F) -> (r: Vec3F)
        ensures
            r == self.spec_mul(o),
    {
        Vec3 { x: self.x.mul(o.x), y: self.y.mul(o.y), z: self.z.mul(o.z) }
    }

    pub fn scale(self, s: Fp) -> (r: Vec3F)
        ensures
            r == self.spec_scale(s),
    {
        Vec3 { x: self.x.mul(s), y: self.y.mul(s), z: self.z.mul(s) }
    }

    pub fn div(self, s: Fp) -> (r: Vec3F)
        ensures
            r == self.spec_div(s),
    {
        Vec3 { x: self.x.div(s), y: self.y.div(s), z: self.z.div(s) }
    }

    pub fn neg(self) -> (r: Vec3F)
        ensures
            r == self.spec_neg(),
    {
        Vec3 { x: self.x.neg(), y: self.y.neg(), z: self.z.neg() }
    }

    pub fn length_squared(&self) -> (r: Fp)
        ensures
            r == self.spec_length_squared(),
    {
        dot(self, self)
    }

    /// The sum of the squares of the raw components, in a wide integer.
    pub fn raw_square(&self) -> (r: u128)
        ensures
            r == self.spec_raw_square(),
            r <= 3 * 0x4000_0000_0000_0000_0000_0000_0000_0000,
    {
        let mx = magnitude(self.x.raw);
        let my = magnitude(self.y.raw);
        let mz = magnitude(self.z.raw);
        proof {
            lemma_square_fits(mx as int, self.x.raw as int);
            lemma_square_fits(my as int, self.y.raw as int);
            lemma_square_fits(mz as int, self.z.raw as int);
        }
        mx * mx + my * my + mz * mz
    }

    /// The length, taken from the raw components without rounding their
    /// squares: it is less than one raw unit below the true length.
    pub fn length(&self) -> (r: Fp)
        ensures
            r == self.spec_length(),
            r.raw >= 0,
    {
        let root = isqrt(self.raw_square());
        if root > RAW_MAX as u128 {
            Fp::from_raw(RAW_MAX)
        } else {
            Fp::from_raw(root as i64)
        }
    }

    /// The lift and the raw length of the lifted vector.
    fn lifted(&self) -> (r: (u128, u128))
        ensures
            r.0 == self.spec_lift(),
            r.1 == self.spec_lifted_length(),
            r.0 == 1 || r.0 == LIFT,
            r.1 < 0x1_0000_0000_0000_0000,
    {
        let mx = magnitude(self.x.raw);
        let my = magnitude(self.y.raw);
        let mz = magnitude(self.z.raw);
        let k: u128 = if mx < LIFT as u128 && my < LIFT as u128 && mz < LIFT as u128 {
            LIFT as u128
        } else {
            1
        };
        proof {
            lemma_lifted_square_fits(mx as int, self.x.raw as int, k as int);
            lemma_lifted_square_fits(my as int, self.y.raw as int, k as int);
            lemma_lifted_square_fits(mz as int, self.z.raw as int, k as int);
        }
        let lx = mx * k;
        let ly = my * k;
        let lz = mz * k;
        (k, isqrt(lx * lx + ly * ly + lz * lz))
    }

    /// A number over the length of the vector.
    pub fn in_lengths(&self, s: Fp) -> (r: Fp)
        ensures
            r == self.spec_in_lengths(s),
    {
        let (k, l) = self.lifted();
        if l == 0 {
            s.div(Fp::zero())
        } else {
            let m = magnitude(s.raw);
            proof {
                lemma_lifted_product(m as int, s.raw as int, k as int);
            }
            let q = (m * k * (SCALE as u128)) / l;
            Fp::from_raw(signed_sat(s.raw < 0, q))
        }
    }

    /// The unit vector along the vector. The zero vector stays zero. No
    /// component of the result exceeds one in size, and but for the zero
    /// vector its length lies between one less four raw units and one.
    pub fn normalized(&self) -> (r: Vec3F)
        ensures
            r == self.spec_normalized(),
            -SCALE <= r.x.raw <= SCALE,
            -SCALE <= r.y.raw <= SCALE,
            -SCALE <= r.z.raw <= SCALE,
            self.x.raw != 0 || self.y.raw != 0 || self.z.raw != 0 ==> SCALE - 4
                <= r.spec_length().raw <= SCALE,
    {
        proof {
            if self.x.raw != 0 || self.y.raw != 0 || self.z.raw != 0 {
                lemma_normalized_is_unit(*self);
            } else {
                assert(0int * self.spec_lift() == 0);
                assert(0int * 0int == 0);
                crate::fixed::lemma_floor_sqrt_is(0, 0);
            }
        }
        let (_, l) = self.lifted();
        if l == 0 {
            Vec3F::zero()
        } else {
            Vec3 {
                x: self.in_lengths(self.x),
                y: self.in_lengths(self.y),
                z: self.in_lengths(self.z),
            }
        }
    }

    pub fn approx_zero(&self) -> (r: bool)
        ensures
            r == self.spec_approx_zero(),
    {
        (self.x.raw > -APPROX_ZERO_RAW && self.x.raw < APPROX_ZERO_RAW) && (self.y.raw
            > -APPROX_ZERO_RAW && self.y.raw < APPROX_ZERO_RAW) && (self.z.raw > -APPROX_ZERO_RAW
            && self.z.raw < APPROX_ZERO_RAW)
    }

    /// Quantises a colour to bytes, without gamma correction.
    pub fn to_bytes(self) -> (r: Color3U8)
        ensures
            r == self.spec_to_bytes(),
    {
        Vec3 { x: quantise(self.x), y: quantise(self.y), z: quantise(self.z) }
    }
}

impl From<Vec3<u8>> for Vec3<Fp> {
    fn from(v: Vec3<u8>) -> (r: Vec3<Fp>) {
        v.to_color()
    }
}

impl vstd::std_specs::convert::FromSpecImpl<Vec3<u8>> for Vec3<Fp> {
    open spec fn obeys_from_spec() -> bool {
        true
    }

    open spec fn from_spec(v: Vec3<u8>) -> Vec3<Fp> {
        v.spec_to_color()
    }
}

impl From<Vec3<Fp>> for Vec3<u8> {
    fn from(v: Vec3<Fp>) -> (r: Vec3<u8>) {
        v.to_bytes()
    }
}

impl vstd::std_specs::convert::FromSpecImpl<Vec3<Fp>> for Vec3<u8> {
    open spec fn obeys_from_spec() -> bool {
        true
    }

    open spec fn from_spec(v: Vec3<Fp>) -> Vec3<u8> {
        v.spec_to_bytes()
    }
}

impl<T: Copy> From<[T; 3]> for Vec3<T> {
    fn from(a: [T; 3]) -> (r: Vec3<T>) {
        Vec3::from_array(a)
    }
}

impl<T: Copy> vstd::std_specs::convert::FromSpecImpl<[T; 3]> for Vec3<T> {
    open spec fn obeys_from_spec() -> bool {
        true
    }

    open spec fn from_spec(a: [T; 3]) -> Vec3<T> {
        Vec3 { x: a@[0], y: a@[1], z: a@[2] }
    }
}

/// The square of a raw value is the square of its magnitude, and three of
/// them fit the widest unsigned integer.
pub proof fn lemma_square_fits(m: int, x: int)
    requires
        m == if x < 0 {
            -x
        } else {
            x
        },
        m <= 0x8000_0000_0000_0000,
    ensures
        0 <= m * m == x * x,
        m * m <= 0x4000_0000_0000_0000_0000_0000_0000_0000,
{
    assert(m * m == x * x) by (nonlinear_arith)
        requires
            m == x || m == -x,
    ;
    assert(0 <= m * m <= 0x8000_0000_0000_0000 * 0x8000_0000_0000_0000) by (nonlinear_arith)
        requires
            0 <= m <= 0x8000_0000_0000_0000,
    ;
}

/// The same for a lifted raw value.
pub proof fn lemma_lifted_square_fits(m: int, x: int, k: int)
    requires
        m == if x < 0 {
            -x
        } else {
            x
        },
        m <= 0x8000_0000_0000_0000,
        k == 1 || (k == LIFT && m < LIFT),
    ensures
        0 <= m * k <= 0x8000_0000_0000_0000,
        (m * k) * (m * k) == (x * k) * (x * k),
        0 <= (m * k) * (m * k) <= 0x4000_0000_0000_0000_0000_0000_0000_0000,
{
    let a = m * k;
    assert(0 <= a <= 0x8000_0000_0000_0000) by (nonlinear_arith)
        requires
            a == m * k,
            0 <= m <= 0x8000_0000_0000_0000,
            k == 1 || (k == 0x8000_0000 && m < 0x8000_0000),
    ;
    assert(a == x * k || a == -(x * k)) by (nonlinear_arith)
        requires
            a == m * k,
            m == x || m == -x,
    ;
    lemma_square_fits(a, x * k);
}

/// The product of a magnitude with the lift and the scale fits, and has the
/// sign of the raw value taken off.
pub proof fn lemma_lifted_product(m: int, x: int, k: int)
    requires
        m == if x < 0 {
            -x
        } else {
            x
        },
        m <= 0x8000_0000_0000_0000,
        k == 1 || k == LIFT,
    ensures
        0 <= m * k <= 0x8000_0000_0000_0000 * 0x8000_0000,
        0 <= m * k * SCALE <= 0x8000_0000_0000_0000 * 0x8000_0000 * 1_000_000_000,
        x >= 0 ==> x * k * SCALE == m * k * SCALE,
        x < 0 ==> -(x * k * SCALE) == m * k * SCALE,
{
    let a = m * k;
    assert(0 <= a <= 0x8000_0000_0000_0000 * 0x8000_0000) by (nonlinear_arith)
        requires
            a == m * k,
            0 <= m <= 0x8000_0000_0000_0000,
            k == 1 || k == 0x8000_0000,
    ;
    assert(0 <= a * SCALE <= 0x8000_0000_0000_0000 * 0x8000_0000 * 1_000_000_000)
        by (nonlinear_arith)
        requires
            0 <= a <= 0x8000_0000_0000_0000 * 0x8000_0000,
            SCALE == 1_000_000_000,
    ;
    assert(x >= 0 ==> x * k * SCALE == m * k * SCALE);
    assert(x < 0 ==> -(x * k * SCALE) == m * k * SCALE) by (nonlinear_arith)
        requires
            x < 0 ==> m == -x,
    ;
}

/// The size of a component of a unit vector: for a lifted component of the
/// size `a` and a lifted length `l`, the quotient `a * SCALE / l` is at
/// most one, and at most one raw unit below the true quotient.
pub proof fn lemma_unit_component(a: int, l: int)
    requires
        0 <= a <= l,
        l >= SCALE,
    ensures
        0 <= (a * SCALE) / l <= SCALE,
        ((a * SCALE) / l) * l <= a * SCALE,
        ((a * SCALE) / l) * l > a * SCALE - l,
        (((a * SCALE) / l) * l) * (((a * SCALE) / l) * l) >= (a * SCALE) * (a * SCALE) - 2 * (a
            * SCALE) * l,
{
    let s = SCALE as int;
    let n = a * s;
    let u = n / l;
    assert(0 <= n <= l * s) by (nonlinear_arith)
        requires
            n == a * s,
            0 <= a <= l,
            s > 0,
    ;
    vstd::arithmetic::div_mod::lemma_fundamental_div_mod(n, l);
    vstd::arithmetic::div_mod::lemma_mod_bound(n, l);
    vstd::arithmetic::div_mod::lemma_div_is_ordered(0, n, l);
    vstd::arithmetic::div_mod::lemma_div_is_ordered(n, l * s, l);
    vstd::arithmetic::div_mod::lemma_div_multiples_vanish(s, l);
    assert(l * s == s * l) by (nonlinear_arith);
    let ul = u * l;
    assert(ul == l * u) by (nonlinear_arith)
        requires
            ul == u * l,
    ;
    assert(ul * ul >= n * n - 2 * n * l) by (nonlinear_arith)
        requires
            ul > n - l,
            ul >= 0,
            n >= 0,
            l > 0,
    {
        if n >= l {
            assert(ul * ul >= (n - l) * (n - l));
            assert((n - l) * (n - l) == n * n - 2 * n * l + l * l);
        } else {
            assert(n * n - 2 * n * l == n * (n - 2 * l));
            assert(n * (n - 2 * l) <= 0);
        }
    }
    assert(ul >= 0) by (nonlinear_arith)
        requires
            ul == u * l,
            u >= 0,
            l > 0,
    ;
}

/// A unit vector is a unit vector: for every vector but the zero vector, no
/// component of its unit vector exceeds one in size, and the length of its
/// unit vector lies between one less four raw units and one.
pub proof fn lemma_normalized_is_unit(v: Vec3F)
    requires
        v.x.raw != 0 || v.y.raw != 0 || v.z.raw != 0,
    ensures
        -SCALE <= v.spec_normalized().x.raw <= SCALE,
        -SCALE <= v.spec_normalized().y.raw <= SCALE,
        -SCALE <= v.spec_normalized().z.raw <= SCALE,
        SCALE - 4 <= v.spec_normalized().spec_length().raw <= SCALE,
{
    let s = SCALE as int;
    let k = v.spec_lift();
    let xx = v.x.raw * k;
    let yy = v.y.raw * k;
    let zz = v.z.raw * k;
    let a = if xx < 0 { -xx } else { xx };
    let b = if yy < 0 { -yy } else { yy };
    let c = if zz < 0 { -zz } else { zz };
    let q = xx * xx + yy * yy + zz * zz;
    assert(a * a == xx * xx && b * b == yy * yy && c * c == zz * zz) by (nonlinear_arith)
        requires
            a == xx || a == -xx,
            b == yy || b == -yy,
            c == zz || c == -zz,
    ;
    assert(a * a >= 0 && b * b >= 0 && c * c >= 0) by (nonlinear_arith);
    lemma_floor_sqrt_exists(q);
    let l = v.spec_lifted_length();
    assert(is_floor_sqrt(q, l));
    // The lifted vector has a component of the size of the lift at least.
    let big = LIFT as int;
    assert(a >= big || b >= big || c >= big) by (nonlinear_arith)
        requires
            v.x.raw != 0 || v.y.raw != 0 || v.z.raw != 0,
            k == (if -big < v.x.raw < big && -big < v.y.raw < big && -big < v.z.raw < big {
                big
            } else {
                1
            }),
            xx == v.x.raw * k,
            yy == v.y.raw * k,
            zz == v.z.raw * k,
            a == (if xx < 0 { -xx } else { xx }),
            b == (if yy < 0 { -yy } else { yy }),
            c == (if zz < 0 { -zz } else { zz }),
            big == 0x8000_0000,
    ;
    assert(q >= big * big) by (nonlinear_arith)
        requires
            q == a * a + b * b + c * c,
            a >= 0,
            b >= 0,
            c >= 0,
            a >= big || b >= big || c >= big,
            big > 0,
    ;
    assert(l >= big) by (nonlinear_arith)
        requires
            q < (l + 1) * (l + 1),
            q >= big * big,
            l >= 0,
            big > 0,
    ;
    // No component is longer than the vector.
    assert(a <= l && b <= l && c <= l) by (nonlinear_arith)
        requires
            q == a * a + b * b + c * c,
            q < (l + 1) * (l + 1),
            a >= 0,
            b >= 0,
            c >= 0,
            l >= 0,
    ;
    lemma_unit_component(a, l);
    lemma_unit_component(b, l);
    lemma_unit_component(c, l);
    let ua = (a * s) / l;
    let ub = (b * s) / l;
    let uc = (c * s) / l;
    assert(v.x.raw * k * s == xx * s && v.y.raw * k * s == yy * s && v.z.raw * k * s == zz * s);
    assert(xx * s == (if xx < 0 { -(a * s) } else { a * s })) by (nonlinear_arith)
        requires
            a == (if xx < 0 { -xx } else { xx }),
    ;
    assert(yy * s == (if yy < 0 { -(b * s) } else { b * s })) by (nonlinear_arith)
        requires
            b == (if yy < 0 { -yy } else { yy }),
    ;
    assert(zz * s == (if zz < 0 { -(c * s) } else { c * s })) by (nonlinear_arith)
        requires
            c == (if zz < 0 { -zz } else { zz }),
    ;
    assert(a * s >= 0 && b * s >= 0 && c * s >= 0) by (nonlinear_arith)
        requires
            a >= 0,
            b >= 0,
            c >= 0,
            s > 0,
    ;
    let n = v.spec_normalized();
    assert(n.x.raw == ua || n.x.raw == -ua);
    assert(n.y.raw == ub || n.y.raw == -ub);
    assert(n.z.raw == uc || n.z.raw == -uc);
    let u = n.spec_raw_square();
    assert(u == ua * ua + ub * ub + uc * uc) by (nonlinear_arith)
        requires
            u == n.x.raw * n.x.raw + n.y.raw * n.y.raw + n.z.raw * n.z.raw,
            n.x.raw == ua || n.x.raw == -ua,
            n.y.raw == ub || n.y.raw == -ub,
            n.z.raw == uc || n.z.raw == -uc,
    ;
    let al = ua * l;
    let bl = ub * l;
    let cl = uc * l;
    // Above: the squares of the quotients, times the squared length, stay
    // below the squares of the components times the scale.
    assert(al * al <= (a * s) * (a * s) && bl * bl <= (b * s) * (b * s) && cl * cl <= (c * s) * (c
        * s)) by (nonlinear_arith)
        requires
            0 <= al <= a * s,
            0 <= bl <= b * s,
            0 <= cl <= c * s,
    ;
    let ll = l * l;
    let pa = ua * ua;
    let pb = ub * ub;
    let pc = uc * uc;
    assert(pa * ll == al * al) by (nonlinear_arith)
        requires
            pa == ua * ua,
            ll == l * l,
            al == ua * l,
    ;
    assert(pb * ll == bl * bl) by (nonlinear_arith)
        requires
            pb == ub * ub,
            ll == l * l,
            bl == ub * l,
    ;
    assert(pc * ll == cl * cl) by (nonlinear_arith)
        requires
            pc == uc * uc,
            ll == l * l,
            cl == uc * l,
    ;
    assert(u * ll == pa * ll + pb * ll + pc * ll) by (nonlinear_arith)
        requires
            u == pa + pb + pc,
    ;
    assert(u * (l * l) == al * al + bl * bl + cl * cl);
    assert((a * s) * (a * s) + (b * s) * (b * s) + (c * s) * (c * s) == q * (s * s))
        by (nonlinear_arith)
        requires
            q == a * a + b * b + c * c,
    ;
    assert(ll > 0 && q >= ll && s * s > 0) by (nonlinear_arith)
        requires
            ll == l * l,
            l >= s,
            s == 1_000_000_000,
            l * l <= q,
    ;
    assert(u * (l * l) < ((s + 1) * l) * ((s + 1) * l)) by (nonlinear_arith)
        requires
            u * (l * l) <= q * (s * s),
            q < (l + 1) * (l + 1),
            l >= s,
            s > 0,
    {
        assert(q * (s * s) < ((l + 1) * s) * ((l + 1) * s));
        assert((l + 1) * s <= (s + 1) * l);
    }
    assert(u < (s + 1) * (s + 1)) by (nonlinear_arith)
        requires
            u * (l * l) < ((s + 1) * l) * ((s + 1) * l),
            l > 0,
    {
        assert(((s + 1) * l) * ((s + 1) * l) == ((s + 1) * (s + 1)) * (l * l));
    }
    // Below.
    let na = a * s;
    let nb = b * s;
    let nc = c * s;
    let ta = 2 * na * l;
    let tb = 2 * nb * l;
    let tc = 2 * nc * l;
    let ss = s * s;
    assert(u * ll >= q * ss - (ta + tb + tc));
    assert(ta <= 2 * s * ll && tb <= 2 * s * ll && tc <= 2 * s * ll) by (nonlinear_arith)
        requires
            ta == 2 * na * l,
            tb == 2 * nb * l,
            tc == 2 * nc * l,
            na == a * s,
            nb == b * s,
            nc == c * s,
            0 <= a <= l,
            0 <= b <= l,
            0 <= c <= l,
            ll == l * l,
            s > 0,
    {
        assert(na <= s * l && nb <= s * l && nc <= s * l);
        assert(2 * (s * l) * l == 2 * s * (l * l));
    }
    assert(q * ss >= ll * ss) by (nonlinear_arith)
        requires
            q >= ll,
            ss > 0,
    ;
    assert(u * ll >= (ss - 6 * s) * ll) by (nonlinear_arith)
        requires
            u * ll >= q * ss - (ta + tb + tc),
            q * ss >= ll * ss,
            ta + tb + tc <= 6 * s * ll,
    ;
    assert(u >= ss - 6 * s) by (nonlinear_arith)
        requires
            u * ll >= (ss - 6 * s) * ll,
            ll > 0,
    ;
    assert(u >= 0) by (nonlinear_arith)
        requires
            u == ua * ua + ub * ub + uc * uc,
    ;
    lemma_floor_sqrt_exists(u);
    let r = floor_sqrt(u);
    lemma_floor_sqrt_bounds(u, r, s + 1);
    assert(r >= s - 4) by (nonlinear_arith)
        requires
            u < (r + 1) * (r + 1),
            u >= s * s - 6 * s,
            r >= 0,
            s == 1_000_000_000,
    ;
}

pub open spec fn spec_dot(a: Vec3F, b: Vec3F) -> Fp {
    a.x.spec_mul(b.x).spec_add(a.y.spec_mul(b.y)).spec_add(a.z.spec_mul(b.z))
}

/// The dot product before it is scaled and rounded: the sum of the
/// products of the raw components, whose unit is the square of the raw
/// unit.
pub open spec fn spec_dot_raw(a: Vec3F, b: Vec3F) -> int {
    a.x.raw * b.x.raw + a.y.raw * b.y.raw + a.z.raw * b.z.raw
}

/// One product of raw components, as its sign and magnitude.
fn product_raw(a: i64, b: i64) -> (r: (bool, u128))
    ensures
        a * b == if r.0 {
            -(r.1 as int)
        } else {
            r.1 as int
        },
        r.1 <= 0x4000_0000_0000_0000_0000_0000_0000_0000,
{
    let ma = magnitude(a);
    let mb = magnitude(b);
    proof {
        crate::fixed::lemma_product_magnitude(a as int, b as int);
        assert(ma * mb <= 0x8000_0000_0000_0000 * 0x8000_0000_0000_0000) by (nonlinear_arith)
            requires
                ma <= 0x8000_0000_0000_0000,
                mb <= 0x8000_0000_0000_0000,
        ;
    }
    ((a < 0) != (b < 0), ma * mb)
}

/// The dot product before it is scaled and rounded, as its sign and its
/// magnitude.
pub fn dot_raw(a: &Vec3F, b: &Vec3F) -> (r: (bool, u128))
    ensures
        spec_dot_raw(*a, *b) == if r.0 {
            -(r.1 as int)
        } else {
            r.1 as int
        },
{
    let (nx, mx) = product_raw(a.x.raw, b.x.raw);
    let (ny, my) = product_raw(a.y.raw, b.y.raw);
    let (nz, mz) = product_raw(a.z.raw, b.z.raw);
    let mut above: u128 = 0;
    let mut below: u128 = 0;
    if nx {
        below = below + mx;
    } else {
        above = above + mx;
    }
    if ny {
        below = below + my;
    } else {
        above = above + my;
    }
    if nz {
        below = below + mz;
    } else {
        above = above + mz;
    }
    if above >= below {
        (false, above - below)
    } else {
        (true, below - above)
    }
}

pub open spec fn spec_cross(a: Vec3F, b: Vec3F) -> Vec3F {
    Vec3 {
        x: a.y.spec_mul(b.z).spec_sub(a.z.spec_mul(b.y)),
        y: a.z.spec_mul(b.x).spec_sub(a.x.spec_mul(b.z)),
        z: a.x.spec_mul(b.y).spec_sub(a.y.spec_mul(b.x)),
    }
}

pub fn dot(a: &Vec3F, b: &Vec3F) -> (r: Fp)
    ensures
        r == spec_dot(*a, *b),
{
    a.x.mul(b.x).add(a.y.mul(b.y)).add(a.z.mul(b.z))
}

pub fn cross(a: &Vec3F, b: &Vec3F) -> (r: Vec3F)
    ensures
        r == spec_cross(*a, *b),
{
    Vec3 {
        x: a.y.mul(b.z).sub(a.z.mul(b.y)),
        y: a.z.mul(b.x).sub(a.x.mul(b.z)),
        z: a.x.mul(b.y).sub(a.y.mul(b.x)),
    }
}

/// Negating one factor negates a product.
pub proof fn lemma_mul_neg(a: Fp, b: Fp)
    requires
        a.in_range(),
    ensures
        a.spec_neg().spec_mul(b) == a.spec_mul(b).spec_neg(),
        a.spec_mul(b).in_range(),
{
    let s = SCALE as int;
    let p = a.raw as int * b.raw as int;
    assert((-(a.raw as int)) * (b.raw as int) == -p) by (nonlinear_arith)
        requires
            p == a.raw as int * b.raw as int,
    ;
}

/// Negating both terms negates a sum.
pub proof fn lemma_add_neg(a: Fp, b: Fp)
    requires
        a.in_range(),
        b.in_range(),
    ensures
        a.spec_neg().spec_add(b.spec_neg()) == a.spec_add(b).spec_neg(),
        a.spec_add(b).in_range(),
{
}

/// Negating one vector negates a dot product.
pub proof fn lemma_dot_neg(a: Vec3F, b: Vec3F)
    requires
        a.in_range(),
    ensures
        spec_dot(a.spec_neg(), b) == spec_dot(a, b).spec_neg(),
        spec_dot(a, b).in_range(),
{
    lemma_mul_neg(a.x, b.x);
    lemma_mul_neg(a.y, b.y);
    lemma_mul_neg(a.z, b.z);
    let px = a.x.spec_mul(b.x);
    let py = a.y.spec_mul(b.y);
    let pz = a.z.spec_mul(b.z);
    lemma_add_neg(px, py);
    lemma_add_neg(px.spec_add(py), pz);
}

} // verus!
