//! Glass whose index matches that of its surroundings bends no ray. A ray
//! that meets it head on is never reflected and goes straight on, to within
//! sixteen raw units of each component; a ray that meets it at any other
//! angle, where it is refracted, goes straight on to within 0.0004.

use crate::fixed::{fp, is_floor_sqrt, lemma_floor_sqrt_exists, mul_raw, tdiv, Fp, SCALE};
use crate::materials::{
    lemma_mul_one, spec_pow5, spec_refract, MaterialDielectric, ScatteredResult,
};
use crate::shapes::{Ray, RayIntersection};
use crate::vecmath::{spec_dot, Vec3, Vec3F, LIFT};
use vstd::prelude::*;

verus! {

/// Whether the vector is a unit vector as far as the digits go: no component
/// exceeds one in size, and the length lies between one less four raw units
/// and one. The unit vector of every vector but the zero vector is one.
pub open spec fn spec_unit(d: Vec3F) -> bool {
    &&& -SCALE <= d.x.raw <= SCALE
    &&& -SCALE <= d.y.raw <= SCALE
    &&& -SCALE <= d.z.raw <= SCALE
    &&& SCALE - 4 <= d.spec_length().raw <= SCALE
}

/// Whether no component of the first vector is further than `tol` raw units
/// from that of the second.
pub open spec fn spec_near(a: Vec3F, b: Vec3F, tol: int) -> bool {
    &&& -tol <= a.x.raw - b.x.raw <= tol
    &&& -tol <= a.y.raw - b.y.raw <= tol
    &&& -tol <= a.z.raw - b.z.raw <= tol
}

/// Negating one factor negates the raw product; negating both keeps it.
pub proof fn lemma_product_negated(a: int, b: int)
    ensures
        mul_raw(a, -b) == -mul_raw(a, b),
        mul_raw(-a, b) == -mul_raw(a, b),
        mul_raw(-a, -b) == mul_raw(a, b),
{
    assert(a * (-b) == -(a * b)) by (nonlinear_arith);
    assert((-a) * b == -(a * b)) by (nonlinear_arith);
    assert((-a) * (-b) == a * b) by (nonlinear_arith);
}

/// The raw product of a number of `[-1, 1]` with a number within `e` raw
/// units of one lies within `e` raw units of the first.
pub proof fn lemma_product_near(a: int, b: int, e: int)
    requires
        -SCALE <= a <= SCALE,
        SCALE - e <= b <= SCALE + e,
        0 <= e <= 1000,
    ensures
        a - e <= mul_raw(a, b) <= a + e,
    decreases
        (if a < 0 { 1int } else { 0int }),
{
    let s = SCALE as int;
    if a < 0 {
        lemma_product_near(-a, b, e);
        lemma_product_negated(-a, b);
    } else {
        let p = a * b;
        assert(0 <= p && p <= a * s + s * e && p >= a * s - s * e) by (nonlinear_arith)
            requires
                p == a * b,
                0 <= a <= s,
                s - e <= b <= s + e,
                0 <= e <= 1000,
                s == 1_000_000_000,
        ;
        let t = p / s;
        vstd::arithmetic::div_mod::lemma_fundamental_div_mod(p, s);
        vstd::arithmetic::div_mod::lemma_mod_bound(p, s);
        assert(t <= a + e && t >= a - e) by (nonlinear_arith)
            requires
                p == s * t + p % s,
                0 <= p % s < s,
                p <= a * s + s * e,
                p >= a * s - s * e,
                s == 1_000_000_000,
        ;
    }
}

/// The raw quotients of two numbers that differ by at most `n` times the
/// divisor differ by at most `n + 1`.
pub proof fn lemma_quotients_near(x: int, y: int, n: int, d: int)
    requires
        d > 0,
        n >= 0,
        -n * d <= x - y <= n * d,
    ensures
        -(n + 1) <= tdiv(x, d) - tdiv(y, d) <= n + 1,
{
    lemma_quotient_close(x, d);
    lemma_quotient_close(y, d);
    let tx = tdiv(x, d);
    let ty = tdiv(y, d);
    assert(-(n + 1) <= tx - ty <= n + 1) by (nonlinear_arith)
        requires
            d > 0,
            n >= 0,
            -n * d <= x - y <= n * d,
            x - d < tx * d < x + d,
            y - d < ty * d < y + d,
    ;
}

/// The quotient rounded towards zero, times the divisor, lies less than
/// the divisor from the dividend.
pub proof fn lemma_quotient_close(x: int, d: int)
    requires
        d > 0,
    ensures
        x - d < tdiv(x, d) * d < x + d,
{
    if x >= 0 {
        vstd::arithmetic::div_mod::lemma_fundamental_div_mod(x, d);
        vstd::arithmetic::div_mod::lemma_mod_bound(x, d);
        assert((x / d) * d == d * (x / d)) by (nonlinear_arith);
    } else {
        vstd::arithmetic::div_mod::lemma_fundamental_div_mod(-x, d);
        vstd::arithmetic::div_mod::lemma_mod_bound(-x, d);
        assert((-((-x) / d)) * d == -(d * ((-x) / d))) by (nonlinear_arith);
    }
}

/// The sum of the squares of a unit vector's raw components lies between
/// the squares of its shortest and of its longest length.
pub proof fn lemma_unit_raw_square(d: Vec3F)
    requires
        spec_unit(d),
    ensures
        (SCALE - 4) * (SCALE - 4) <= d.spec_raw_square() < (SCALE + 1) * (SCALE + 1),
{
    let q = d.spec_raw_square();
    let x = d.x.raw as int;
    let y = d.y.raw as int;
    let z = d.z.raw as int;
    assert(q >= 0) by (nonlinear_arith)
        requires
            q == x * x + y * y + z * z,
    ;
    lemma_floor_sqrt_exists(q);
    let l = crate::fixed::floor_sqrt(q);
    assert(SCALE - 4 <= l <= SCALE);
    assert((SCALE - 4) * (SCALE - 4) <= l * l && (l + 1) * (l + 1) <= (SCALE + 1) * (SCALE + 1))
        by (nonlinear_arith)
        requires
            SCALE - 4 <= l <= SCALE,
    ;
}

/// The dot product of a unit vector with itself lies between one less ten
/// raw units and one more two.
pub proof fn lemma_unit_square(d: Vec3F)
    requires
        spec_unit(d),
    ensures
        SCALE - 10 <= spec_dot(d, d).raw <= SCALE + 2,
        spec_dot(d, d.spec_neg()) == spec_dot(d, d).spec_neg(),
{
    let s = SCALE as int;
    let x = d.x.raw as int;
    let y = d.y.raw as int;
    let z = d.z.raw as int;
    lemma_unit_raw_square(d);
    lemma_square_split(x);
    lemma_square_split(y);
    lemma_square_split(z);
    lemma_product_negated(x, x);
    lemma_product_negated(y, y);
    lemma_product_negated(z, z);
    let q = d.spec_raw_square();
    let m = mul_raw(x, x) + mul_raw(y, y) + mul_raw(z, z);
    assert(s - 10 <= m <= s + 2) by (nonlinear_arith)
        requires
            s * m <= q,
            q < s * m + 3 * s,
            (s - 4) * (s - 4) <= q < (s + 1) * (s + 1),
            s == 1_000_000_000,
    ;
}

/// The raw square of a number of `[-1, 1]` is the square of the raw value
/// over the scale, rounded down.
pub proof fn lemma_square_split(x: int)
    requires
        -SCALE <= x <= SCALE,
    ensures
        0 <= mul_raw(x, x) <= SCALE,
        SCALE * mul_raw(x, x) <= x * x < SCALE * mul_raw(x, x) + SCALE,
{
    let s = SCALE as int;
    let p = x * x;
    assert(0 <= p <= s * s) by (nonlinear_arith)
        requires
            p == x * x,
            -s <= x <= s,
    ;
    vstd::arithmetic::div_mod::lemma_fundamental_div_mod(p, s);
    vstd::arithmetic::div_mod::lemma_mod_bound(p, s);
    let t = p / s;
    assert(0 <= t <= s) by (nonlinear_arith)
        requires
            p == s * t + p % s,
            0 <= p % s < s,
            0 <= p <= s * s,
            s > 0,
    ;
}

/// One component of the part of the refracted direction across the
/// normal, where the normal is the reversed direction and the indices
/// match: it is at most ten raw units. Here `x` is the direction's
/// component and `q` the squared length of the direction.
pub proof fn lemma_component_across(x: Fp, q: Fp)
    requires
        -SCALE <= x.raw <= SCALE,
        SCALE - 10 <= q.raw <= SCALE + 2,
    ensures
        ({
            let across = x.spec_sub(x.spec_neg().spec_mul(q.spec_neg())).spec_mul(
                fp(SCALE as int),
            );
            &&& -10 <= across.raw <= 10
            &&& 0 <= across.raw * across.raw <= 100
        }),
{
    lemma_product_negated(x.raw as int, q.raw as int);
    lemma_product_near(x.raw as int, q.raw as int, 10);
    let before = x.spec_sub(x.spec_neg().spec_mul(q.spec_neg()));
    assert(-10 <= before.raw <= 10);
    lemma_mul_one(before);
    assert(0 <= before.raw * before.raw <= 100) by (nonlinear_arith)
        requires
            -10 <= before.raw <= 10,
    ;
}

/// One component of the refracted direction in the same case: the sum of
/// the part across the normal and the part along it lies within sixteen
/// raw units of the direction's component. Here `side` is the length of
/// the part along the normal.
pub proof fn lemma_component_unbent(x: Fp, q: Fp, side: Fp)
    requires
        -SCALE <= x.raw <= SCALE,
        SCALE - 10 <= q.raw <= SCALE + 2,
        SCALE - 6 <= side.raw <= SCALE,
    ensures
        ({
            let across = x.spec_sub(x.spec_neg().spec_mul(q.spec_neg())).spec_mul(
                fp(SCALE as int),
            );
            let along = x.spec_neg().spec_mul(side.spec_neg());
            -16 <= across.spec_add(along).raw - x.raw <= 16
        }),
{
    lemma_component_across(x, q);
    lemma_product_negated(x.raw as int, side.raw as int);
    lemma_product_near(x.raw as int, side.raw as int, 6);
}

/// Along the reversed direction as the normal, and with matching indices,
/// refraction sends a unit direction on unbent: no component of the
/// refracted direction is further than sixteen raw units from that of the
/// direction.
pub proof fn lemma_refraction_head_on(d: Vec3F)
    requires
        spec_unit(d),
    ensures
        spec_near(spec_refract(d, d.spec_neg(), fp(SCALE as int)), d, 16),
{
    let s = SCALE as int;
    let q = spec_dot(d, d);
    lemma_unit_square(d);
    lemma_unit_raw_square(d);
    let across = crate::materials::spec_refract_perp(d, d.spec_neg(), fp(SCALE as int));
    let side = crate::materials::spec_refract_side(d, across);
    lemma_component_across(d.x, q);
    lemma_component_across(d.y, q);
    lemma_component_across(d.z, q);
    let gap = d.spec_raw_square() - across.spec_raw_square();
    assert((s - 5) * (s - 5) <= gap < (s + 1) * (s + 1)) by (nonlinear_arith)
        requires
            (s - 4) * (s - 4) <= d.spec_raw_square() < (s + 1) * (s + 1),
            0 <= across.spec_raw_square() <= 300,
            gap == d.spec_raw_square() - across.spec_raw_square(),
            s == 1_000_000_000,
    ;
    lemma_floor_sqrt_exists(gap);
    let root = crate::fixed::floor_sqrt(gap);
    assert(s - 5 <= root <= s) by (nonlinear_arith)
        requires
            0 <= root,
            root * root <= gap < (root + 1) * (root + 1),
            (s - 5) * (s - 5) <= gap < (s + 1) * (s + 1),
            s == 1_000_000_000,
    ;
    assert(side == fp(root));
    lemma_component_unbent(d.x, q, side);
    lemma_component_unbent(d.y, q, side);
    lemma_component_unbent(d.z, q, side);
}

/// A component of a unit vector over the vector's lifted length: where the
/// length `l` of the lifted vector lies between `k` times the shortest and
/// `k` times the longest length of a unit vector, the quotient lies within
/// four raw units of the component.
pub proof fn lemma_component_renormalized(x: int, k: int, l: int)
    requires
        -SCALE <= x <= SCALE,
        k > 0,
        k * (SCALE - 4) <= l < k * (SCALE + 1),
    ensures
        -4 <= tdiv(x * k * SCALE, l) - x <= 4,
    decreases
        (if x < 0 { 1int } else { 0int }),
{
    let s = SCALE as int;
    if x < 0 {
        lemma_component_renormalized(-x, k, l);
        let n = x * k * s;
        assert((-x) * k * s == -n && n < 0) by (nonlinear_arith)
            requires
                n == x * k * s,
                x < 0,
                k > 0,
                s > 0,
        ;
    } else {
        let n = x * k * s;
        assert(n >= 0 && n == k * (x * s)) by (nonlinear_arith)
            requires
                n == x * k * s,
                x >= 0,
                k > 0,
                s > 0,
        ;
        assert(l > 0) by (nonlinear_arith)
            requires
                k * (s - 4) <= l,
                k > 0,
                s == 1_000_000_000,
        ;
        vstd::arithmetic::div_mod::lemma_fundamental_div_mod(n, l);
        vstd::arithmetic::div_mod::lemma_mod_bound(n, l);
        vstd::arithmetic::div_mod::lemma_div_pos_is_pos(n, l);
        let t = n / l;
        assert(l * t <= n < l * t + l);
        if t >= x + 5 {
            let low = k * (s - 4);
            assert(l * t >= low * (x + 5)) by (nonlinear_arith)
                requires
                    l >= low,
                    low >= 0,
                    t >= x + 5,
                    x >= 0,
            ;
            assert(low * (x + 5) > k * (x * s)) by (nonlinear_arith)
                requires
                    low == k * (s - 4),
                    k > 0,
                    0 <= x <= s,
                    s == 1_000_000_000,
            ;
        }
        if t <= x - 2 {
            let high = k * (s + 1);
            assert(l * (t + 1) <= high * (x - 1)) by (nonlinear_arith)
                requires
                    0 < l < high,
                    0 <= t,
                    t + 1 <= x - 1,
            ;
            assert(high * (x - 1) <= k * (x * s)) by (nonlinear_arith)
                requires
                    high == k * (s + 1),
                    k > 0,
                    0 <= x <= s,
                    s == 1_000_000_000,
            ;
            assert(l * (t + 1) == l * t + l) by (nonlinear_arith);
        }
        assert(tdiv(n, l) == t);
    }
}

/// Making a unit vector a unit vector once more moves no component by more
/// than four raw units.
pub proof fn lemma_unit_renormalized(d: Vec3F)
    requires
        spec_unit(d),
    ensures
        spec_near(d.spec_normalized(), d, 4),
{
    let s = SCALE as int;
    let k = LIFT as int;
    let x = d.x.raw as int;
    let y = d.y.raw as int;
    let z = d.z.raw as int;
    assert(d.spec_lift() == k);
    let q = d.spec_raw_square();
    lemma_unit_raw_square(d);
    let sum = (x * k) * (x * k) + (y * k) * (y * k) + (z * k) * (z * k);
    let kk = k * k;
    assert((x * k) * (x * k) == kk * (x * x)) by (nonlinear_arith)
        requires
            kk == k * k,
    ;
    assert((y * k) * (y * k) == kk * (y * y)) by (nonlinear_arith)
        requires
            kk == k * k,
    ;
    assert((z * k) * (z * k) == kk * (z * z)) by (nonlinear_arith)
        requires
            kk == k * k,
    ;
    assert(sum == kk * q) by (nonlinear_arith)
        requires
            sum == kk * (x * x) + kk * (y * y) + kk * (z * z),
            q == x * x + y * y + z * z,
    ;
    let low = k * (s - 4);
    let high = k * (s + 1);
    assert(low * low == kk * ((s - 4) * (s - 4)) && high * high == kk * ((s + 1) * (s + 1)))
        by (nonlinear_arith)
        requires
            kk == k * k,
            low == k * (s - 4),
            high == k * (s + 1),
    ;
    assert(low * low <= sum < high * high) by (nonlinear_arith)
        requires
            sum == kk * q,
            low * low == kk * ((s - 4) * (s - 4)),
            high * high == kk * ((s + 1) * (s + 1)),
            (s - 4) * (s - 4) <= q < (s + 1) * (s + 1),
            kk > 0,
    ;
    lemma_floor_sqrt_exists(sum);
    let l = d.spec_lifted_length();
    assert(is_floor_sqrt(sum, l));
    assert(low <= l < high) by (nonlinear_arith)
        requires
            0 <= l,
            l * l <= sum < (l + 1) * (l + 1),
            low * low <= sum < high * high,
            0 <= low,
            0 <= high,
    ;
    lemma_component_renormalized(x, k, l);
    lemma_component_renormalized(y, k, l);
    lemma_component_renormalized(z, k, l);
}

/// The dot product of a unit vector with its own unit vector lies between
/// one less twenty-five raw units and one more seventeen.
pub proof fn lemma_cosine_head_on(d: Vec3F)
    requires
        spec_unit(d),
    ensures
        SCALE - 25 <= spec_dot(d.spec_normalized(), d).raw <= SCALE + 17,
{
    let s = SCALE as int;
    let u = d.spec_normalized();
    lemma_unit_renormalized(d);
    lemma_unit_square(d);
    lemma_products_near(u.x.raw as int, d.x.raw as int);
    lemma_products_near(u.y.raw as int, d.y.raw as int);
    lemma_products_near(u.z.raw as int, d.z.raw as int);
}

/// The raw product of a number of `[-1, 1]` with one within four raw units
/// of it lies within five raw units of the number's raw square.
pub proof fn lemma_products_near(u: int, x: int)
    requires
        -SCALE <= x <= SCALE,
        -4 <= u - x <= 4,
    ensures
        -5 <= mul_raw(u, x) - mul_raw(x, x) <= 5,
        -SCALE - 5 <= mul_raw(u, x) <= SCALE + 5,
{
    let s = SCALE as int;
    assert(-4 * s <= u * x - x * x <= 4 * s) by (nonlinear_arith)
        requires
            -s <= x <= s,
            -4 <= u - x <= 4,
    ;
    lemma_quotients_near(u * x, x * x, 4, s);
    lemma_square_split(x);
}

/// Glass whose index is one never reflects a ray that meets it head on,
/// whatever number is drawn, and sends it on unbent: where the direction is
/// a unit vector and the normal is the reversed direction, no component of
/// the scattered direction is further than sixteen raw units from that of
/// the direction.
pub proof fn lemma_matched_glass_passes(
    glass: MaterialDielectric,
    incident: Ray,
    hit: RayIntersection,
    draw: Fp,
)
    requires
        glass.refrac_index == fp(SCALE as int),
        spec_unit(incident.direction),
        hit.normal == incident.direction.spec_neg(),
        draw.raw >= 0,
    ensures
        !glass.spec_reflects(incident, hit, draw),
        glass.spec_scatter_dir(incident, hit, draw) == spec_refract(
            incident.direction,
            hit.normal,
            fp(SCALE as int),
        ),
        spec_near(glass.spec_scatter_dir(incident, hit, draw), incident.direction, 16),
{
    let s = SCALE as int;
    let one = fp(s);
    let d = incident.direction;
    assert(hit.normal.spec_neg() == d);
    let ratio = glass.spec_ratio(hit);
    assert(ratio == one) by {
        vstd::arithmetic::div_mod::lemma_div_multiples_vanish(s, s);
    }
    lemma_cosine_head_on(d);
    let cos_in = MaterialDielectric::spec_cos_in(incident, hit);
    assert(SCALE - 25 <= cos_in.raw <= SCALE);
    lemma_square_split(cos_in.raw as int);
    let sin_in = one.spec_sub(cos_in.spec_mul(cos_in)).spec_sqrt();
    crate::fixed::lemma_sqrt_of_fraction(one.spec_sub(cos_in.spec_mul(cos_in)));
    lemma_mul_one(sin_in);
    crate::materials::lemma_reflectance_matched_media(cos_in);
    let gap = one.spec_sub(cos_in);
    assert(spec_pow5(gap) == fp(0)) by {
        let p = gap.raw as int * gap.raw as int;
        assert(0 <= p < s) by (nonlinear_arith)
            requires
                p == gap.raw as int * gap.raw as int,
                0 <= gap.raw <= 25,
                s == 1_000_000_000,
        ;
        vstd::arithmetic::div_mod::lemma_basic_div(p, s);
        assert(gap.spec_mul(gap) == fp(0));
        assert(0int * 0int == 0);
        assert(0 * gap.raw == 0);
    }
    lemma_refraction_head_on(d);
}

/// What such glass gives back for such a ray, whatever number is drawn: a
/// ray from the hit point whose direction lies within sixteen raw units of
/// the direction that came in, with white weight and probability one.
pub proof fn lemma_matched_glass_scatters_straight_on(
    glass: MaterialDielectric,
    incident: Ray,
    hit: RayIntersection,
    draw: Fp,
    res: ScatteredResult,
)
    requires
        glass.refrac_index == fp(SCALE as int),
        spec_unit(incident.direction),
        hit.normal == incident.direction.spec_neg(),
        draw.raw >= 0,
        glass.spec_scatters_to(incident, hit, draw, res),
    ensures
        res.ray.origin == hit.hit_point,
        spec_near(res.ray.direction, incident.direction, 16),
        res.albedo == (Vec3 { x: fp(SCALE as int), y: fp(SCALE as int), z: fp(SCALE as int) }),
        res.probability == fp(SCALE as int),
{
    lemma_matched_glass_passes(glass, incident, hit, draw);
}

/// The product of two bounded numbers is bounded by the product of the
/// bounds.
pub proof fn lemma_product_bounded(x: int, y: int, bx: int, by: int)
    requires
        -bx <= x <= bx,
        -by <= y <= by,
    ensures
        -(bx * by) <= x * y <= bx * by,
{
    assert((bx - x) * (by + y) >= 0 && (bx + x) * (by - y) >= 0 && (bx - x) * (by - y) >= 0 && (bx
        + x) * (by + y) >= 0) by (nonlinear_arith)
        requires
            -bx <= x <= bx,
            -by <= y <= by,
    ;
    assert((bx - x) * (by + y) + (bx + x) * (by - y) == 2 * (bx * by) - 2 * (x * y))
        by (nonlinear_arith);
    assert((bx - x) * (by - y) + (bx + x) * (by + y) == 2 * (bx * by) + 2 * (x * y))
        by (nonlinear_arith);
}

/// The raw product of two numbers within the given bounds, whose product
/// fits: it is the product over the scale, rounded towards zero, and what
/// the rounding leaves is less than the scale.
pub proof fn lemma_product_rounded(x: int, y: int, bx: int, by: int)
    requires
        -bx <= x <= bx,
        -by <= y <= by,
        0 <= bx * by <= 100 * SCALE * SCALE,
    ensures
        -SCALE < x * y - SCALE * mul_raw(x, y) < SCALE,
        -(bx * by) <= SCALE * mul_raw(x, y) <= bx * by,
{
    let s = SCALE as int;
    lemma_product_bounded(x, y, bx, by);
    lemma_quotient_close(x * y, s);
    let t = tdiv(x * y, s);
    assert(t * s == s * t) by (nonlinear_arith);
    assert(-(100 * s) - 1 <= t <= 100 * s + 1) by (nonlinear_arith)
        requires
            x * y - s < s * t < x * y + s,
            -(100 * s * s) <= x * y <= 100 * s * s,
            s == 1_000_000_000,
    ;
    if x * y >= 0 {
        vstd::arithmetic::div_mod::lemma_fundamental_div_mod(x * y, s);
        vstd::arithmetic::div_mod::lemma_mod_bound(x * y, s);
    } else {
        vstd::arithmetic::div_mod::lemma_fundamental_div_mod(-(x * y), s);
        vstd::arithmetic::div_mod::lemma_mod_bound(-(x * y), s);
    }
}

/// One component of the part of a direction across a normal: the sum of
/// products that its square contributes. With `m` the raw product of the
/// normal's component `n` and the cosine `c`, and `rest` what the rounding
/// of that product left, the direction's component `d` gives
/// `d^2 - (d - m)^2 = 2 d m - m^2`, and the scale times `m` is `n c - rest`.
pub proof fn lemma_across_component(d: int, n: int, c: int, m: int, rest: int)
    requires
        rest == n * c - SCALE * m,
    ensures
        d * d - (d - m) * (d - m) == 2 * (d * m) - m * m,
        SCALE * (d * m) == c * (d * n) - d * rest,
        (SCALE * SCALE) * (m * m) == (n * n) * (c * c) - 2 * (c * (n * rest)) + rest * rest,
{
    let s = SCALE as int;
    let u = n * c;
    let sm = s * m;
    assert(d * d - (d - m) * (d - m) == 2 * (d * m) - m * m) by (nonlinear_arith);
    assert(s * (d * m) == d * sm) by (nonlinear_arith)
        requires
            sm == s * m,
    ;
    assert(d * sm == d * u - d * rest) by (nonlinear_arith)
        requires
            sm == u - rest,
    ;
    assert(d * u == c * (d * n)) by (nonlinear_arith)
        requires
            u == n * c,
    ;
    assert((s * s) * (m * m) == sm * sm) by (nonlinear_arith)
        requires
            sm == s * m,
    ;
    assert(sm * sm == u * u - 2 * (u * rest) + rest * rest) by (nonlinear_arith)
        requires
            sm == u - rest,
    ;
    assert(u * u == (n * n) * (c * c)) by (nonlinear_arith)
        requires
            u == n * c,
    ;
    assert(u * rest == c * (n * rest)) by (nonlinear_arith)
        requires
            u == n * c,
    ;
}

/// Between a unit direction and a unit normal, the squared length of the
/// direction less that of its part across the normal is the square of the
/// cosine, to within 115 times the scale in squares of raw units.
pub proof fn lemma_side_squared(d: Vec3F, n: Vec3F)
    requires
        spec_unit(d),
        spec_unit(n),
    ensures
        ({
            let c = spec_dot(d, n).raw as int;
            let across = crate::materials::spec_refract_perp(d, n, fp(SCALE as int));
            let gap = d.spec_raw_square() - across.spec_raw_square();
            &&& -3 * SCALE <= c <= 3 * SCALE
            &&& -(115 * SCALE) <= gap - c * c <= 115 * SCALE
            &&& across.x.raw == d.x.raw - mul_raw(n.x.raw as int, c)
            &&& across.y.raw == d.y.raw - mul_raw(n.y.raw as int, c)
            &&& across.z.raw == d.z.raw - mul_raw(n.z.raw as int, c)
        }),
{
    let s = SCALE as int;
    let (d1, d2, d3) = (d.x.raw as int, d.y.raw as int, d.z.raw as int);
    let (n1, n2, n3) = (n.x.raw as int, n.y.raw as int, n.z.raw as int);
    assert(s * s == 1_000_000_000_000_000_000) by (nonlinear_arith)
        requires
            s == 1_000_000_000,
    ;
    lemma_product_rounded(d1, n1, s, s);
    lemma_product_rounded(d2, n2, s, s);
    lemma_product_rounded(d3, n3, s, s);
    let (t1, t2, t3) = (mul_raw(d1, n1), mul_raw(d2, n2), mul_raw(d3, n3));
    let c = t1 + t2 + t3;
    assert(spec_dot(d, n).raw == c);
    let sig = (d1 * n1 + d2 * n2 + d3 * n3) - s * c;
    assert(-3 * s < sig < 3 * s);
    assert((3 * s) * s == 3_000_000_000_000_000_000) by (nonlinear_arith)
        requires
            s == 1_000_000_000,
    ;
    assert(s * (3 * s) == 3_000_000_000_000_000_000) by (nonlinear_arith)
        requires
            s == 1_000_000_000,
    ;
    lemma_product_rounded(n1, c, s, 3 * s);
    lemma_product_rounded(n2, c, s, 3 * s);
    lemma_product_rounded(n3, c, s, 3 * s);
    let (m1, m2, m3) = (mul_raw(n1, c), mul_raw(n2, c), mul_raw(n3, c));
    let (r1, r2, r3) = (n1 * c - s * m1, n2 * c - s * m2, n3 * c - s * m3);
    let before = d.spec_sub(n.spec_scale(spec_dot(d, n)));
    assert(before.x.raw == d1 - m1 && before.y.raw == d2 - m2 && before.z.raw == d3 - m3);
    lemma_mul_one(before.x);
    lemma_mul_one(before.y);
    lemma_mul_one(before.z);
    let across = crate::materials::spec_refract_perp(d, n, fp(SCALE as int));
    assert(across.x.raw == d1 - m1 && across.y.raw == d2 - m2 && across.z.raw == d3 - m3);
    lemma_across_component(d1, n1, c, m1, r1);
    lemma_across_component(d2, n2, c, m2, r2);
    lemma_across_component(d3, n3, c, m3, r3);
    let cc = c * c;
    lemma_product_bounded(c, c, 3 * s, 3 * s);
    assert((3 * s) * (3 * s) == 9_000_000_000_000_000_000) by (nonlinear_arith)
        requires
            s == 1_000_000_000,
    ;
    assert(cc >= 0) by (nonlinear_arith)
        requires
            cc == c * c,
    ;
    // The sum of the products of the direction with the rounded products.
    let x = d1 * m1 + d2 * m2 + d3 * m3;
    let rd = d1 * r1 + d2 * r2 + d3 * r3;
    lemma_product_bounded(d1, r1, s, s);
    lemma_product_bounded(d2, r2, s, s);
    lemma_product_bounded(d3, r3, s, s);
    lemma_product_bounded(c, sig, 3 * s, 3 * s);
    assert(s * x == c * (d1 * n1) + c * (d2 * n2) + c * (d3 * n3) - rd);
    assert(c * (d1 * n1) + c * (d2 * n2) + c * (d3 * n3) == c * (s * c + sig))
        by (nonlinear_arith)
        requires
            sig == (d1 * n1 + d2 * n2 + d3 * n3) - s * c,
    ;
    assert(c * (s * c + sig) == s * cc + c * sig) by (nonlinear_arith)
        requires
            cc == c * c,
    ;
    assert(-(12 * s) <= x - cc <= 12 * s);
    // The sum of the squares of the rounded products.
    let y = m1 * m1 + m2 * m2 + m3 * m3;
    let rn = n1 * r1 + n2 * r2 + n3 * r3;
    let rr = r1 * r1 + r2 * r2 + r3 * r3;
    lemma_product_bounded(n1, r1, s, s);
    lemma_product_bounded(n2, r2, s, s);
    lemma_product_bounded(n3, r3, s, s);
    lemma_product_bounded(r1, r1, s, s);
    lemma_product_bounded(r2, r2, s, s);
    lemma_product_bounded(r3, r3, s, s);
    lemma_unit_raw_square(n);
    let qn = n.spec_raw_square();
    assert((s - 4) * (s - 4) == s * s - 8 * s + 16 && (s + 1) * (s + 1) == s * s + 2 * s + 1)
        by (nonlinear_arith);
    lemma_product_bounded(cc, qn - s * s, 9 * (s * s), 8 * s);
    lemma_product_bounded(c, rn, 3 * s, 3 * (s * s));
    assert((9 * (s * s)) * (8 * s) == 72 * (s * s) * s && (3 * s) * (3 * (s * s)) == 9 * (s * s)
        * s) by (nonlinear_arith);
    assert((s * s) * y == (n1 * n1) * cc + (n2 * n2) * cc + (n3 * n3) * cc - 2 * (c * (n1 * r1))
        - 2 * (c * (n2 * r2)) - 2 * (c * (n3 * r3)) + rr);
    assert((n1 * n1) * cc + (n2 * n2) * cc + (n3 * n3) * cc == cc * (qn - s * s) + (s * s) * cc)
        by (nonlinear_arith)
        requires
            qn == n1 * n1 + n2 * n2 + n3 * n3,
    ;
    assert(c * (n1 * r1) + c * (n2 * r2) + c * (n3 * r3) == c * rn) by (nonlinear_arith)
        requires
            rn == n1 * r1 + n2 * r2 + n3 * r3,
    ;
    let e = y - cc;
    assert((s * s) * y - (s * s) * cc == (s * s) * e) by (nonlinear_arith)
        requires
            e == y - cc,
    ;
    assert((s * s) * s == 1_000_000_000_000_000_000_000_000_000) by (nonlinear_arith)
        requires
            s == 1_000_000_000,
    ;
    assert(-(90 * s + 3) <= e <= 90 * s + 3);
}

/// A number whose square lies within `b` of the square of another, both
/// not negative, lies within `t` of the other, where `t^2` is at least `b`.
pub proof fn lemma_near_from_squares(x: int, y: int, b: int, t: int)
    requires
        0 <= x,
        0 <= y,
        0 <= t,
        -b <= x * x - y * y <= b,
        b <= t * t,
    ensures
        -t <= x - y <= t,
{
    if x - y > t {
        assert(x * x - y * y > t * t) by (nonlinear_arith)
            requires
                x - y > t,
                0 <= y,
                0 <= t,
        ;
    }
    if y - x > t {
        assert(y * y - x * x > t * t) by (nonlinear_arith)
            requires
                y - x > t,
                0 <= x,
                0 <= t,
        ;
    }
}

/// One component of the refracted direction where the indices match: with
/// `c` the cosine, not above zero, and `side` a length within `t` raw
/// units of the cosine's size, the normal's component `n` times the cosine
/// and `n` times the side cancel to within `t + 1` raw units.
pub proof fn lemma_component_straight(n: int, c: int, side: int, t: int)
    requires
        -SCALE <= n <= SCALE,
        -3 * SCALE <= c <= 0,
        0 <= side <= 4 * SCALE,
        0 <= t,
        -t <= side + c <= t,
    ensures
        -(t + 1) <= mul_raw(n, c) + mul_raw(n, side) <= t + 1,
{
    let s = SCALE as int;
    assert(s * (3 * s) == 3_000_000_000_000_000_000 && s * (4 * s) == 4_000_000_000_000_000_000)
        by (nonlinear_arith)
        requires
            s == 1_000_000_000,
    ;
    lemma_product_rounded(n, c, s, 3 * s);
    lemma_product_rounded(n, side, s, 4 * s);
    lemma_product_bounded(n, side + c, s, t);
    assert(n * (side + c) == n * side + n * c) by (nonlinear_arith);
    assert(s * t == t * s) by (nonlinear_arith);
    let sum = mul_raw(n, c) + mul_raw(n, side);
    assert(-(t + 1) <= sum <= t + 1) by (nonlinear_arith)
        requires
            -s < n * c - s * mul_raw(n, c) < s,
            -s < n * side - s * mul_raw(n, side) < s,
            -(s * t) <= n * side + n * c <= s * t,
            sum == mul_raw(n, c) + mul_raw(n, side),
            s == 1_000_000_000,
    ;
}

/// Where the indices match, refraction bends no ray: for a unit direction
/// that meets a surface against its unit normal, no component of the
/// refracted direction is further than 400000 raw units, which is 0.0004,
/// from that of the direction. So much is left of the rounding where the
/// ray runs along the surface; where it meets the surface head on, sixteen
/// raw units are left.
pub proof fn lemma_refraction_at_matched_indices(d: Vec3F, n: Vec3F)
    requires
        spec_unit(d),
        spec_unit(n),
        spec_dot(d, n).raw <= 0,
    ensures
        spec_near(spec_refract(d, n, fp(SCALE as int)), d, 400_000),
{
    let s = SCALE as int;
    let t = 399_999int;
    lemma_side_squared(d, n);
    let c = spec_dot(d, n).raw as int;
    let across = crate::materials::spec_refract_perp(d, n, fp(SCALE as int));
    let gap = d.spec_raw_square() - across.spec_raw_square();
    let size = if gap >= 0 {
        gap
    } else {
        -gap
    };
    lemma_floor_sqrt_exists(size);
    let side = crate::fixed::floor_sqrt(size);
    let cc = c * c;
    lemma_product_bounded(c, c, 3 * s, 3 * s);
    assert((3 * s) * (3 * s) == 9_000_000_000_000_000_000 && (4 * s) * (4 * s)
        == 16_000_000_000_000_000_000) by (nonlinear_arith)
        requires
            s == 1_000_000_000,
    ;
    assert(cc >= 0) by (nonlinear_arith)
        requires
            cc == c * c,
    ;
    assert(side < 4 * s) by {
        crate::fixed::lemma_floor_sqrt_bounds(size, side, 4 * s);
    }
    assert(-(124 * s) <= side * side - cc <= 124 * s) by (nonlinear_arith)
        requires
            0 <= side < 4 * s,
            side * side <= size < (side + 1) * (side + 1),
            size == gap || size == -gap,
            size >= 0,
            -(115 * s) <= gap - cc <= 115 * s,
            cc >= 0,
            s == 1_000_000_000,
    ;
    assert((-c) * (-c) == cc) by (nonlinear_arith)
        requires
            cc == c * c,
    ;
    assert(124 * s <= t * t) by (nonlinear_arith)
        requires
            t == 399_999,
            s == 1_000_000_000,
    ;
    lemma_near_from_squares(side, -c, 124 * s, t);
    assert(crate::materials::spec_refract_side(d, across) == fp(side));
    lemma_component_straight(n.x.raw as int, c, side, t);
    lemma_component_straight(n.y.raw as int, c, side, t);
    lemma_component_straight(n.z.raw as int, c, side, t);
    lemma_product_negated(n.x.raw as int, side);
    lemma_product_negated(n.y.raw as int, side);
    lemma_product_negated(n.z.raw as int, side);
    assert(s * (4 * s) == 4_000_000_000_000_000_000 && s * (3 * s) == 3_000_000_000_000_000_000)
        by (nonlinear_arith)
        requires
            s == 1_000_000_000,
    ;
    lemma_product_rounded(n.x.raw as int, side, s, 4 * s);
    lemma_product_rounded(n.y.raw as int, side, s, 4 * s);
    lemma_product_rounded(n.z.raw as int, side, s, 4 * s);
    lemma_product_rounded(n.x.raw as int, c, s, 3 * s);
    lemma_product_rounded(n.y.raw as int, c, s, 3 * s);
    lemma_product_rounded(n.z.raw as int, c, s, 3 * s);
}

} // verus!
