//! The clearance that a box test needs: a ray that reaches a point well inside a box
//! passes the box test, whatever the rounding does.

use crate::bvh::{boxes_admit, hit_at, lemma_boxes_hold_shapes, lemma_covers_within, BvhNode};
use crate::fixed::{fp, tdiv, Fp, SCALE};
use crate::bvh::{lemma_bvh_agrees_with_scan, spec_bvh_ray_intersect, spec_scan};
use crate::shapes::{sign_bit, spec_slab_far, spec_slab_near, Aabb, Quad, Ray, Shape};
use crate::vecmath::Vec3F;
use vstd::prelude::*;

verus! {

/// The largest raw size of a coordinate for which the lemmas of this module
/// are stated: two to the sixtieth, which is more than a thousand million
/// units.
pub const COORD_MAX: i64 = 0x1000_0000_0000_0000;

/// Whether `margin` raw units are room enough for the rounding of the box
/// test at the parameter `t`: one unit for each thousand million of `t`,
/// and two more, and a little.
pub open spec fn spec_margin_suffices(margin: int, t: int) -> bool {
    margin * (SCALE - 1) >= t + 2 * SCALE
}

/// The core of the matter, for a direction component that is positive and
/// at most one. `g` and `h` are the distances from the origin to the near
/// and the far side of the extent, `m` is the way that the ray has gone at
/// `t`, and `inv` is the reciprocal of the component. Where the ray's point
/// lies `margin` inside the extent, the entry is at most `t` and the exit
/// lies beyond `t`.
pub proof fn lemma_slab_core(g: int, h: int, d: int, t: int, margin: int)
    requires
        0 < d <= SCALE,
        0 <= t,
        0 <= margin,
        g <= (d * t) / (SCALE as int) - margin,
        h >= (d * t) / (SCALE as int) + margin,
        spec_margin_suffices(margin, t),
    ensures
        tdiv(g * ((SCALE * SCALE) / d), SCALE as int) <= t,
        tdiv(h * ((SCALE * SCALE) / d), SCALE as int) > t,
{
    let s = SCALE as int;
    let m = (d * t) / s;
    let inv = (s * s) / d;
    assert(d * t >= 0) by (nonlinear_arith)
        requires
            d > 0,
            t >= 0,
    ;
    vstd::arithmetic::div_mod::lemma_fundamental_div_mod(d * t, s);
    vstd::arithmetic::div_mod::lemma_mod_bound(d * t, s);
    vstd::arithmetic::div_mod::lemma_fundamental_div_mod(s * s, d);
    vstd::arithmetic::div_mod::lemma_mod_bound(s * s, d);
    let ms = m * s;
    let id = inv * d;
    assert(ms == s * m && id == d * inv) by (nonlinear_arith)
        requires
            ms == m * s,
            id == inv * d,
    ;
    assert(ms <= d * t && ms > d * t - s);
    assert(id <= s * s && id > s * s - d);
    assert(m >= 0) by (nonlinear_arith)
        requires
            m * s > d * t - s,
            d * t >= 0,
            s > 0,
    ;
    assert(inv >= 0) by (nonlinear_arith)
        requires
            inv * d > s * s - d,
            0 < d <= s,
            s > 0,
    ;
    // The entry.
    if g <= 0 {
        assert(g * inv <= 0) by (nonlinear_arith)
            requires
                g <= 0,
                inv >= 0,
        ;
        assert((-(g * inv)) / s >= 0) by (nonlinear_arith)
            requires
                g * inv <= 0,
                s > 0,
        ;
    } else {
        assert(m * inv * d <= d * (t * s)) by (nonlinear_arith)
            requires
                m * s <= d * t,
                inv * d <= s * s,
                m >= 0,
                inv >= 0,
                d > 0,
                s > 0,
        ;
        assert(m * inv <= t * s) by (nonlinear_arith)
            requires
                m * inv * d <= d * (t * s),
                d > 0,
        ;
        assert(g * inv <= m * inv) by (nonlinear_arith)
            requires
                g <= m,
                inv >= 0,
        ;
        assert(g * inv >= 0) by (nonlinear_arith)
            requires
                g > 0,
                inv >= 0,
        ;
        vstd::arithmetic::div_mod::lemma_div_is_ordered(g * inv, t * s, s);
        vstd::arithmetic::div_mod::lemma_div_multiples_vanish(t, s);
    }
    // The exit.
    let lower = (d * t - s) * (s * s - d);
    assert(ms * id >= lower) by (nonlinear_arith)
        requires
            ms > d * t - s,
            ms >= 0,
            id > s * s - d,
            id >= 0,
            s * s - d >= 0,
            lower == (d * t - s) * (s * s - d),
    {
        if d * t - s >= 0 {
            assert(ms * id >= (d * t - s) * (s * s - d));
        } else {
            assert(ms * id >= 0);
            assert((d * t - s) * (s * s - d) <= 0);
        }
    }
    assert(s * s - d >= 0 && id >= 0) by (nonlinear_arith)
        requires
            0 < d <= s,
            s >= 1,
            id > s * s - d,
    ;
    assert(m >= 0 ==> ms >= 0) by (nonlinear_arith)
        requires
            ms == m * s,
            s > 0,
    ;
    assert(margin * s * id >= (t + 2 * s) * (s * s)) by (nonlinear_arith)
        requires
            id >= s * s - s,
            margin * (s - 1) >= t + 2 * s,
            margin >= 0,
            s >= 1,
    {
        assert(margin * s * id >= margin * s * (s * s - s));
        assert(margin * s * (s * s - s) == (margin * (s - 1)) * (s * s));
    }
    assert(id >= s * s - s) by (nonlinear_arith)
        requires
            id > s * s - d,
            d <= s,
    ;
    assert(lower + (t + 2 * s) * (s * s) >= (t + 1) * d * (s * s)) by (nonlinear_arith)
        requires
            lower == (d * t - s) * (s * s - d),
            0 < d <= s,
            t >= 0,
            s >= 1,
    {
        assert(lower == d * t * (s * s) - d * d * t - s * (s * s) + s * d);
        assert(d * d * t <= s * s * t);
        assert(s * (s * s) >= d * (s * s));
    }
    assert((m + margin) * inv * (d * s) == ms * id + margin * s * id) by (nonlinear_arith)
        requires
            ms == m * s,
            id == inv * d,
    ;
    assert((m + margin) * inv * (d * s) >= (t + 1) * s * (d * s)) by (nonlinear_arith)
        requires
            (m + margin) * inv * (d * s) == ms * id + margin * s * id,
            ms * id >= lower,
            margin * s * id >= (t + 2 * s) * (s * s),
            lower + (t + 2 * s) * (s * s) >= (t + 1) * d * (s * s),
    ;
    assert((m + margin) * inv >= (t + 1) * s) by (nonlinear_arith)
        requires
            (m + margin) * inv * (d * s) >= (t + 1) * s * (d * s),
            d > 0,
            s > 0,
    ;
    assert(h * inv >= (m + margin) * inv) by (nonlinear_arith)
        requires
            h >= m + margin,
            inv >= 0,
    ;
    assert(h * inv >= 0) by (nonlinear_arith)
        requires
            h * inv >= (t + 1) * s,
            t >= 0,
            s > 0,
    ;
    vstd::arithmetic::div_mod::lemma_div_is_ordered((t + 1) * s, h * inv, s);
    vstd::arithmetic::div_mod::lemma_div_multiples_vanish(t + 1, s);
}

/// Whether a number is small enough for the lemmas of this module.
pub open spec fn spec_small(x: Fp) -> bool {
    -COORD_MAX <= x.raw <= COORD_MAX
}

/// Whether every component of a vector is small enough.
pub open spec fn spec_small_vector(v: Vec3F) -> bool {
    spec_small(v.x) && spec_small(v.y) && spec_small(v.z)
}

/// Where the ray's point at `t` lies `margin` raw units inside an extent
/// along one axis, the ray enters the extent at `t` or before and leaves it
/// after `t`, as the box test computes entry and exit. The direction's
/// component is at most one in size.
pub proof fn lemma_slab_holds(lo: Fp, hi: Fp, o: Fp, d: Fp, t: Fp, margin: int)
    requires
        spec_small(lo),
        spec_small(hi),
        spec_small(o),
        -SCALE <= d.raw <= SCALE,
        0 <= t.raw <= COORD_MAX,
        spec_margin_suffices(margin, t.raw as int),
        lo.raw + margin <= o.spec_add(d.spec_mul(t)).raw,
        o.spec_add(d.spec_mul(t)).raw <= hi.raw - margin,
    ensures
        ({
            let inv = fp(SCALE as int).spec_div(d);
            &&& spec_slab_near(lo, hi, o, d, inv, sign_bit(inv)).raw <= t.raw
            &&& t.raw < spec_slab_far(lo, hi, o, d, inv, sign_bit(inv)).raw
        }),
{
    let s = SCALE as int;
    let tt = t.raw as int;
    assert(margin > 0) by (nonlinear_arith)
        requires
            margin * (s - 1) >= tt + 2 * s,
            tt >= 0,
            s == 1_000_000_000,
    ;
    if d.raw == 0 {
        assert(0 * tt == 0);
        assert(d.spec_mul(t) == fp(0));
    } else if d.raw > 0 {
        let dd = d.raw as int;
        let m = (dd * tt) / s;
        let inv = (s * s) / dd;
        assert(0 <= dd * tt <= s * tt) by (nonlinear_arith)
            requires
                0 < dd <= s,
                tt >= 0,
        ;
        vstd::arithmetic::div_mod::lemma_div_is_ordered(dd * tt, s * tt, s);
        vstd::arithmetic::div_mod::lemma_div_multiples_vanish(tt, s);
        vstd::arithmetic::div_mod::lemma_div_is_ordered(0, dd * tt, s);
        assert(0 <= m <= tt) by {
            assert(s * tt == tt * s) by (nonlinear_arith);
        }
        assert(d.spec_mul(t).raw == m);
        vstd::arithmetic::div_mod::lemma_div_is_ordered_by_denominator(s * s, 1, dd);
        vstd::arithmetic::div_mod::lemma_div_is_ordered_by_denominator(s * s, dd, s);
        assert((s * s) / 1 == s * s);
        assert((s * s) / s == s) by {
            vstd::arithmetic::div_mod::lemma_div_multiples_vanish(s, s);
        }
        assert(s <= inv <= s * s);
        assert(fp(s).spec_div(d).raw == inv);
        lemma_slab_core(lo.raw - o.raw, hi.raw - o.raw, dd, tt, margin);
    } else {
        let dd = -(d.raw as int);
        let m = (dd * tt) / s;
        let inv = (s * s) / dd;
        assert(0 <= dd * tt <= s * tt) by (nonlinear_arith)
            requires
                0 < dd <= s,
                tt >= 0,
        ;
        vstd::arithmetic::div_mod::lemma_div_is_ordered(dd * tt, s * tt, s);
        vstd::arithmetic::div_mod::lemma_div_multiples_vanish(tt, s);
        vstd::arithmetic::div_mod::lemma_div_is_ordered(0, dd * tt, s);
        assert(0 <= m <= tt) by {
            assert(s * tt == tt * s) by (nonlinear_arith);
        }
        assert((d.raw as int) * tt == -(dd * tt)) by (nonlinear_arith)
            requires
                dd == -(d.raw as int),
        ;
        assert(d.spec_mul(t).raw == -m);
        vstd::arithmetic::div_mod::lemma_div_is_ordered_by_denominator(s * s, 1, dd);
        vstd::arithmetic::div_mod::lemma_div_is_ordered_by_denominator(s * s, dd, s);
        assert((s * s) / 1 == s * s);
        assert((s * s) / s == s) by {
            vstd::arithmetic::div_mod::lemma_div_multiples_vanish(s, s);
        }
        assert(s <= inv <= s * s);
        assert(fp(s).spec_div(d).raw == -inv);
        let g = o.raw - hi.raw;
        let h = o.raw - lo.raw;
        lemma_slab_core(g, h, dd, tt, margin);
        assert((hi.raw - o.raw) * (-inv) == g * inv) by (nonlinear_arith)
            requires
                g == o.raw - hi.raw,
        ;
        assert((lo.raw - o.raw) * (-inv) == h * inv) by (nonlinear_arith)
            requires
                h == o.raw - lo.raw,
        ;
    }
}

/// Whether the point lies `margin` raw units inside the box on every axis.
pub open spec fn spec_well_inside(b: Aabb, p: Vec3F, margin: int) -> bool {
    &&& b.min.x.raw + margin <= p.x.raw && p.x.raw <= b.max.x.raw - margin
    &&& b.min.y.raw + margin <= p.y.raw && p.y.raw <= b.max.y.raw - margin
    &&& b.min.z.raw + margin <= p.z.raw && p.z.raw <= b.max.z.raw - margin
}

/// Whether the corners of the box are small enough.
pub open spec fn spec_small_box(b: Aabb) -> bool {
    spec_small_vector(b.min) && spec_small_vector(b.max)
}

/// Whether the ray is one of which the lemmas of this module speak: its
/// reciprocal and signs are those of its direction, its origin is small
/// enough, and no component of its direction exceeds one in size.
pub open spec fn spec_plain_ray(ray: Ray) -> bool {
    &&& ray.wf()
    &&& spec_small_vector(ray.origin)
    &&& -SCALE <= ray.direction.x.raw <= SCALE
    &&& -SCALE <= ray.direction.y.raw <= SCALE
    &&& -SCALE <= ray.direction.z.raw <= SCALE
}

/// A ray whose point at `t` lies well inside a box passes the box test.
pub proof fn lemma_box_holds_ray(b: Aabb, ray: Ray, t: Fp, margin: int)
    requires
        spec_plain_ray(ray),
        spec_small_box(b),
        0 <= t.raw <= COORD_MAX,
        spec_margin_suffices(margin, t.raw as int),
        spec_well_inside(b, ray.spec_at(t), margin),
    ensures
        b.spec_ray_intersect(ray),
{
    lemma_slab_holds(b.min.x, b.max.x, ray.origin.x, ray.direction.x, t, margin);
    lemma_slab_holds(b.min.y, b.max.y, ray.origin.y, ray.direction.y, t, margin);
    lemma_slab_holds(b.min.z, b.max.z, ray.origin.z, ray.direction.z, t, margin);
    assert(ray.signs[0] == ray.signs@[0]);
    assert(ray.signs[1] == ray.signs@[1]);
    assert(ray.signs[2] == ray.signs@[2]);
}

/// Whether the shape at `j` has a small box and, where the ray hits it
/// within the limits, is hit at a parameter that is not negative and at a
/// point `margin` raw units inside its own box, `margin` being room enough
/// for that parameter.
pub open spec fn hit_has_clearance(
    shapes: Seq<Shape>,
    ray: Ray,
    start: Fp,
    end: Fp,
    j: int,
    margin: int,
) -> bool {
    let found = hit_at(shapes, ray, start, end, j);
    &&& spec_small_box(shapes[j].spec_aabb())
    &&& found.hit ==> {
        &&& 0 <= found.t.raw <= COORD_MAX
        &&& spec_margin_suffices(margin, found.t.raw as int)
        &&& spec_well_inside(shapes[j].spec_aabb(), found.hit_point, margin)
    }
}

/// Whether every shape from `lo` up to `hi` has clearance for the ray.
pub open spec fn hits_have_clearance(
    shapes: Seq<Shape>,
    ray: Ray,
    start: Fp,
    end: Fp,
    lo: int,
    hi: int,
    margin: int,
) -> bool {
    forall|j: int|
        lo <= j < hi ==> #[trigger] hit_has_clearance(shapes, ray, start, end, j, margin)
}

/// The hit point that a shape reports is the ray's point at the reported
/// parameter.
pub proof fn lemma_hit_point_on_ray(shapes: Seq<Shape>, ray: Ray, start: Fp, end: Fp, j: int)
    ensures
        hit_at(shapes, ray, start, end, j).hit ==> hit_at(shapes, ray, start, end, j).hit_point
            == ray.spec_at(hit_at(shapes, ray, start, end, j).t),
{
    reveal(hit_at);
}

/// The box of a tree over shapes with small boxes is small.
pub proof fn lemma_boxes_small(node: BvhNode, shapes: Seq<Shape>, lo: int)
    requires
        node.covers(shapes, lo),
        forall|j: int|
            lo <= j < lo + node.leaves() ==> spec_small_box((#[trigger] shapes[j]).spec_aabb()),
    ensures
        spec_small_box(node.spec_aabb()),
    decreases node,
{
    match node {
        BvhNode::Leaf(leaf) => {},
        BvhNode::Link(link) => {
            lemma_boxes_small(*link.left, shapes, lo);
            lemma_boxes_small(*link.right, shapes, lo + link.left.leaves());
        },
    }
}

/// The premise of the agreement of tree and scan holds for a ray of
/// moderate direction that hits every shape well inside the shape's box: no
/// box of the tree is then missed where a shape under it is hit.
pub proof fn lemma_clearance_admits(
    node: BvhNode,
    shapes: Seq<Shape>,
    ray: Ray,
    start: Fp,
    end: Fp,
    lo: int,
    margin: int,
)
    requires
        node.covers(shapes, lo),
        spec_plain_ray(ray),
        hits_have_clearance(shapes, ray, start, end, lo, lo + node.leaves(), margin),
    ensures
        boxes_admit(node, shapes, ray, start, end, lo),
    decreases node,
{
    lemma_covers_within(node, shapes, lo);
    let hi = lo + node.leaves();
    if exists|j: int| lo <= j < hi && (#[trigger] hit_at(shapes, ray, start, end, j)).hit {
        let j = choose|j: int| lo <= j < hi && (#[trigger] hit_at(shapes, ray, start, end, j)).hit;
        let found = hit_at(shapes, ray, start, end, j);
        lemma_hit_point_on_ray(shapes, ray, start, end, j);
        lemma_boxes_hold_shapes(node, shapes, lo, j);
        assert(hit_has_clearance(shapes, ray, start, end, j, margin));
        assert forall|k: int| lo <= k < hi implies spec_small_box(
            (#[trigger] shapes[k]).spec_aabb(),
        ) by {
            assert(hit_has_clearance(shapes, ray, start, end, k, margin));
        }
        lemma_boxes_small(node, shapes, lo);
        lemma_box_holds_ray(node.spec_aabb(), ray, found.t, margin);
    }
    match node {
        BvhNode::Leaf(leaf) => {},
        BvhNode::Link(link) => {
            lemma_covers_within(*link.left, shapes, lo);
            lemma_covers_within(*link.right, shapes, lo + link.left.leaves());
            assert forall|k: int| lo <= k < lo + link.left.leaves() implies #[trigger] hit_has_clearance(
                shapes,
                ray,
                start,
                end,
                k,
                margin,
            ) by {}
            assert forall|k: int|
                lo + link.left.leaves() <= k < hi implies #[trigger] hit_has_clearance(
                shapes,
                ray,
                start,
                end,
                k,
                margin,
            ) by {}
            lemma_clearance_admits(*link.left, shapes, ray, start, end, lo, margin);
            lemma_clearance_admits(
                *link.right,
                shapes,
                ray,
                start,
                end,
                lo + link.left.leaves(),
                margin,
            );
        },
    }
}

/// The query on the tree and the scan over the shapes agree for a ray of
/// moderate direction that hits every shape well inside the shape's box:
/// both hit or both miss, and where they hit they give the same record and
/// the same shape.
pub proof fn lemma_bvh_agrees_where_hits_have_clearance(
    node: BvhNode,
    shapes: Seq<Shape>,
    ray: Ray,
    start: Fp,
    end: Fp,
    lo: int,
    margin: int,
)
    requires
        node.covers(shapes, lo),
        spec_plain_ray(ray),
        hits_have_clearance(shapes, ray, start, end, lo, lo + node.leaves(), margin),
    ensures
        ({
            let by_tree = spec_bvh_ray_intersect(node, shapes, ray, start, end);
            let by_scan = spec_scan(shapes, ray, start, end, lo, lo + node.leaves());
            &&& by_tree.0.hit == by_scan.0.hit
            &&& by_tree.0.hit ==> by_tree.0 == by_scan.0 && by_tree.1 == by_scan.1
        }),
{
    lemma_clearance_admits(node, shapes, ray, start, end, lo, margin);
    lemma_bvh_agrees_with_scan(node, shapes, ray, start, end, lo);
}

/// A number scaled by a fraction lies between zero and the number.
pub proof fn lemma_scaled_between(e: Fp, a: Fp)
    requires
        0 <= a.raw <= SCALE,
        e.in_range(),
    ensures
        e.raw >= 0 ==> 0 <= e.spec_mul(a).raw <= e.raw,
        e.raw <= 0 ==> e.raw <= e.spec_mul(a).raw <= 0,
{
    let s = SCALE as int;
    let m = if e.raw < 0 {
        -(e.raw as int)
    } else {
        e.raw as int
    };
    let aa = a.raw as int;
    assert(0 <= m * aa <= m * s) by (nonlinear_arith)
        requires
            m >= 0,
            0 <= aa <= s,
    ;
    vstd::arithmetic::div_mod::lemma_div_is_ordered(m * aa, m * s, s);
    vstd::arithmetic::div_mod::lemma_div_is_ordered(0, m * aa, s);
    vstd::arithmetic::div_mod::lemma_div_multiples_vanish(m, s);
    assert(m * s == s * m) by (nonlinear_arith);
    assert((e.raw as int) * aa == if e.raw < 0 {
        -(m * aa)
    } else {
        m * aa
    }) by (nonlinear_arith)
        requires
            m == if e.raw < 0 {
                -(e.raw as int)
            } else {
                e.raw as int
            },
    ;
}

/// The box of a parallelogram holds the whole parallelogram: every point
/// that lies at fractions of the two edges from the corner. Corner and edges
/// are small enough for their sums to be exact.
pub proof fn lemma_box_holds_parallelogram(q: Quad, a: Fp, b: Fp)
    requires
        spec_small_vector(q.corner),
        spec_small_vector(q.edges[0]),
        spec_small_vector(q.edges[1]),
        0 <= a.raw <= SCALE,
        0 <= b.raw <= SCALE,
    ensures
        Aabb::spec_from_quad(q).contains_point(q.spec_point(a, b)),
{
    lemma_scaled_between(q.edges[0].x, a);
    lemma_scaled_between(q.edges[0].y, a);
    lemma_scaled_between(q.edges[0].z, a);
    lemma_scaled_between(q.edges[1].x, b);
    lemma_scaled_between(q.edges[1].y, b);
    lemma_scaled_between(q.edges[1].z, b);
}

} // verus!
