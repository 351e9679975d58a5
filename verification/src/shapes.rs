//! Rays, spheres, parallelograms and axis-aligned boxes.

use crate::fixed::{
    div_raw, floor_sqrt, fp, isqrt, lemma_floor_sqrt_exists, lemma_sqrt_range, magnitude,
    over_wide, sat, signed_sat, tdiv, Fp, RAW_MAX, SCALE,
};
use crate::trig::{acos_half_turns, atan2_turns, spec_acos_half_turns, spec_atan2_turns};
use crate::vecmath::{
    cross, dot, dot_raw, lemma_dot_neg, lemma_square_fits, spec_cross, spec_dot, spec_dot_raw,
    Vec3, Vec3F,
};
use std::ops::Range;
use vstd::prelude::*;

verus! {

/// A box thinner than this along an axis is widened: `1e-4`.
pub const PAD_RAW: i64 = 100_000;

/// A parallelogram is missed where the ray runs along its plane: the
/// direction's component along the normal is smaller than this: `1e-8`.
pub const PLANE_EPS_RAW: i64 = 10;

/// A ray with the reciprocal of its direction and, for each axis, whether
/// that reciprocal is negative.
pub struct Ray {
    pub origin: Vec3F,
    pub direction: Vec3F,
    pub inv_dir: Vec3F,
    pub signs: [u8; 3],
}

/// What a ray met, if it met anything.
#[derive(Copy, Clone, Debug, PartialEq, Eq)]
pub struct RayIntersection {
    pub hit: bool,
    pub t: Fp,
    /// Whether the normal as reported is the one that points away from the
    /// shape, so that the ray came from outside.
    pub is_normal_outward: bool,
    pub hit_point: Vec3F,
    /// The surface normal, turned against the ray.
    pub normal: Vec3F,
    pub u: Fp,
    pub v: Fp,
}

/// A sphere whose material is an index into the scene's material table.
pub struct Sphere {
    pub position: Vec3F,
    pub radius: Fp,
    pub material: usize,
}

/// A parallelogram spanned by two edges from a corner, with its unit
/// normal, its area and the offset of its plane.
pub struct Quad {
    pub corner: Vec3F,
    pub edges: [Vec3F; 2],
    pub normal: Vec3F,
    pub area: Fp,
    pub d: Fp,
    pub material: usize,
}

/// An axis-aligned box.
#[derive(Copy, Clone, Debug, PartialEq, Eq)]
pub struct Aabb {
    pub min: Vec3F,
    pub max: Vec3F,
}

pub enum Shape {
    Sphere(Sphere),
    Quad(Quad),
}

/// `start <= t < end`.
pub open spec fn in_limits(t: Fp, start: Fp, end: Fp) -> bool {
    start.raw <= t.raw && t.raw < end.raw
}

fn limits_contain(limits: &Range<Fp>, t: Fp) -> (r: bool)
    ensures
        r == in_limits(t, limits.start, limits.end),
{
    limits.start.raw <= t.raw && t.raw < limits.end.raw
}

/// One where the number is negative, zero elsewhere.
pub open spec fn sign_bit(x: Fp) -> u8 {
    if x.raw < 0 {
        1u8
    } else {
        0u8
    }
}

/// The reciprocal of each component.
pub open spec fn spec_reciprocal(v: Vec3F) -> Vec3F {
    let one = fp(SCALE as int);
    Vec3 { x: one.spec_div(v.x), y: one.spec_div(v.y), z: one.spec_div(v.z) }
}

impl Ray {
    /// The reciprocal and the signs are those of the direction.
    pub open spec fn wf(self) -> bool {
        &&& self.inv_dir == spec_reciprocal(self.direction)
        &&& self.signs@ == seq![
            sign_bit(self.inv_dir.x),
            sign_bit(self.inv_dir.y),
            sign_bit(self.inv_dir.z),
        ]
    }

    /// The point at parameter `t`.
    pub open spec fn spec_at(self, t: Fp) -> Vec3F {
        self.origin.spec_add(self.direction.spec_scale(t))
    }

    pub fn new(origin: Vec3F, dir: Vec3F) -> (r: Self)
        ensures
            r.origin == origin,
            r.direction == dir,
            r.wf(),
    {
        let one = Fp::one();
        let inv_dir = Vec3::new(one.div(dir.x), one.div(dir.y), one.div(dir.z));
        Self {
            origin,
            direction: dir,
            inv_dir,
            signs: [
                if inv_dir.x.raw < 0 {
                    1
                } else {
                    0
                },
                if inv_dir.y.raw < 0 {
                    1
                } else {
                    0
                },
                if inv_dir.z.raw < 0 {
                    1
                } else {
                    0
                },
            ],
        }
    }

    pub fn at(&self, t: Fp) -> (r: Vec3F)
        ensures
            r == self.spec_at(t),
    {
        self.origin.add(self.direction.scale(t))
    }
}

impl RayIntersection {
    /// The record of a miss: every field zero or false.
    pub open spec fn spec_miss() -> RayIntersection {
        RayIntersection {
            hit: false,
            t: fp(0),
            is_normal_outward: false,
            hit_point: Vec3F::spec_zero(),
            normal: Vec3F::spec_zero(),
            u: fp(0),
            v: fp(0),
        }
    }

    pub fn miss() -> (r: Self)
        ensures
            r == RayIntersection::spec_miss(),
    {
        RayIntersection {
            hit: false,
            t: Fp::zero(),
            is_normal_outward: false,
            hit_point: Vec3F::zero(),
            normal: Vec3F::zero(),
            u: Fp::zero(),
            v: Fp::zero(),
        }
    }
}

impl Default for RayIntersection {
    fn default() -> (r: Self)
        ensures
            r == RayIntersection::spec_miss(),
    {
        RayIntersection::miss()
    }
}

/// The normal turned against the direction, and whether it was left as it
/// was.
pub open spec fn spec_face_normal(normal: Vec3F, dir: Vec3F) -> (Vec3F, bool) {
    if spec_dot(normal, dir).raw > 0 {
        (normal.spec_neg(), false)
    } else {
        (normal, true)
    }
}

fn face_normal(normal: Vec3F, dir: &Vec3F) -> (r: (Vec3F, bool))
    ensures
        r == spec_face_normal(normal, *dir),
{
    if dot(&normal, dir).raw > 0 {
        (normal.neg(), false)
    } else {
        (normal, true)
    }
}

/// A normal turned against a direction never points along it.
pub proof fn lemma_face_normal_opposes(normal: Vec3F, dir: Vec3F)
    requires
        normal.in_range(),
    ensures
        spec_dot(spec_face_normal(normal, dir).0, dir).raw <= 0,
        spec_face_normal(normal, dir).0.in_range(),
{
    lemma_dot_neg(normal, dir);
}

impl Sphere {
    pub fn new(position: Vec3F, radius: Fp, material: usize) -> (r: Sphere)
        ensures
            r.position == position,
            r.radius == radius,
            r.material == material,
    {
        Sphere { position, radius, material }
    }

    /// The coefficient `a` of the quadratic `a s^2 + 2 half_b s + c = 0` in
    /// the distance `s` along the ray: the dot product of the ray's unit
    /// direction with itself. The quadratic is set up for the unit
    /// direction, so that the size of the direction does not bear on the
    /// size of the coefficients.
    pub open spec fn spec_a(ray: Ray) -> Fp {
        spec_dot(ray.direction.spec_normalized(), ray.direction.spec_normalized())
    }

    /// Half the coefficient `b` of the quadratic: the dot product of the
    /// vector from the centre to the origin with the unit direction.
    pub open spec fn spec_half_b(self, ray: Ray) -> Fp {
        spec_dot(ray.origin.spec_sub(self.position), ray.direction.spec_normalized())
    }

    /// The distance along the unit direction of the point of the ray's line
    /// that lies nearest to the centre: `-half_b / a`, the mean of the roots.
    pub open spec fn spec_foot(self, ray: Ray) -> Fp {
        self.spec_half_b(ray).spec_neg().spec_div(Sphere::spec_a(ray))
    }

    /// The vector from the centre to that point.
    pub open spec fn spec_offset(self, ray: Ray) -> Vec3F {
        ray.origin.spec_sub(self.position).spec_add(
            ray.direction.spec_normalized().spec_scale(self.spec_foot(ray)),
        )
    }

    /// A quarter of the discriminant of the quadratic, over `a` and in
    /// squares of raw units: the square of the radius less the squared
    /// distance of the ray's line from the centre. With `c` the squared
    /// distance of the origin from the centre less the squared radius, this
    /// is `half_b^2 / a - c`, taken without the difference of two large
    /// numbers and without rounding the squares.
    pub open spec fn spec_discriminant(self, ray: Ray) -> int {
        self.radius.raw * self.radius.raw - self.spec_offset(ray).spec_raw_square()
    }

    /// Half the distance between the roots: the square root of the
    /// discriminant over `a`, over the square root of `a`.
    pub open spec fn spec_half_chord(self, ray: Ray) -> Fp {
        fp(sat(floor_sqrt(self.spec_discriminant(ray)))).spec_div(Sphere::spec_a(ray).spec_sqrt())
    }

    /// The smaller root of the quadratic, as a ray parameter: the distance
    /// over the length of the direction.
    pub open spec fn spec_near_root(self, ray: Ray) -> Fp {
        ray.direction.spec_in_lengths(self.spec_foot(ray).spec_sub(self.spec_half_chord(ray)))
    }

    /// The larger root of the quadratic, as a ray parameter.
    pub open spec fn spec_far_root(self, ray: Ray) -> Fp {
        ray.direction.spec_in_lengths(self.spec_foot(ray).spec_add(self.spec_half_chord(ray)))
    }

    /// Whether the ray meets the sphere within the limits, and at which
    /// parameter: the smaller root where it lies within the limits, else the
    /// larger one; zero where the discriminant is negative.
    pub open spec fn spec_hit_t(self, ray: Ray, start: Fp, end: Fp) -> (bool, Fp) {
        if self.spec_discriminant(ray) < 0 {
            (false, fp(0))
        } else if in_limits(self.spec_near_root(ray), start, end) {
            (true, self.spec_near_root(ray))
        } else {
            (in_limits(self.spec_far_root(ray), start, end), self.spec_far_root(ray))
        }
    }

    /// Longitude and latitude of a point of the unit sphere, each as a
    /// fraction: `u` is the angle of `(x, -z)` in turns plus a half, `v` the
    /// arccosine of `-y` in half turns.
    pub open spec fn spec_sphere_uv(p: Vec3F) -> (Fp, Fp) {
        (
            spec_atan2_turns(p.z.spec_neg(), p.x).spec_add(fp(SCALE as int / 2)),
            spec_acos_half_turns(p.y.spec_neg()),
        )
    }

    /// The record that `ray_intersect` returns.
    pub open spec fn spec_ray_intersect(self, ray: Ray, start: Fp, end: Fp) -> RayIntersection {
        let (hit, t) = self.spec_hit_t(ray, start, end);
        let hit_point = ray.spec_at(t);
        let (normal, outward) = spec_face_normal(
            hit_point.spec_sub(self.position).spec_div(self.radius),
            ray.direction,
        );
        let (u, v) = Sphere::spec_sphere_uv(normal);
        RayIntersection { hit, t, is_normal_outward: outward, hit_point, normal, u, v }
    }

    /// Where the ray meets the sphere within `limits`, if it does. Of the
    /// two roots the smaller is preferred. The normal is turned against the
    /// ray.
    pub fn ray_intersect(&self, ray: &Ray, limits: &Range<Fp>) -> (r: RayIntersection)
        ensures
            r == self.spec_ray_intersect(*ray, limits.start, limits.end),
            r.hit ==> in_limits(r.t, limits.start, limits.end),
            r.hit_point == ray.spec_at(r.t),
            spec_dot(r.normal, ray.direction).raw <= 0,
    {
        let center_to_origin = ray.origin.sub(self.position);
        let unit = ray.direction.normalized();
        let a = dot(&unit, &unit);
        let half_b = dot(&center_to_origin, &unit);
        let foot = half_b.neg().div(a);
        let offset = center_to_origin.add(unit.scale(foot));
        let reach = magnitude(self.radius.raw);
        proof {
            lemma_square_fits(reach as int, self.radius.raw as int);
        }
        let radius_square = reach * reach;
        let offset_square = offset.raw_square();

        let hit: bool;
        let mut t: Fp;
        if offset_square > radius_square {
            t = Fp::zero();
            hit = false;
        } else {
            let root = Fp::from_raw(signed_sat(false, isqrt(radius_square - offset_square)));
            let half_chord = root.div(a.sqrt());
            t = ray.direction.in_lengths(foot.sub(half_chord));
            if limits_contain(limits, t) {
                hit = true;
            } else {
                t = ray.direction.in_lengths(foot.add(half_chord));
                hit = limits_contain(limits, t);
            }
        }

        let hit_point = ray.at(t);
        let geometric = hit_point.sub(self.position).div(self.radius);
        proof {
            lemma_face_normal_opposes(geometric, ray.direction);
        }
        let (normal, is_normal_outward) = face_normal(geometric, &ray.direction);
        let (u, v) = Sphere::get_sphere_uv(&normal);
        RayIntersection { hit, t, hit_point, is_normal_outward, normal, u, v }
    }

    /// Texture coordinates of a point of the unit sphere.
    pub fn get_sphere_uv(unit_sphere_p: &Vec3F) -> (r: (Fp, Fp))
        ensures
            r == Sphere::spec_sphere_uv(*unit_sphere_p),
            0 <= r.0.raw <= SCALE,
            0 <= r.1.raw <= SCALE,
    {
        let u = atan2_turns(unit_sphere_p.z.neg(), unit_sphere_p.x).add(Fp::from_raw(SCALE / 2));
        let v = acos_half_turns(unit_sphere_p.y.neg());
        (u, v)
    }
}

impl Quad {
    /// The cross product of the edges' unit vectors. Its length is the
    /// sine of the angle between the edges.
    pub open spec fn spec_unit_cross(self) -> Vec3F {
        spec_cross(self.edges[0].spec_normalized(), self.edges[1].spec_normalized())
    }

    /// The fields that `new` derives from the corner and the edges: the unit
    /// normal, the area (the product of the edges' lengths and the sine of
    /// their angle), and the plane's offset.
    pub open spec fn wf(self) -> bool {
        &&& self.normal == self.spec_unit_cross().spec_normalized()
        &&& self.area == self.edges[0].spec_length().spec_mul(
            self.edges[1].spec_length(),
        ).spec_mul(self.spec_unit_cross().spec_length())
        &&& self.d == spec_dot(self.normal, self.corner)
    }

    /// The unit normal of the parallelogram with the given edges: the
    /// cross product of the edges' unit vectors, made a unit vector.
    pub open spec fn spec_normal_of(edge0: Vec3F, edge1: Vec3F) -> Vec3F {
        spec_cross(edge0.spec_normalized(), edge1.spec_normalized()).spec_normalized()
    }

    /// The area of the parallelogram with the given edges, which is the
    /// length of their cross product: the product of the edges' lengths and
    /// the sine of their angle.
    pub open spec fn spec_area_of(edge0: Vec3F, edge1: Vec3F) -> Fp {
        edge0.spec_length().spec_mul(edge1.spec_length()).spec_mul(
            spec_cross(edge0.spec_normalized(), edge1.spec_normalized()).spec_length(),
        )
    }

    /// The helper vector of the edge coordinates: the cross product of the
    /// edges over its squared length. It is the unit normal over the area;
    /// the parallelogram holds these two and not the vector, whose few
    /// digits would be lost for a large parallelogram, and takes the edge
    /// coordinates from the unit normal and the edges' unit vectors.
    pub open spec fn spec_w(self) -> Vec3F {
        self.normal.spec_div(self.area)
    }

    /// A parallelogram with the given corner, edges and material. Its unit
    /// normal, its area, its helper vector and the offset of its plane
    /// follow from the corner and the edges.
    pub fn new(corner: Vec3F, edge0: Vec3F, edge1: Vec3F, material: usize) -> (r: Self)
        ensures
            r.corner == corner,
            r.edges[0] == edge0,
            r.edges[1] == edge1,
            r.material == material,
            r.wf(),
            r.normal == Quad::spec_normal_of(edge0, edge1),
            r.area == Quad::spec_area_of(edge0, edge1),
            r.spec_w() == Quad::spec_normal_of(edge0, edge1).spec_div(
                Quad::spec_area_of(edge0, edge1),
            ),
            r.d == spec_dot(Quad::spec_normal_of(edge0, edge1), corner),
            r.normal.in_range(),
    {
        let unit_cross = cross(&edge0.normalized(), &edge1.normalized());
        let normal = unit_cross.normalized();
        let area = edge0.length().mul(edge1.length()).mul(unit_cross.length());
        let d = dot(&normal, &corner);
        Self { corner, edges: [edge0, edge1], normal, area, d, material }
    }

    /// The helper vector of the edge coordinates.
    pub fn w(&self) -> (r: Vec3F)
        ensures
            r == self.spec_w(),
    {
        self.normal.div(self.area)
    }

    /// The point of the parallelogram at the fractions `a` and `b` of its
    /// edges.
    pub open spec fn spec_point(self, a: Fp, b: Fp) -> Vec3F {
        self.corner.spec_add(self.edges[0].spec_scale(a)).spec_add(self.edges[1].spec_scale(b))
    }

    pub open spec fn spec_other_corner(self) -> Vec3F {
        self.corner.spec_add(self.edges[0]).spec_add(self.edges[1])
    }

    /// The corner opposite to `corner`.
    pub fn other_corner(&self) -> (r: Vec3F)
        ensures
            r == self.spec_other_corner(),
    {
        self.corner.add(self.edges[0]).add(self.edges[1])
    }

    /// The direction's component along the normal.
    pub open spec fn spec_denominator(self, ray: Ray) -> Fp {
        spec_dot(self.normal, ray.direction)
    }

    /// The parameter at which the ray meets the plane: the origin's
    /// distance from the plane along the normal, over the direction's
    /// component along the normal. The divisor is taken before it is
    /// rounded, so that a short direction keeps its digits.
    pub open spec fn spec_plane_t(self, ray: Ray) -> Fp {
        fp(
            div_raw(
                self.d.spec_sub(spec_dot(self.normal, ray.origin)).raw * SCALE,
                spec_dot_raw(self.normal, ray.direction),
            ),
        )
    }

    /// The distance of an edge from the edge across: the length of the
    /// other edge times the sine of the angle between the edges.
    pub open spec fn spec_height(self, other: int) -> Fp {
        self.edges[other].spec_length().spec_mul(self.spec_unit_cross().spec_length())
    }

    /// Coordinate of the plane point at `t` along the first edge: the
    /// distance of the point from the second edge, over the distance of
    /// the edge across. This is the area that the point spans with the
    /// second edge over the parallelogram's area, with the length of the
    /// second edge taken out of both, so that neither a small nor a large
    /// parallelogram loses digits.
    pub open spec fn spec_alpha(self, ray: Ray, t: Fp) -> Fp {
        spec_dot(
            self.normal,
            spec_cross(ray.spec_at(t).spec_sub(self.corner), self.edges[1].spec_normalized()),
        ).spec_div(self.spec_height(0))
    }

    /// Coordinate of the plane point at `t` along the second edge: the
    /// distance of the point from the first edge, over the distance of the
    /// edge across.
    pub open spec fn spec_beta(self, ray: Ray, t: Fp) -> Fp {
        spec_dot(
            self.normal,
            spec_cross(self.edges[0].spec_normalized(), ray.spec_at(t).spec_sub(self.corner)),
        ).spec_div(self.spec_height(1))
    }

    /// Whether the ray meets the parallelogram within the limits: it is not
    /// parallel to the plane, meets the plane within the limits, and both
    /// edge coordinates of that point lie in `[0, 1]`.
    pub open spec fn spec_hits(self, ray: Ray, start: Fp, end: Fp) -> bool {
        let t = self.spec_plane_t(ray);
        &&& self.spec_denominator(ray).spec_abs().raw >= PLANE_EPS_RAW
        &&& in_limits(t, start, end)
        &&& 0 <= self.spec_alpha(ray, t).raw <= SCALE
        &&& 0 <= self.spec_beta(ray, t).raw <= SCALE
    }

    /// The record that `ray_intersect` returns.
    pub open spec fn spec_ray_intersect(self, ray: Ray, start: Fp, end: Fp) -> RayIntersection {
        if self.spec_hits(ray, start, end) {
            let t = self.spec_plane_t(ray);
            RayIntersection {
                hit: true,
                t,
                is_normal_outward: false,
                hit_point: ray.spec_at(t),
                normal: spec_face_normal(self.normal, ray.direction).0,
                u: self.spec_alpha(ray, t),
                v: self.spec_beta(ray, t),
            }
        } else {
            RayIntersection::spec_miss()
        }
    }

    /// Where the ray meets the parallelogram within `limits`, if it does.
    /// The normal is turned against the ray.
    pub fn ray_intersect(&self, ray: &Ray, limits: &Range<Fp>) -> (r: RayIntersection)
        ensures
            r == self.spec_ray_intersect(*ray, limits.start, limits.end),
            r.hit ==> in_limits(r.t, limits.start, limits.end),
            r.hit ==> r.hit_point == ray.spec_at(r.t),
            r.hit ==> 0 <= r.u.raw <= SCALE && 0 <= r.v.raw <= SCALE,
            self.normal.in_range() ==> spec_dot(r.normal, ray.direction).raw <= 0,
    {
        let mut intersection = RayIntersection::miss();
        let denominator = dot(&self.normal, &ray.direction);
        if denominator.abs().raw >= PLANE_EPS_RAW {
            let (falls, fall) = dot_raw(&self.normal, &ray.direction);
            let t = over_wide(self.d.sub(dot(&self.normal, &ray.origin)), falls, fall);
            if limits_contain(limits, t) {
                let hit_point = ray.at(t);
                let corner_to_hit_point = hit_point.sub(self.corner);
                let unit0 = self.edges[0].normalized();
                let unit1 = self.edges[1].normalized();
                let sine = cross(&unit0, &unit1).length();
                let alpha = dot(&self.normal, &cross(&corner_to_hit_point, &unit1)).div(
                    self.edges[0].length().mul(sine),
                );
                let beta = dot(&self.normal, &cross(&unit0, &corner_to_hit_point)).div(
                    self.edges[1].length().mul(sine),
                );
                if 0 <= alpha.raw && alpha.raw <= SCALE && 0 <= beta.raw && beta.raw <= SCALE {
                    proof {
                        if self.normal.in_range() {
                            lemma_face_normal_opposes(self.normal, ray.direction);
                        }
                    }
                    let (normal, _) = face_normal(self.normal, &ray.direction);
                    intersection =
                    RayIntersection {
                        hit: true,
                        t,
                        is_normal_outward: false,
                        hit_point,
                        normal,
                        u: alpha,
                        v: beta,
                    };
                }
            }
        }
        proof {
            lemma_zero_dot(ray.direction);
        }
        intersection
    }
}

/// The zero vector is orthogonal to every vector.
pub proof fn lemma_zero_dot(v: Vec3F)
    ensures
        spec_dot(Vec3F::spec_zero(), v).raw == 0,
{
    assert(0 * (v.x.raw as int) == 0);
    assert(0 * (v.y.raw as int) == 0);
    assert(0 * (v.z.raw as int) == 0);
}

/// The least of four numbers.
pub open spec fn spec_min4(a: Fp, b: Fp, c: Fp, d: Fp) -> Fp {
    a.spec_min(b).spec_min(c).spec_min(d)
}

/// The greatest of four numbers.
pub open spec fn spec_max4(a: Fp, b: Fp, c: Fp, d: Fp) -> Fp {
    a.spec_max(b).spec_max(c).spec_max(d)
}

/// The lower bound of an extent, widened by half the padding where the
/// extent is thinner than the padding.
pub open spec fn spec_pad_low(lo: Fp, hi: Fp) -> Fp {
    if hi.spec_sub(lo).raw < PAD_RAW {
        lo.spec_sub(fp(PAD_RAW as int / 2))
    } else {
        lo
    }
}

/// The upper bound of an extent, widened likewise.
pub open spec fn spec_pad_high(lo: Fp, hi: Fp) -> Fp {
    if hi.spec_sub(lo).raw < PAD_RAW {
        hi.spec_add(fp(PAD_RAW as int / 2))
    } else {
        hi
    }
}

fn pad_extent(lo: Fp, hi: Fp) -> (r: (Fp, Fp))
    ensures
        r.0 == spec_pad_low(lo, hi),
        r.1 == spec_pad_high(lo, hi),
        lo.raw <= hi.raw ==> r.0.raw < r.1.raw,
        r.0.raw <= lo.raw || lo.raw < -RAW_MAX,
        hi.raw <= r.1.raw,
{
    if hi.sub(lo).raw < PAD_RAW {
        (lo.sub(Fp::from_raw(PAD_RAW / 2)), hi.add(Fp::from_raw(PAD_RAW / 2)))
    } else {
        (lo, hi)
    }
}

/// The parameter at which a ray is `way` along one axis: the way times the
/// reciprocal of the direction's component. The reciprocal of a component
/// larger than one has few digits, so there the way is divided by the
/// component.
pub open spec fn spec_slab_side(way: Fp, dir: Fp, inv: Fp) -> Fp {
    if -SCALE <= dir.raw <= SCALE {
        way.spec_mul(inv)
    } else {
        way.spec_div(dir)
    }
}

fn slab_side(way: Fp, dir: Fp, inv: Fp) -> (r: Fp)
    ensures
        r == spec_slab_side(way, dir, inv),
{
    if -SCALE <= dir.raw && dir.raw <= SCALE {
        way.mul(inv)
    } else {
        way.div(dir)
    }
}

/// Where a ray enters the extent `[lo, hi]` along one axis. A ray that runs
/// along the axis' planes is inside for every parameter or for none.
pub open spec fn spec_slab_near(lo: Fp, hi: Fp, origin: Fp, dir: Fp, inv: Fp, sign: u8) -> Fp {
    if dir.raw == 0 {
        if lo.raw <= origin.raw && origin.raw <= hi.raw {
            fp(-RAW_MAX)
        } else {
            fp(RAW_MAX as int)
        }
    } else if sign == 0 {
        spec_slab_side(lo.spec_sub(origin), dir, inv)
    } else {
        spec_slab_side(hi.spec_sub(origin), dir, inv)
    }
}

/// Where a ray leaves the extent `[lo, hi]` along one axis.
pub open spec fn spec_slab_far(lo: Fp, hi: Fp, origin: Fp, dir: Fp, inv: Fp, sign: u8) -> Fp {
    if dir.raw == 0 {
        if lo.raw <= origin.raw && origin.raw <= hi.raw {
            fp(RAW_MAX as int)
        } else {
            fp(-RAW_MAX)
        }
    } else if sign == 0 {
        spec_slab_side(hi.spec_sub(origin), dir, inv)
    } else {
        spec_slab_side(lo.spec_sub(origin), dir, inv)
    }
}

fn slab(lo: Fp, hi: Fp, origin: Fp, dir: Fp, inv: Fp, sign: u8) -> (r: (Fp, Fp))
    ensures
        r.0 == spec_slab_near(lo, hi, origin, dir, inv, sign),
        r.1 == spec_slab_far(lo, hi, origin, dir, inv, sign),
{
    if dir.raw == 0 {
        if lo.raw <= origin.raw && origin.raw <= hi.raw {
            (Fp::from_raw(-RAW_MAX), Fp::from_raw(RAW_MAX))
        } else {
            (Fp::from_raw(RAW_MAX), Fp::from_raw(-RAW_MAX))
        }
    } else if sign == 0 {
        (slab_side(lo.sub(origin), dir, inv), slab_side(hi.sub(origin), dir, inv))
    } else {
        (slab_side(hi.sub(origin), dir, inv), slab_side(lo.sub(origin), dir, inv))
    }
}

impl Aabb {
    /// The lower corner lies strictly below the upper one on every axis.
    pub open spec fn wf(self) -> bool {
        &&& self.min.x.raw < self.max.x.raw
        &&& self.min.y.raw < self.max.y.raw
        &&& self.min.z.raw < self.max.z.raw
    }

    /// Whether the point lies within this box or on its surface.
    pub open spec fn contains_point(self, p: Vec3F) -> bool {
        &&& self.min.x.raw <= p.x.raw <= self.max.x.raw
        &&& self.min.y.raw <= p.y.raw <= self.max.y.raw
        &&& self.min.z.raw <= p.z.raw <= self.max.z.raw
    }

    /// Whether `o` lies within this box.
    pub open spec fn contains_box(self, o: Aabb) -> bool {
        &&& self.min.x.raw <= o.min.x.raw && o.max.x.raw <= self.max.x.raw
        &&& self.min.y.raw <= o.min.y.raw && o.max.y.raw <= self.max.y.raw
        &&& self.min.z.raw <= o.min.z.raw && o.max.z.raw <= self.max.z.raw
    }

    /// The box spanned by two opposite corners, padded where it is thin.
    pub open spec fn spec_from_corners(a: Vec3F, b: Vec3F) -> Aabb {
        Aabb {
            min: Vec3 {
                x: spec_pad_low(a.x.spec_min(b.x), a.x.spec_max(b.x)),
                y: spec_pad_low(a.y.spec_min(b.y), a.y.spec_max(b.y)),
                z: spec_pad_low(a.z.spec_min(b.z), a.z.spec_max(b.z)),
            },
            max: Vec3 {
                x: spec_pad_high(a.x.spec_min(b.x), a.x.spec_max(b.x)),
                y: spec_pad_high(a.y.spec_min(b.y), a.y.spec_max(b.y)),
                z: spec_pad_high(a.z.spec_min(b.z), a.z.spec_max(b.z)),
            },
        }
    }

    pub open spec fn spec_from_sphere(s: Sphere) -> Aabb {
        let extent = Vec3 { x: s.radius, y: s.radius, z: s.radius };
        Aabb::spec_from_corners(s.position.spec_sub(extent), s.position.spec_add(extent))
    }

    /// The box spanned by four points, padded where it is thin.
    pub open spec fn spec_from_four(a: Vec3F, b: Vec3F, c: Vec3F, d: Vec3F) -> Aabb {
        Aabb {
            min: Vec3 {
                x: spec_pad_low(spec_min4(a.x, b.x, c.x, d.x), spec_max4(a.x, b.x, c.x, d.x)),
                y: spec_pad_low(spec_min4(a.y, b.y, c.y, d.y), spec_max4(a.y, b.y, c.y, d.y)),
                z: spec_pad_low(spec_min4(a.z, b.z, c.z, d.z), spec_max4(a.z, b.z, c.z, d.z)),
            },
            max: Vec3 {
                x: spec_pad_high(spec_min4(a.x, b.x, c.x, d.x), spec_max4(a.x, b.x, c.x, d.x)),
                y: spec_pad_high(spec_min4(a.y, b.y, c.y, d.y), spec_max4(a.y, b.y, c.y, d.y)),
                z: spec_pad_high(spec_min4(a.z, b.z, c.z, d.z), spec_max4(a.z, b.z, c.z, d.z)),
            },
        }
    }

    /// The box spanned by the four vertices of the parallelogram, padded
    /// where it is thin.
    pub open spec fn spec_from_quad(q: Quad) -> Aabb {
        Aabb::spec_from_four(
            q.corner,
            q.corner.spec_add(q.edges[0]),
            q.corner.spec_add(q.edges[1]),
            q.spec_other_corner(),
        )
    }

    pub open spec fn spec_merge(a: Aabb, b: Aabb) -> Aabb {
        Aabb {
            min: Vec3 {
                x: a.min.x.spec_min(b.min.x),
                y: a.min.y.spec_min(b.min.y),
                z: a.min.z.spec_min(b.min.z),
            },
            max: Vec3 {
                x: a.max.x.spec_max(b.max.x),
                y: a.max.y.spec_max(b.max.y),
                z: a.max.z.spec_max(b.max.z),
            },
        }
    }

    /// Whether the ray's line passes through the inside of the box: the
    /// latest entry over the three axes lies strictly before the earliest
    /// exit.
    pub open spec fn spec_ray_intersect(self, ray: Ray) -> bool {
        let nx = spec_slab_near(
            self.min.x,
            self.max.x,
            ray.origin.x,
            ray.direction.x,
            ray.inv_dir.x,
            ray.signs[0],
        );
        let fx = spec_slab_far(
            self.min.x,
            self.max.x,
            ray.origin.x,
            ray.direction.x,
            ray.inv_dir.x,
            ray.signs[0],
        );
        let ny = spec_slab_near(
            self.min.y,
            self.max.y,
            ray.origin.y,
            ray.direction.y,
            ray.inv_dir.y,
            ray.signs[1],
        );
        let fy = spec_slab_far(
            self.min.y,
            self.max.y,
            ray.origin.y,
            ray.direction.y,
            ray.inv_dir.y,
            ray.signs[1],
        );
        let nz = spec_slab_near(
            self.min.z,
            self.max.z,
            ray.origin.z,
            ray.direction.z,
            ray.inv_dir.z,
            ray.signs[2],
        );
        let fz = spec_slab_far(
            self.min.z,
            self.max.z,
            ray.origin.z,
            ray.direction.z,
            ray.inv_dir.z,
            ray.signs[2],
        );
        nx.spec_max(ny).spec_max(nz).raw < fx.spec_min(fy).spec_min(fz).raw
    }

    /// The box spanned by two opposite corners. An extent thinner than the
    /// padding is widened by half the padding on both sides, so that the box
    /// has an inside.
    pub fn from_corners(a: Vec3F, b: Vec3F) -> (r: Self)
        ensures
            r == Aabb::spec_from_corners(a, b),
            r.wf(),
            a.in_range() && b.in_range() ==> r.contains_point(a) && r.contains_point(b),
    {
        let (x0, x1) = pad_extent(a.x.min(b.x), a.x.max(b.x));
        let (y0, y1) = pad_extent(a.y.min(b.y), a.y.max(b.y));
        let (z0, z1) = pad_extent(a.z.min(b.z), a.z.max(b.z));
        Aabb { min: Vec3::new(x0, y0, z0), max: Vec3::new(x1, y1, z1) }
    }

    pub fn from_sphere(s: &Sphere) -> (r: Self)
        ensures
            r == Aabb::spec_from_sphere(*s),
            r.wf(),
            r.contains_point(
                s.position.spec_sub(Vec3 { x: s.radius, y: s.radius, z: s.radius }),
            ),
            r.contains_point(
                s.position.spec_add(Vec3 { x: s.radius, y: s.radius, z: s.radius }),
            ),
    {
        let extent = Vec3::new(s.radius, s.radius, s.radius);
        Aabb::from_corners(s.position.sub(extent), s.position.add(extent))
    }

    /// The box spanned by four points. An extent thinner than the padding
    /// is widened by half the padding on both sides.
    pub fn from_four(a: Vec3F, b: Vec3F, c: Vec3F, d: Vec3F) -> (r: Self)
        ensures
            r == Aabb::spec_from_four(a, b, c, d),
            r.wf(),
            a.in_range() && b.in_range() && c.in_range() && d.in_range() ==> {
                &&& r.contains_point(a)
                &&& r.contains_point(b)
                &&& r.contains_point(c)
                &&& r.contains_point(d)
            },
    {
        let (x0, x1) = pad_extent(
            a.x.min(b.x).min(c.x).min(d.x),
            a.x.max(b.x).max(c.x).max(d.x),
        );
        let (y0, y1) = pad_extent(
            a.y.min(b.y).min(c.y).min(d.y),
            a.y.max(b.y).max(c.y).max(d.y),
        );
        let (z0, z1) = pad_extent(
            a.z.min(b.z).min(c.z).min(d.z),
            a.z.max(b.z).max(c.z).max(d.z),
        );
        Aabb { min: Vec3::new(x0, y0, z0), max: Vec3::new(x1, y1, z1) }
    }

    /// The box spanned by the four vertices of the parallelogram. It holds
    /// all four, and so the whole parallelogram.
    pub fn from_quad(q: &Quad) -> (r: Self)
        ensures
            r == Aabb::spec_from_quad(*q),
            r.wf(),
            q.corner.in_range() ==> {
                &&& r.contains_point(q.corner)
                &&& r.contains_point(q.corner.spec_add(q.edges[0]))
                &&& r.contains_point(q.corner.spec_add(q.edges[1]))
                &&& r.contains_point(q.spec_other_corner())
            },
    {
        Aabb::from_four(
            q.corner,
            q.corner.add(q.edges[0]),
            q.corner.add(q.edges[1]),
            q.other_corner(),
        )
    }

    /// The smallest box that holds both.
    pub fn merge(a: &Aabb, b: &Aabb) -> (r: Self)
        ensures
            r == Aabb::spec_merge(*a, *b),
            r.contains_box(*a),
            r.contains_box(*b),
            a.wf() || b.wf() ==> r.wf(),
    {
        Aabb {
            min: Vec3::new(a.min.x.min(b.min.x), a.min.y.min(b.min.y), a.min.z.min(b.min.z)),
            max: Vec3::new(a.max.x.max(b.max.x), a.max.y.max(b.max.y), a.max.z.max(b.max.z)),
        }
    }

    /// Whether the ray's line passes through the inside of the box. Touching
    /// the surface alone is a miss.
    pub fn ray_intersect(&self, ray: &Ray) -> (r: bool)
        ensures
            r == self.spec_ray_intersect(*ray),
    {
        let (nx, fx) = slab(
            self.min.x,
            self.max.x,
            ray.origin.x,
            ray.direction.x,
            ray.inv_dir.x,
            ray.signs[0],
        );
        let (ny, fy) = slab(
            self.min.y,
            self.max.y,
            ray.origin.y,
            ray.direction.y,
            ray.inv_dir.y,
            ray.signs[1],
        );
        let (nz, fz) = slab(
            self.min.z,
            self.max.z,
            ray.origin.z,
            ray.direction.z,
            ray.inv_dir.z,
            ray.signs[2],
        );
        let tmin = nx.max(ny).max(nz);
        let tmax = fx.min(fy).min(fz);
        tmin.raw < tmax.raw
    }
}

/// Merging two boxes gives the least box that holds both: it holds each, and
/// every box that holds each holds it.
pub proof fn lemma_merge_is_least(a: Aabb, b: Aabb, c: Aabb)
    ensures
        Aabb::spec_merge(a, b).contains_box(a),
        Aabb::spec_merge(a, b).contains_box(b),
        c.contains_box(a) && c.contains_box(b) ==> c.contains_box(Aabb::spec_merge(a, b)),
{
}

/// Merging a box with itself gives that box.
pub proof fn lemma_merge_idempotent(a: Aabb)
    ensures
        Aabb::spec_merge(a, a) == a,
{
}

/// The quotient rounded towards zero grows with the dividend.
pub proof fn lemma_tdiv_monotone(x: int, y: int, d: int)
    requires
        x <= y,
        d > 0,
    ensures
        tdiv(x, d) <= tdiv(y, d),
{
    if x >= 0 {
        vstd::arithmetic::div_mod::lemma_div_is_ordered(x, y, d);
    } else if y < 0 {
        vstd::arithmetic::div_mod::lemma_div_is_ordered(-y, -x, d);
    } else {
        vstd::arithmetic::div_mod::lemma_div_is_ordered(0, -x, d);
        vstd::arithmetic::div_mod::lemma_div_is_ordered(0, y, d);
    }
}

/// Division by a number that is not negative keeps the order of the
/// dividends.
pub proof fn lemma_div_monotone(n1: Fp, n2: Fp, a: Fp)
    requires
        n1.raw <= n2.raw,
        a.raw >= 0,
    ensures
        n1.spec_div(a).raw <= n2.spec_div(a).raw,
{
    if a.raw > 0 {
        let s = SCALE as int;
        assert(n1.raw * s <= n2.raw * s) by (nonlinear_arith)
            requires
                n1.raw <= n2.raw,
                s > 0,
        ;
        lemma_tdiv_monotone(n1.raw * s, n2.raw * s, a.raw as int);
    }
}

/// The smaller root of a sphere's quadratic is at most the larger one.
pub proof fn lemma_roots_ordered(sphere: Sphere, ray: Ray)
    requires
        sphere.spec_discriminant(ray) >= 0,
    ensures
        sphere.spec_near_root(ray).raw <= sphere.spec_far_root(ray).raw,
{
    let foot = sphere.spec_foot(ray);
    let half_chord = sphere.spec_half_chord(ray);
    let root = fp(sat(floor_sqrt(sphere.spec_discriminant(ray))));
    lemma_floor_sqrt_exists(sphere.spec_discriminant(ray));
    lemma_sqrt_range(Sphere::spec_a(ray));
    lemma_div_monotone(fp(0), root, Sphere::spec_a(ray).spec_sqrt());
    assert(fp(0).spec_div(Sphere::spec_a(ray).spec_sqrt()) == fp(0)) by {
        assert(0 * SCALE == 0);
        if Sphere::spec_a(ray).spec_sqrt().raw > 0 {
            vstd::arithmetic::div_mod::lemma_basic_div(0, Sphere::spec_a(ray).spec_sqrt().raw as int);
        }
    }
    lemma_in_lengths_monotone(ray.direction, foot.spec_sub(half_chord), foot.spec_add(half_chord));
}

/// Where a ray's line meets a sphere, the offset of the line from the
/// centre and the square root of the discriminant are the sides of a right
/// triangle whose longest side is the radius: the point of the line that
/// lies so far from the foot lies on the sphere, to within one raw unit of
/// that distance.
pub proof fn lemma_chord_closes_the_triangle(sphere: Sphere, ray: Ray)
    requires
        sphere.spec_discriminant(ray) >= 0,
    ensures
        ({
            let side = floor_sqrt(sphere.spec_discriminant(ray));
            let offset = sphere.spec_offset(ray).spec_raw_square();
            let reach = sphere.radius.raw * sphere.radius.raw;
            &&& 0 <= side
            &&& offset + side * side <= reach < offset + (side + 1) * (side + 1)
        }),
{
    lemma_floor_sqrt_exists(sphere.spec_discriminant(ray));
}

/// A number over the length of a vector grows with the number.
pub proof fn lemma_in_lengths_monotone(v: Vec3F, s1: Fp, s2: Fp)
    requires
        s1.raw <= s2.raw,
    ensures
        v.spec_in_lengths(s1).raw <= v.spec_in_lengths(s2).raw,
{
    let l = v.spec_lifted_length();
    let k = v.spec_lift();
    let sum = (v.x.raw * k) * (v.x.raw * k) + (v.y.raw * k) * (v.y.raw * k) + (v.z.raw * k) * (
    v.z.raw * k);
    assert(sum >= 0) by (nonlinear_arith)
        requires
            sum == (v.x.raw * k) * (v.x.raw * k) + (v.y.raw * k) * (v.y.raw * k) + (v.z.raw * k)
                * (v.z.raw * k),
    ;
    crate::fixed::lemma_floor_sqrt_exists(sum);
    if l > 0 {
        assert(s1.raw * k * SCALE <= s2.raw * k * SCALE) by (nonlinear_arith)
            requires
                s1.raw <= s2.raw,
                k >= 1,
                SCALE > 0,
        ;
        lemma_tdiv_monotone(s1.raw * k * SCALE, s2.raw * k * SCALE, l);
    }
}

/// Lowering the upper limit of a sphere query keeps a hit that lies below
/// the new limit as it is, and turns every other result into a miss.
pub proof fn lemma_sphere_narrow_limits(sphere: Sphere, ray: Ray, start: Fp, end: Fp, lower: Fp)
    requires
        lower.raw <= end.raw,
    ensures
        ({
            let full = sphere.spec_ray_intersect(ray, start, end);
            let narrow = sphere.spec_ray_intersect(ray, start, lower);
            &&& narrow.hit <==> full.hit && full.t.raw < lower.raw
            &&& narrow.hit ==> narrow == full
        }),
{
    if sphere.spec_discriminant(ray) >= 0 {
        lemma_roots_ordered(sphere, ray);
    }
}

/// Lowering the upper limit of a parallelogram query keeps a hit that lies
/// below the new limit as it is, and turns every other result into a miss.
pub proof fn lemma_quad_narrow_limits(quad: Quad, ray: Ray, start: Fp, end: Fp, lower: Fp)
    requires
        lower.raw <= end.raw,
    ensures
        ({
            let full = quad.spec_ray_intersect(ray, start, end);
            let narrow = quad.spec_ray_intersect(ray, start, lower);
            &&& narrow.hit <==> full.hit && full.t.raw < lower.raw
            &&& narrow.hit ==> narrow == full
        }),
{
}

/// Lowering the upper limit of a query keeps a hit that lies below the new
/// limit as it is, and turns every other result into a miss.
pub proof fn lemma_narrow_limits(shape: Shape, ray: Ray, start: Fp, end: Fp, lower: Fp)
    requires
        lower.raw <= end.raw,
    ensures
        ({
            let full = shape.spec_ray_intersect(ray, start, end);
            let narrow = shape.spec_ray_intersect(ray, start, lower);
            &&& narrow.hit <==> full.hit && full.t.raw < lower.raw
            &&& narrow.hit ==> narrow == full
        }),
{
    match shape {
        Shape::Sphere(s) => lemma_sphere_narrow_limits(s, ray, start, end, lower),
        Shape::Quad(q) => lemma_quad_narrow_limits(q, ray, start, end, lower),
    }
}

/// A hit lies within the limits of the query.
pub proof fn lemma_hit_within_limits(shape: Shape, ray: Ray, start: Fp, end: Fp)
    ensures
        shape.spec_ray_intersect(ray, start, end).hit ==> in_limits(
            shape.spec_ray_intersect(ray, start, end).t,
            start,
            end,
        ),
{
}

impl Shape {
    pub open spec fn spec_material(self) -> usize {
        match self {
            Shape::Sphere(s) => s.material,
            Shape::Quad(q) => q.material,
        }
    }

    /// A parallelogram's normal lies in the range that the operations
    /// produce, as the normal of every parallelogram made by `Quad::new`
    /// does.
    pub open spec fn wf(self) -> bool {
        match self {
            Shape::Sphere(s) => true,
            Shape::Quad(q) => q.normal.in_range(),
        }
    }

    pub open spec fn spec_ray_intersect(self, ray: Ray, start: Fp, end: Fp) -> RayIntersection {
        match self {
            Shape::Sphere(s) => s.spec_ray_intersect(ray, start, end),
            Shape::Quad(q) => q.spec_ray_intersect(ray, start, end),
        }
    }

    pub open spec fn spec_aabb(self) -> Aabb {
        match self {
            Shape::Sphere(s) => Aabb::spec_from_sphere(s),
            Shape::Quad(q) => Aabb::spec_from_quad(q),
        }
    }

    pub fn ray_intersect(&self, ray: &Ray, limits: &Range<Fp>) -> (r: RayIntersection)
        ensures
            r == self.spec_ray_intersect(*ray, limits.start, limits.end),
            r.hit ==> in_limits(r.t, limits.start, limits.end),
            r.hit ==> r.hit_point == ray.spec_at(r.t),
            self.wf() ==> spec_dot(r.normal, ray.direction).raw <= 0,
    {
        match self {
            Shape::Sphere(s) => s.ray_intersect(ray, limits),
            Shape::Quad(q) => q.ray_intersect(ray, limits),
        }
    }

    pub fn calc_aabb(&self) -> (r: Aabb)
        ensures
            r == self.spec_aabb(),
            r.wf(),
    {
        match self {
            Shape::Sphere(s) => Aabb::from_sphere(s),
            Shape::Quad(q) => Aabb::from_quad(q),
        }
    }

    /// The index of the shape's material in the scene's table.
    pub fn get_material(&self) -> (r: usize)
        ensures
            r == self.spec_material(),
    {
        match self {
            Shape::Sphere(s) => s.material,
            Shape::Quad(q) => q.material,
        }
    }
}

} // verus!
