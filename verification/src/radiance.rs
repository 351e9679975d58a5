//! Bounds on radiance: in a scene without lamps whose surfaces give back no
//! more than they receive, no ray carries more than the sky gives.

use crate::clearance::lemma_scaled_between;
use crate::bvh::lemma_scan_finds_closest;
use crate::fixed::{fp, Fp, SCALE};
use crate::lights::{spec_far_limit, spec_near_limit};
use crate::materials::{lemma_mul_one, Material};
use crate::scene::{spec_shade, ScatterResult, Scene, TRACE_MAX_DEPTH};
use crate::shapes::{Ray, RayIntersection};
use crate::textures::Texture;
use crate::vecmath::{byte_to_channel, lemma_normalized_is_unit, Color3F, Vec3, Vec3F};
use vstd::prelude::*;

verus! {

/// Whether every channel of the colour lies in `[0, 1]`.
pub open spec fn spec_unit_color(c: Color3F) -> bool {
    &&& 0 <= c.x.raw <= SCALE
    &&& 0 <= c.y.raw <= SCALE
    &&& 0 <= c.z.raw <= SCALE
}

/// Whether no channel of the first colour exceeds that of the second.
pub open spec fn spec_no_brighter(c: Color3F, d: Color3F) -> bool {
    &&& c.x.raw <= d.x.raw
    &&& c.y.raw <= d.y.raw
    &&& c.z.raw <= d.z.raw
}

/// Whether a texture shows colours of `[0, 1]` only. An image does.
pub open spec fn spec_mild_texture(tex: Texture) -> bool {
    match tex {
        Texture::Solid(t) => spec_unit_color(t.color),
        Texture::Checker(t) => spec_unit_color(t.odd_color) && spec_unit_color(t.even_color),
        Texture::Image(_) => true,
    }
}

/// Whether a material emits nothing and gives back no more than it
/// receives: it is no lamp, and its albedo lies in `[0, 1]`.
pub open spec fn spec_mild_material(m: Material) -> bool {
    match m {
        Material::Diffuse(d) => spec_mild_texture(d.tex),
        Material::Metal(t) => spec_unit_color(t.albedo),
        Material::Dielectric(_) => true,
        Material::DiffuseLight(_) => false,
    }
}

/// Whether every shape of the scene has a mild material.
pub open spec fn spec_mild_scene(scene: Scene) -> bool {
    forall|i: int|
        0 <= i < scene.shapes@.len() ==> spec_mild_material(
            scene.materials@[(#[trigger] scene.shapes@[i]).spec_material() as int],
        )
}

/// The channel that a byte stands for lies in `[0, 1]`.
pub proof fn lemma_byte_channel_range(b: u8)
    ensures
        0 <= byte_to_channel(b).raw <= SCALE,
{
    let s = SCALE as int;
    let n = b as int * s * s;
    let d = 255 * s;
    assert(b as int * s <= 255 * s && b as int * s >= 0) by (nonlinear_arith)
        requires
            0 <= b <= 255,
            s > 0,
    ;
    assert(0 <= n <= d * s) by (nonlinear_arith)
        requires
            n == b as int * s * s,
            d == 255 * s,
            0 <= b as int * s <= 255 * s,
            s > 0,
    ;
    vstd::arithmetic::div_mod::lemma_div_is_ordered(0, n, d);
    vstd::arithmetic::div_mod::lemma_div_is_ordered(n, d * s, d);
    vstd::arithmetic::div_mod::lemma_div_multiples_vanish(s, d);
    assert(d * s == s * d) by (nonlinear_arith);
}

/// A mild texture shows a colour of `[0, 1]` everywhere.
pub proof fn lemma_texture_is_bounded(tex: Texture, u: Fp, v: Fp, pos: Vec3F)
    requires
        spec_mild_texture(tex),
    ensures
        spec_unit_color(tex.spec_value(u, v, pos)),
{
    match tex {
        Texture::Image(t) => {
            let zero = fp(0);
            let one = fp(SCALE as int);
            if !(t.image.width == 0 || t.image.height == 0) {
                let seen = t.image.spec_pixel_at_uv(
                    u.spec_clamp(zero, one),
                    one.spec_sub(v.spec_clamp(zero, one)),
                );
                assert forall|b: u8| 0 <= (#[trigger] byte_to_channel(b)).raw <= SCALE by {
                    lemma_byte_channel_range(b);
                }
            }
        },
        _ => {},
    }
}

/// The product of two numbers of `[0, 1]` lies between zero and each of
/// them.
pub proof fn lemma_product_of_fractions(a: Fp, b: Fp)
    requires
        0 <= a.raw <= SCALE,
        0 <= b.raw <= SCALE,
    ensures
        0 <= a.spec_mul(b).raw <= a.raw,
        a.spec_mul(b).raw <= b.raw,
{
    lemma_scaled_between(a, b);
    lemma_scaled_between(b, a);
    assert(a.raw * b.raw == b.raw * a.raw) by (nonlinear_arith);
}

/// The sky and the black background lie in `[0, 1]`, whatever the ray.
pub proof fn lemma_background_is_bounded(scene: Scene, ray: Ray)
    ensures
        spec_unit_color(scene.spec_background(ray)),
{
    if scene.is_background_sky {
        let d = ray.direction;
        let one = fp(SCALE as int);
        let half = fp(SCALE as int / 2);
        let ny = d.spec_normalized().y;
        if d.x.raw != 0 || d.y.raw != 0 || d.z.raw != 0 {
            lemma_normalized_is_unit(d);
        } else {
            assert(0int * d.spec_lift() == 0);
            assert(0int * 0int == 0);
            crate::fixed::lemma_floor_sqrt_is(0, 0);
        }
        assert(-SCALE <= ny.raw <= SCALE);
        let w = ny.spec_add(one);
        assert(0 <= w.raw <= 2 * SCALE);
        let a = half.spec_mul(w);
        assert(0 <= a.raw <= SCALE) by {
            let s = SCALE as int;
            assert((s / 2) * w.raw >= 0 && (s / 2) * w.raw <= s * s) by (nonlinear_arith)
                requires
                    0 <= w.raw <= 2 * s,
                    s == 1_000_000_000,
            ;
            vstd::arithmetic::div_mod::lemma_div_is_ordered(0, (s / 2) * w.raw, s);
            vstd::arithmetic::div_mod::lemma_div_is_ordered((s / 2) * w.raw, s * s, s);
            vstd::arithmetic::div_mod::lemma_div_multiples_vanish(s, s);
        }
        let rest = one.spec_sub(a);
        lemma_mul_one(rest);
        lemma_product_of_fractions(fp(500_000_000), a);
        lemma_product_of_fractions(fp(700_000_000), a);
        lemma_mul_one(a);
    }
}

/// In a scene of mild materials no ray carries more than the sky gives:
/// every colour that can be traced lies in `[0, 1]`.
pub proof fn lemma_radiance_is_bounded(scene: Scene, ray: Ray, depth: int, color: Color3F)
    requires
        spec_mild_scene(scene),
        scene.spec_may_trace_to(ray, depth, color),
    ensures
        spec_unit_color(color),
    decreases TRACE_MAX_DEPTH + 1 - depth,
{
    if depth <= TRACE_MAX_DEPTH {
        let (hit, index) = scene.spec_nearest_hit(ray);
        if hit.hit {
            lemma_hit_is_no_brighter_than_its_albedo(scene, ray, depth, color);
        } else {
            lemma_background_is_bounded(scene, ray);
        }
    }
}

/// The colour that a hit of a mild material may scatter with lies in
/// `[0, 1]`; for a diffuse material it is the texture's colour at the hit.
pub proof fn lemma_albedo_is_bounded(
    material: Material,
    ray: Ray,
    hit: RayIntersection,
    scattered: ScatterResult,
)
    requires
        spec_mild_material(material),
        Scene::spec_may_scatter_to(material, ray, hit, Some(scattered)),
    ensures
        spec_unit_color(scattered.albedo),
        material matches Material::Diffuse(d) ==> scattered.albedo == d.tex.spec_value(
            hit.u,
            hit.v,
            hit.hit_point,
        ),
{
    match material {
        Material::Diffuse(d) => {
            lemma_texture_is_bounded(d.tex, hit.u, hit.v, hit.hit_point);
        },
        _ => {},
    }
}

/// In a scene of mild materials the colour of a hit is no brighter than the
/// colour that the surface scatters with, and lies in `[0, 1]`: it is that
/// colour times a radiance of `[0, 1]`. For a diffuse surface of one colour
/// it is no brighter than that colour.
pub proof fn lemma_hit_is_no_brighter_than_its_albedo(
    scene: Scene,
    ray: Ray,
    depth: int,
    color: Color3F,
)
    requires
        spec_mild_scene(scene),
        depth <= TRACE_MAX_DEPTH,
        scene.spec_nearest_hit(ray).0.hit,
        scene.spec_may_trace_to(ray, depth, color),
    ensures
        spec_unit_color(color),
        ({
            let index = scene.spec_nearest_hit(ray).1;
            let material = scene.materials@[scene.shapes@[index].spec_material() as int];
            material matches Material::Diffuse(d) ==> spec_no_brighter(
                color,
                d.tex.spec_value(
                    scene.spec_nearest_hit(ray).0.u,
                    scene.spec_nearest_hit(ray).0.v,
                    scene.spec_nearest_hit(ray).0.hit_point,
                ),
            )
        }),
    decreases TRACE_MAX_DEPTH + 1 - depth, 0int,
{
    let (hit, index) = scene.spec_nearest_hit(ray);
    lemma_scan_finds_closest(
        scene.shapes@,
        ray,
        spec_near_limit(),
        spec_far_limit(),
        0,
        scene.shapes@.len() as int,
    );
    let material = scene.materials@[scene.shapes@[index].spec_material() as int];
    assert(spec_mild_material(material));
    let (scattered, next, incoming, s_pdf, m_pdf) = choose|
        scattered: Option<ScatterResult>,
        next: Ray,
        incoming: Color3F,
        s_pdf: Fp,
        m_pdf: Fp,
    |
        {
            &&& #[trigger] Scene::spec_bounce(
                ray,
                hit,
                material,
                scattered,
                next,
                incoming,
                s_pdf,
                m_pdf,
                color,
            )
            &&& scattered is Some ==> scene.spec_may_trace_to(next, depth + 1, incoming)
        };
    match material {
        Material::Diffuse(d) => {
            lemma_texture_is_bounded(d.tex, hit.u, hit.v, hit.hit_point);
        },
        _ => {},
    }
    match scattered {
        None => {},
        Some(s) => {
            lemma_albedo_is_bounded(material, ray, hit, s);
            if depth + 1 <= TRACE_MAX_DEPTH {
                if scene.spec_nearest_hit(next).0.hit {
                    lemma_hit_is_no_brighter_than_its_albedo(scene, next, depth + 1, incoming);
                } else {
                    lemma_background_is_bounded(scene, next);
                }
            }
            lemma_product_of_fractions(s.albedo.x, incoming.x);
            lemma_product_of_fractions(s.albedo.y, incoming.y);
            lemma_product_of_fractions(s.albedo.z, incoming.z);
        },
    }
}

/// The sky is bright: its red is at least a half, its green at least seven
/// tenths, each less one raw unit, and its blue is one.
pub proof fn lemma_sky_is_bright(scene: Scene, ray: Ray)
    requires
        scene.is_background_sky,
    ensures
        scene.spec_background(ray).x.raw >= 500_000_000 - 1,
        scene.spec_background(ray).y.raw >= 700_000_000 - 1,
        scene.spec_background(ray).z.raw == SCALE,
{
    let d = ray.direction;
    let one = fp(SCALE as int);
    let half = fp(SCALE as int / 2);
    let s = SCALE as int;
    let ny = d.spec_normalized().y;
    if d.x.raw != 0 || d.y.raw != 0 || d.z.raw != 0 {
        lemma_normalized_is_unit(d);
    } else {
        assert(0int * d.spec_lift() == 0);
        assert(0int * 0int == 0);
        crate::fixed::lemma_floor_sqrt_is(0, 0);
    }
    let w = ny.spec_add(one);
    let a = half.spec_mul(w);
    assert(0 <= a.raw <= SCALE) by {
        assert((s / 2) * w.raw >= 0 && (s / 2) * w.raw <= s * s) by (nonlinear_arith)
            requires
                0 <= w.raw <= 2 * s,
                s == 1_000_000_000,
        ;
        vstd::arithmetic::div_mod::lemma_div_is_ordered(0, (s / 2) * w.raw, s);
        vstd::arithmetic::div_mod::lemma_div_is_ordered((s / 2) * w.raw, s * s, s);
        vstd::arithmetic::div_mod::lemma_div_multiples_vanish(s, s);
    }
    let rest = one.spec_sub(a);
    lemma_mul_one(rest);
    lemma_mul_one(a);
    lemma_fraction_of(500_000_000, a);
    lemma_fraction_of(700_000_000, a);
}

/// A number of `[0, 1]` times a number of thousand-millionths is, rounded
/// down, less than one raw unit below the true product.
pub proof fn lemma_fraction_of(e: int, a: Fp)
    requires
        0 <= e <= SCALE,
        0 <= a.raw <= SCALE,
    ensures
        fp(e).spec_mul(a).raw * SCALE <= e * a.raw,
        fp(e).spec_mul(a).raw * SCALE > e * a.raw - SCALE,
        fp(e).spec_mul(a).raw >= 0,
{
    let s = SCALE as int;
    let n = e * a.raw;
    assert(0 <= n <= s * s) by (nonlinear_arith)
        requires
            n == e * a.raw,
            0 <= e <= s,
            0 <= a.raw <= s,
    ;
    vstd::arithmetic::div_mod::lemma_fundamental_div_mod(n, s);
    vstd::arithmetic::div_mod::lemma_mod_bound(n, s);
    vstd::arithmetic::div_mod::lemma_div_is_ordered(0, n, s);
    vstd::arithmetic::div_mod::lemma_div_is_ordered(n, s * s, s);
    vstd::arithmetic::div_mod::lemma_div_multiples_vanish(s, s);
    assert((n / s) * s == s * (n / s)) by (nonlinear_arith);
}

/// Before the sky, a diffuse surface whose colour has less than seven
/// tenths of green and less than all of the blue is darker than the sky in
/// those two channels, whatever is drawn.
pub proof fn lemma_surface_is_darker_than_the_sky(
    scene: Scene,
    ray: Ray,
    depth: int,
    color: Color3F,
    sky_ray: Ray,
)
    requires
        spec_mild_scene(scene),
        scene.is_background_sky,
        depth <= TRACE_MAX_DEPTH,
        scene.spec_nearest_hit(ray).0.hit,
        scene.spec_may_trace_to(ray, depth, color),
        ({
            let index = scene.spec_nearest_hit(ray).1;
            let hit = scene.spec_nearest_hit(ray).0;
            let material = scene.materials@[scene.shapes@[index].spec_material() as int];
            &&& material is Diffuse
            &&& material->Diffuse_0.tex.spec_value(hit.u, hit.v, hit.hit_point).y.raw
                < 700_000_000 - 1
            &&& material->Diffuse_0.tex.spec_value(hit.u, hit.v, hit.hit_point).z.raw < SCALE
        }),
    ensures
        color.y.raw < scene.spec_background(sky_ray).y.raw,
        color.z.raw < scene.spec_background(sky_ray).z.raw,
{
    lemma_hit_is_no_brighter_than_its_albedo(scene, ray, depth, color);
    lemma_sky_is_bright(scene, sky_ray);
}

} // verus!
