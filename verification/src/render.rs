//! From radiance to pixels: one row of the image at a time.

use crate::camera::{is_fraction, spec_is_lens_draw, Camera};
use crate::fixed::{fp, Fp, SCALE};
use crate::scene::Scene;
use crate::shapes::Ray;
use crate::vecmath::{Color3F, Vec3, Vec3F};
use rand::rngs::SmallRng;
use vstd::prelude::*;

verus! {

/// The colour with the square root of each channel; a channel that is not
/// positive becomes zero.
pub open spec fn spec_linear_to_gamma(color: Color3F) -> Color3F {
    Vec3 { x: color.x.spec_sqrt(), y: color.y.spec_sqrt(), z: color.z.spec_sqrt() }
}

/// Gamma correction with an exponent of one half.
pub fn linear_to_gamma(color: &Color3F) -> (r: Color3F)
    ensures
        r == spec_linear_to_gamma(*color),
{
    Vec3::new(color.x.sqrt(), color.y.sqrt(), color.z.sqrt())
}

/// The bytes of a pixel whose `count` samples sum to `sum`: the mean, gamma
/// corrected and quantised.
pub open spec fn spec_resolve_pixel(sum: Color3F, count: int) -> Seq<u8> {
    let bytes = spec_linear_to_gamma(sum.spec_div(Fp::spec_from_count(count))).spec_to_bytes();
    seq![bytes.x, bytes.y, bytes.z]
}

pub fn resolve_pixel(sum: Color3F, count: usize) -> (r: [u8; 3])
    ensures
        r@ == spec_resolve_pixel(sum, count as int),
{
    let mean = sum.div(Fp::from_count(count));
    linear_to_gamma(&mean).to_bytes().to_array()
}

/// A pixel without radiance is black.
pub proof fn lemma_resolve_dark(count: int)
    ensures
        spec_resolve_pixel(Vec3F::spec_zero(), count) == seq![0u8, 0u8, 0u8],
{
    let k = Fp::spec_from_count(count);
    assert(0int * SCALE == 0);
    assert(fp(0).spec_div(k) == fp(0));
    assert(0int * (255 * SCALE) == 0);
    assert(spec_linear_to_gamma(Vec3F::spec_zero().spec_div(k)) == Vec3F::spec_zero());
}

/// Every sample position lies within its pixel.
pub open spec fn spec_samples_ok(samples: Seq<(Fp, Fp)>) -> bool {
    forall|i: int|
        0 <= i < samples.len() ==> is_fraction((#[trigger] samples[i]).0) && is_fraction(
            samples[i].1,
        )
}

/// Whether `color` can be the radiance seen through the given position of
/// a pixel: what can be traced along a ray that the camera can generate
/// through that position.
#[verifier::opaque]
pub open spec fn spec_may_see(
    scene: Scene,
    camera: Camera,
    col: u32,
    row: u32,
    position: (Fp, Fp),
    color: Color3F,
) -> bool {
    exists|dx: Fp, dy: Fp, ray: Ray|
        spec_is_lens_draw(dx, dy) && #[trigger] camera.spec_ray_is(
            col,
            row,
            position.0,
            position.1,
            dx,
            dy,
            ray,
        ) && scene.spec_may_trace_to(ray, 0, color)
}

/// The sum of the first `n` colours, each added to the sum of those before
/// it.
pub open spec fn spec_sum(colors: Seq<Color3F>, n: int) -> Color3F
    decreases n,
{
    if n <= 0 {
        Vec3F::spec_zero()
    } else {
        colors[n - 1].spec_add(spec_sum(colors, n - 1))
    }
}

/// Whether `sum` can be the radiance of a pixel: the sum of colours of
/// which each can be seen through one of the sample positions.
pub open spec fn spec_may_sum_to(
    scene: Scene,
    camera: Camera,
    col: u32,
    row: u32,
    positions: Seq<(Fp, Fp)>,
    sum: Color3F,
) -> bool {
    exists|colors: Seq<Color3F>|
        {
            &&& colors.len() == positions.len()
            &&& forall|i: int|
                0 <= i < positions.len() ==> spec_may_see(
                    scene,
                    camera,
                    col,
                    row,
                    positions[i],
                    #[trigger] colors[i],
                )
            &&& sum == #[trigger] spec_sum(colors, positions.len() as int)
        }
}

/// The radiance along one ray through the given position of a pixel.
pub fn sample_radiance(
    scene: &Scene,
    camera: &Camera,
    col: u32,
    row_index: u32,
    position: (Fp, Fp),
    rng: &mut SmallRng,
) -> (r: Color3F)
    requires
        scene.wf(),
        is_fraction(position.0),
        is_fraction(position.1),
    ensures
        spec_may_see(*scene, *camera, col, row_index, position, r),
        scene.spec_is_dark() ==> r == Vec3F::spec_zero(),
{
    proof {
        reveal(spec_may_see);
    }
    let ray = camera.gen_ray(col, row_index, position.0, position.1, rng);
    scene.trace(&ray, rng, 0)
}

/// The sum of the radiance along one ray through each sample position of a
/// pixel.
pub fn pixel_radiance(
    scene: &Scene,
    camera: &Camera,
    col: u32,
    row_index: u32,
    pixel_samples: &[(Fp, Fp)],
    rng: &mut SmallRng,
) -> (r: Color3F)
    requires
        scene.wf(),
        spec_samples_ok(pixel_samples@),
    ensures
        spec_may_sum_to(*scene, *camera, col, row_index, pixel_samples@, r),
        scene.spec_is_dark() ==> r == Vec3F::spec_zero(),
        pixel_samples@.len() == 0 ==> r == Vec3F::spec_zero(),
{
    let mut pixel_color = Vec3F::zero();
    let ghost mut seen: Seq<Color3F> = Seq::empty();
    let mut i: usize = 0;
    while i < pixel_samples.len()
        invariant
            scene.wf(),
            spec_samples_ok(pixel_samples@),
            i <= pixel_samples@.len(),
            seen.len() == i,
            forall|k: int|
                0 <= k < i ==> spec_may_see(
                    *scene,
                    *camera,
                    col,
                    row_index,
                    pixel_samples@[k],
                    #[trigger] seen[k],
                ),
            pixel_color == spec_sum(seen, i as int),
            scene.spec_is_dark() ==> pixel_color == Vec3F::spec_zero(),
            pixel_samples@.len() == 0 ==> pixel_color == Vec3F::spec_zero(),
        decreases pixel_samples@.len() - i,
    {
        let color = sample_radiance(scene, camera, col, row_index, pixel_samples[i], rng);
        proof {
            let before = seen;
            seen = seen.push(color);
            lemma_sum_of_prefix(before, seen, i as int);
        }
        pixel_color = color.add(pixel_color);
        i += 1;
    }
    proof {
        assert(spec_sum(seen, pixel_samples@.len() as int) == pixel_color);
    }
    pixel_color
}

/// A sum depends on the colours that it adds only.
pub proof fn lemma_sum_of_prefix(a: Seq<Color3F>, b: Seq<Color3F>, n: int)
    requires
        0 <= n <= a.len(),
        n <= b.len(),
        forall|k: int| 0 <= k < n ==> a[k] == b[k],
    ensures
        spec_sum(a, n) == spec_sum(b, n),
    decreases n,
{
    if n > 0 {
        lemma_sum_of_prefix(a, b, n - 1);
    }
}

/// Whether `pixel` can be the bytes of a pixel: the mean of a radiance that
/// the pixel can have, gamma corrected and quantised.
pub open spec fn spec_may_show(
    scene: Scene,
    camera: Camera,
    col: u32,
    row: u32,
    positions: Seq<(Fp, Fp)>,
    pixel: Seq<u8>,
) -> bool {
    exists|sum: Color3F| #[trigger]
        spec_may_sum_to(scene, camera, col, row, positions, sum) && pixel == spec_resolve_pixel(
            sum,
            positions.len() as int,
        )
}

/// Renders one row of the image: for each pixel of `row_pixels`, the mean
/// radiance over the sample positions, gamma corrected and quantised.
pub fn trace_row(
    scene: &Scene,
    camera: &Camera,
    row_index: u32,
    row_pixels: &mut Vec<[u8; 3]>,
    pixel_samples: &[(Fp, Fp)],
    rng: &mut SmallRng,
)
    requires
        scene.wf(),
        spec_samples_ok(pixel_samples@),
        old(row_pixels)@.len() <= u32::MAX,
    ensures
        final(row_pixels)@.len() == old(row_pixels)@.len(),
        forall|c: int|
            0 <= c < final(row_pixels)@.len() ==> spec_may_show(
                *scene,
                *camera,
                c as u32,
                row_index,
                pixel_samples@,
                (#[trigger] final(row_pixels)@[c])@,
            ),
        scene.spec_is_dark() ==> forall|c: int|
            0 <= c < final(row_pixels)@.len() ==> (#[trigger] final(row_pixels)@[c])@ == seq![
                0u8,
                0u8,
                0u8,
            ],
{
    let mut col: usize = 0;
    while col < row_pixels.len()
        invariant
            scene.wf(),
            spec_samples_ok(pixel_samples@),
            row_pixels@.len() == old(row_pixels)@.len(),
            row_pixels@.len() <= u32::MAX,
            col <= row_pixels@.len(),
            forall|c: int|
                0 <= c < col ==> spec_may_show(
                    *scene,
                    *camera,
                    c as u32,
                    row_index,
                    pixel_samples@,
                    (#[trigger] row_pixels@[c])@,
                ),
            scene.spec_is_dark() ==> forall|c: int|
                0 <= c < col ==> (#[trigger] row_pixels@[c])@ == seq![0u8, 0u8, 0u8],
        decreases row_pixels@.len() - col,
    {
        let sum = pixel_radiance(scene, camera, col as u32, row_index, pixel_samples, rng);
        proof {
            lemma_resolve_dark(pixel_samples@.len() as int);
        }
        let pixel = resolve_pixel(sum, pixel_samples.len());
        assert(spec_may_show(*scene, *camera, col as u32, row_index, pixel_samples@, pixel@));
        row_pixels.set(col, pixel);
        col += 1;
    }
}

} // verus!
