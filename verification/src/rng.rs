//! Random draws.
//!
//! The generator is `rand`'s `SmallRng`. Nothing is known of a draw but the
//! range that it was asked for, so every function that draws states what
//! holds whatever came back.

use crate::fixed::{Fp, SCALE};
use crate::vecmath::{Vec3, Vec3F};
use rand::rngs::SmallRng;
use rand::Rng;
use rand::SeedableRng;
use std::ops::Range;
use vstd::prelude::*;

verus! {

/// `rand::rngs::SmallRng`, a small and fast generator of random numbers.
/// Nothing of its state is known.
#[verifier::external_type_specification]
#[verifier::external_body]
pub struct ExSmallRng(rand::rngs::SmallRng);

/// `Rng::gen_range` on a half-open range of `i64`: the draw lies in the
/// range. The range must not be empty, else `gen_range` panics. It draws
/// words from the generator until one falls into the part of their range
/// that maps evenly onto the range asked for, which more than half of all
/// words do.
#[verifier::external_body]
fn draw_range(rng: &mut SmallRng, low: i64, high: i64) -> (r: i64)
    requires
        low < high,
    ensures
        low <= r < high,
{
    rng.gen_range(low..high)
}

/// `SeedableRng::seed_from_u64` for `SmallRng`: a generator made from a
/// seed. Which numbers it goes on to give depends on the platform's word
/// size, so nothing is stated of it.
#[verifier::external_body]
pub(crate) fn new_rng(seed: u64) -> SmallRng {
    SmallRng::seed_from_u64(seed)
}

/// A number in `[0, 1)`.
pub fn uniform_unit(rng: &mut SmallRng) -> (r: Fp)
    ensures
        0 <= r.raw < SCALE,
{
    Fp::from_raw(draw_range(rng, 0, SCALE))
}

/// A number in `[low, high)`.
pub fn uniform_between(rng: &mut SmallRng, low: Fp, high: Fp) -> (r: Fp)
    requires
        low.raw < high.raw,
    ensures
        low.raw <= r.raw < high.raw,
{
    Fp::from_raw(draw_range(rng, low.raw, high.raw))
}

/// An index below `n`.
pub fn uniform_index(rng: &mut SmallRng, n: usize) -> (r: usize)
    requires
        0 < n,
    ensures
        r < n,
{
    let bound = index_bound(n);
    index_of_draw(draw_range(rng, 0, bound))
}

/// The end of the range from which an index below `n` is drawn: `n`, or the
/// largest number of the draw's type where `n` exceeds it.
pub open spec fn spec_index_bound(n: usize) -> i64 {
    if n > 0x7fff_ffff_ffff_ffff {
        0x7fff_ffff_ffff_ffff
    } else {
        n as i64
    }
}

/// The end of the range from which an index below `n` is drawn.
pub fn index_bound(n: usize) -> (r: i64)
    ensures
        r == spec_index_bound(n),
        0 <= r <= n,
        n > 0 ==> r > 0,
{
    let wide: u64 = n as u64;
    if wide > 0x7fff_ffff_ffff_ffff {
        0x7fff_ffff_ffff_ffff
    } else {
        wide as i64
    }
}

/// The index that a draw stands for: the draw itself.
pub fn index_of_draw(draw: i64) -> (r: usize)
    requires
        0 <= draw <= usize::MAX,
    ensures
        r == draw,
{
    draw as usize
}

impl Vec3<Fp> {
    /// A vector whose components are drawn from `range`, one after the
    /// other.
    pub fn random_fp_range(rng: &mut SmallRng, range: Range<Fp>) -> (r: Vec3F)
        requires
            range.start.raw < range.end.raw,
        ensures
            range.start.raw <= r.x.raw < range.end.raw,
            range.start.raw <= r.y.raw < range.end.raw,
            range.start.raw <= r.z.raw < range.end.raw,
    {
        let x = uniform_between(rng, range.start, range.end);
        let y = uniform_between(rng, range.start, range.end);
        let z = uniform_between(rng, range.start, range.end);
        Vec3 { x, y, z }
    }
}

} // verus!
