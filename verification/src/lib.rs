//! A path tracer over fixed-point arithmetic.
//!
//! The crate holds the light-transport core of a renderer: the intersection
//! of rays with spheres, parallelograms and boxes, a bounding-volume
//! hierarchy over the shapes of a scene, the scattering rules of diffuse,
//! metal, dielectric and emissive materials, and the recursive estimator
//! that turns a ray into radiance.
//!
//! Every number is a decimal fixed-point number of nine fractional digits
//! (`fixed`). Its operations are total: a result that does not fit is
//! clamped to the largest number, so no operation of the crate can fail.
//! Lengths, unit vectors and the roots of a sphere's quadratic are taken
//! from the raw components in wide integers, so that short and long
//! vectors alike keep their digits. A squared length as a number of the
//! crate is rounded to nine digits, and fits as long as the length stays
//! below some ninety thousand units.
//!
//! Randomness comes from a generator that the caller hands in (`rng`). Each
//! sampling operation has a twin that takes the random numbers as arguments
//! and is specified exactly.

pub mod bvh;
pub mod camera;
pub mod clearance;
pub mod fixed;
pub mod image;
pub mod lights;
pub mod matched;
pub mod materials;
pub mod ops;
pub mod presets;
pub mod radiance;
pub mod render;
pub mod rng;
pub mod scene;
pub mod shapes;
pub mod textures;
pub mod trig;
pub mod vecmath;
