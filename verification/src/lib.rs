//! A Monte Carlo path tracer with a verified core.
//!
//! Geometry, bounding volumes, the BVH accelerator, materials, sampling
//! densities and the path integrator all operate on a saturating fixed-point
//! scalar, so every arithmetic step has an exact integer-level contract.

pub mod aabb;
pub mod bvh;
pub mod camera;
pub mod color;
pub mod constant_medium;
pub mod fixed;
pub mod trig;
pub mod hittable;
pub mod hittable_list;
pub mod material;
pub mod onb;
pub mod pdf;
pub mod perlin;
pub mod quad;
pub mod sphere;
pub mod texture;
pub mod interval;
pub mod ray;
pub mod rng;
pub mod vec3;
