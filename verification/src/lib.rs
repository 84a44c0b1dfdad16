//! A recursive ray tracer over fixed-point arithmetic.
//!
//! Scenes of analytic spheres are rendered into discrete RGB pixel rows by
//! simulating light transport along camera rays.  All scalar quantities are
//! `Fix` values: signed 64-bit integers interpreted with 16 fractional bits,
//! with saturating, truncating arithmetic whose exact behaviour is stated in
//! the contracts.

pub mod camera;
pub mod colour;
pub mod fixed;
pub mod hittable;
pub mod hittable_list;
pub mod lambertian;
pub mod material;
pub mod metal;
pub mod point3;
pub mod ray;
pub mod render;
pub mod rng;
pub mod sphere;
pub mod vec3;
