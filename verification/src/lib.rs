//! A CPU path tracer over spheres with diffuse, metal and dielectric
//! materials, built on saturating fixed-point arithmetic so that every
//! computed color, hit record and camera ray is pinned down exactly by
//! its contract.

pub mod camera;
pub mod color;
pub mod fixed;
pub mod hittable;
pub mod image;
pub mod laws;
pub mod material;
pub mod ray;
pub mod rng;
pub mod sphere;
pub mod vector;
