//! A small recursive path tracer over spheres, computed in exact
//! fixed-point arithmetic so that every stage — intersection, material
//! scattering, the recursive integrator and the final colour encoding —
//! carries a precise functional contract.

pub mod camera;
pub mod color;
pub mod fixed;
pub mod hittable;
pub mod hittable_list;
pub mod materials;
pub mod ray;
pub mod rng;
pub mod sphere;
pub mod tracer;
pub mod vec3;
