//! A Monte-Carlo path-tracing renderer over fixed-point arithmetic.
//!
//! The renderer estimates pixel radiance for a static scene of spheres lit
//! by a sky gradient (or a black background), by stochastic recursive ray
//! tracing. Scalars are Q47.16 fixed point, so every arithmetic step has an
//! exact, machine-checked contract.

pub mod bvh;
pub mod camera;
pub mod fixed;
pub mod hit;
pub mod integrator;
pub mod material;
pub mod ray;
pub mod rng;
pub mod sampler;
pub mod sphere;
pub mod vec3;
