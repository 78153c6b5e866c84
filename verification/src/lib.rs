//! A verified ray tracer core over exact fixed-point arithmetic.
//!
//! All geometry runs on a grid of `1 / 2^32` units: vectors, rays, spheres,
//! materials and the recursive radiance integrator are ordinary executable
//! code whose behavior is pinned down, step count by step count, by the
//! contracts in each module, and the laws module proves the algebraic
//! properties the pipeline depends on. Randomness enters through a single
//! unverified draw of a machine word; everything derived from it is
//! verified for whatever value comes back. Reading settings from disk and
//! emitting the image are left to the embedding program.

pub mod components;
pub mod fx;
pub mod laws;
pub mod types;
pub mod utils;

pub use fx::Fx;
