//! The core of a progressive Monte Carlo path tracer for scenes of spheres.
//!
//! The library keeps the books of light transport in exact fixed-point
//! arithmetic: which interaction a material samples and what throughput it
//! carries, what a light path gathers and when it ends, which object a ray
//! meets first, what every pixel has accumulated and how it is displayed.
//! Vectors, angles and the clock belong to the host, which hands the
//! library plain quantities and functions that compute them.

pub mod camera;
pub mod color;
pub mod exposure;
pub mod fixed;
pub mod material;
pub mod path;
mod random;
pub mod scene;
pub mod tracer;
