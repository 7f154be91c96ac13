//! A small recursive ray tracer for spheres over a checkerboard, with point
//! lights, reflection, refraction, hard shadows and an environment map.
//!
//! The library is generic over the scalar of its vectors. It holds the vector
//! algebra, the choice of what a ray hits, the recursion of the ray caster,
//! the gathering of light and the blending of a colour, and the grids that a
//! render reads and writes, with their text forms. It takes no square root
//! and measures no angle: those the caller does on the scalar of its choice.

pub mod environment;
pub mod frame;
pub mod geometry;
pub mod lighting;
pub mod order;
pub mod ppm;
pub mod samples;
pub mod scene;
pub mod shading;
pub mod tracer;
