//! A progressive path tracer over exact fixed-point arithmetic.
//!
//! Scalars are Q47.16 fixed-point numbers stored in `i64` (the value is the
//! stored integer divided by 65536), so every computation is deterministic
//! and its result is pinned exactly by the contracts. The crate covers the
//! scene and material model, sphere intersection, the recursive shading
//! integrator, camera ray generation, sRGB output encoding, the adaptive
//! batch scheduler with cooperative cancellation, temporal accumulation
//! weighting, and the flattening of a scene into index-range tables.

pub mod accum;
pub mod camera;
pub mod color;
pub mod commands;
pub mod flatten;
pub mod fx;
pub mod geom;
pub mod materials;
pub mod render;
pub mod rng;
pub mod scene;
pub mod sched;
pub mod shade;
pub mod utils;
pub mod vec3;

pub use fx::Fx;
pub use vec3::Vec3;
