//! A ray-casting renderer over fixed-point arithmetic.
//!
//! The scene is a list of spheres lit by ambient, point and directional
//! lights.  Every pixel of a centered canvas is projected through a viewport
//! into a ray; the nearest sphere hit by the ray is shaded by a local
//! lighting model (ambient + diffuse + specular) and the resulting color is
//! written back to the canvas.
//!
//! All real-valued quantities (positions, directions, intensities, ray
//! parameters) are fixed-point numbers: an `i64` value `v` stands for the
//! real number `v / SCALE`.

pub mod fixed;
pub mod vec3;
pub mod color;
pub mod scene;
pub mod canvas;
pub mod tracing;
pub mod render;
pub mod laws;

pub use render::render;

pub use fixed::SCALE;
pub use vec3::Vec3;
pub use color::Color;
pub use scene::{Scene, Sphere, Light, LightKind};
pub use canvas::Canvas;
