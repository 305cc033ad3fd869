//! Gravitational n-body simulation core with a free-fly / orbit camera.
//!
//! All physical quantities are fixed-point numbers: an `i64` counts
//! micro-units (`fixed::SCALE` units per simulation unit), so every
//! operation has exact integer semantics that the contracts state in full.
//! Rendering, windowing and raw input polling live outside this crate; the
//! library consumes resolved input signals (key states, mouse position,
//! frame time) and hands back plain state.

pub mod fixed;
pub mod vec3;
pub mod gravity;
pub mod camera;
pub mod edit;
pub mod sim;
