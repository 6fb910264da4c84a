//! Procedural meshes, instance batching and buffer growth for a small instanced renderer.
//!
//! Everything here works on integers: mesh topology (index and edge-index lists),
//! the grouping of a frame's draw requests by mesh type, and the doubling policy of
//! the instance buffers. Floating-point geometry and GPU work live with the caller.
pub mod camera;
pub mod capacity;
pub mod mesh;
pub mod primitives;
pub mod renderer;
pub mod selection;
pub mod sphere;
