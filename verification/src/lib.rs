//! A verified core for a 2D sprite-and-terrain frame renderer.
//!
//! The library covers the parts of the renderer that carry real invariants:
//! the terrain tessellator that turns a tagged outline into a triangle-strip
//! index buffer with primitive-restart breaks, the single-owner pending-GPU-work
//! token that orders every submission, the uniform structs derived from world
//! rectangles, and the frame engine that ties them together. Window, device and
//! queue handling are external collaborators and stay outside.

pub mod renderer;
pub mod sprite;
pub mod sync;
pub mod terrain;
pub mod ty;
pub mod uniforms;
