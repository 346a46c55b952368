//! World-space value types shared by sprites, terrain and uniforms.

use vstd::prelude::*;

verus! {

/// A world-space position: x, then y.
#[derive(Copy, Clone, Debug, PartialEq, Eq, Structural)]
pub struct WorldCoords(pub i32, pub i32);

/// A world-space extent: width, then height.
#[derive(Copy, Clone, Debug, PartialEq, Eq, Structural)]
pub struct WorldBounds(pub u32, pub u32);

/// An axis-aligned rectangle: a position and an extent.
#[derive(Copy, Clone, Debug, PartialEq, Eq, Structural)]
pub struct WorldRect {
    pub position: WorldCoords,
    pub bounds: WorldBounds,
}

} // verus!
