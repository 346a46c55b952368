//! Fixed-layout uniform data derived from world rectangles.
//!
//! These structs mirror the uniform blocks the shader stages read: the
//! display-wide viewport size and the per-sprite rectangle. Both are derived
//! deterministically from plain world values.

use vstd::prelude::*;
use crate::ty::WorldRect;

verus! {

/// The display-wide uniform block: the viewport size in pixels.
#[derive(Copy, Clone, Debug, PartialEq, Eq, Structural)]
pub struct DisplayUniforms {
    pub width: u32,
    pub height: u32,
}

/// The per-sprite uniform block: the sprite's world rectangle, split into
/// position and extent.
#[derive(Copy, Clone, Debug, PartialEq, Eq, Structural)]
pub struct SpriteUniforms {
    pub pos_x: i32,
    pub pos_y: i32,
    pub width: u32,
    pub height: u32,
}

/// The uniform block a world rectangle maps to: position, then extent,
/// field for field.
pub open spec fn sprite_uniforms_spec(rect: WorldRect) -> SpriteUniforms {
    SpriteUniforms {
        pos_x: rect.position.0,
        pos_y: rect.position.1,
        width: rect.bounds.0,
        height: rect.bounds.1,
    }
}

impl SpriteUniforms {
    /// Derives the uniform block for one sprite rectangle.
    pub fn from_rect(rect: &WorldRect) -> (r: SpriteUniforms)
        ensures
            r == sprite_uniforms_spec(*rect),
    {
        SpriteUniforms {
            pos_x: rect.position.0,
            pos_y: rect.position.1,
            width: rect.bounds.0,
            height: rect.bounds.1,
        }
    }
}

impl From<WorldRect> for SpriteUniforms {
    fn from(rect: WorldRect) -> (r: SpriteUniforms) {
        SpriteUniforms::from_rect(&rect)
    }
}

impl vstd::std_specs::convert::FromSpecImpl<WorldRect> for SpriteUniforms {
    open spec fn obeys_from_spec() -> bool {
        true
    }

    open spec fn from_spec(rect: WorldRect) -> SpriteUniforms {
        sprite_uniforms_spec(rect)
    }
}

} // verus!
