//! A movable sprite: a world rectangle drawn as a textured unit quad.

use vstd::prelude::*;
use crate::ty::WorldRect;

verus! {

/// One visible sprite. The list order of sprites defines their draw order.
#[derive(Copy, Clone, Debug, PartialEq, Eq, Structural)]
pub struct Sprite {
    pub rect: WorldRect,
}

impl Sprite {
    /// Wraps a world rectangle as a sprite.
    pub fn new(rect: WorldRect) -> (r: Sprite)
        ensures
            r.rect == rect,
    {
        Sprite { rect }
    }
}

} // verus!
