//! The frame synchronization cell: a single-owner pending-GPU-work token.
//!
//! GPU submissions complete asynchronously. Rather than blocking after every
//! submission, the engine carries one token that stands for "all GPU
//! operations submitted so far whose completion has not been waited on", as
//! the ordered sequence of those operations. New work declares its dependency
//! on everything in flight by extending the token, which consumes it: the
//! token is affine (no clone, no copy), so a consumed token cannot be used
//! again, and the cell below owns the only live token between frames.

use vstd::prelude::*;

verus! {

/// One GPU-side operation whose completion the pending token orders.
#[derive(Copy, Clone, Debug, PartialEq, Eq, Structural)]
pub enum GpuOp {
    /// Staging the shared unit-quad vertex buffer.
    UploadQuadBuffer,
    /// Staging a new terrain vertex buffer.
    UploadTerrainVertexBuffer,
    /// Staging a new terrain index buffer.
    UploadTerrainIndexBuffer,
    /// Writing the viewport size into the display uniform buffer.
    UpdateDisplayUniforms { width: u32, height: u32 },
    /// Acquiring a presentable image from the surface.
    AcquireImage { image: usize },
    /// Submitting one recorded render pass to the queue.
    SubmitDraw { image: usize, sprite_count: usize },
    /// Scheduling presentation of a drawn image.
    Present { image: usize },
}

/// The single-owner token: the ordered sequence of submitted, not yet
/// awaited GPU operations. It supports only `extend` (consume it, return a
/// token that waits on one more operation); ownership transfer does the rest.
pub struct PendingGpuWork {
    ops: Vec<GpuOp>,
}

impl View for PendingGpuWork {
    type V = Seq<GpuOp>;

    closed spec fn view(&self) -> Seq<GpuOp> {
        self.ops@
    }
}

impl PendingGpuWork {
    /// The operations this token waits on, oldest first.
    pub fn ops(&self) -> (r: &Vec<GpuOp>)
        ensures
            r@ == self@,
    {
        &self.ops
    }

    /// Consumes this token and returns one that also waits on `op`, after
    /// everything the consumed token waited on.
    pub fn extend(self, op: GpuOp) -> (r: PendingGpuWork)
        ensures
            r@ == self@.push(op),
    {
        let mut ops = self.ops;
        ops.push(op);
        PendingGpuWork { ops }
    }
}

/// The cell that owns the one live token between frames. Every mutating
/// operation takes exclusive ownership of the token, extends it, and stores
/// the result back; the emptied slot makes nested or concurrent access
/// unrepresentable rather than merely forbidden.
pub struct FrameSync {
    slot: Option<PendingGpuWork>,
}

impl FrameSync {
    /// The slot holds the live token.
    pub closed spec fn is_full(&self) -> bool {
        self.slot is Some
    }

    /// The operations the stored token waits on, oldest first.
    pub closed spec fn pending(&self) -> Seq<GpuOp> {
        self.slot->Some_0@
    }

    /// Creates the cell owning a fresh token that waits on nothing.
    pub fn new() -> (r: FrameSync)
        ensures
            r.is_full(),
            r.pending() == Seq::<GpuOp>::empty(),
    {
        FrameSync { slot: Some(PendingGpuWork { ops: Vec::new() }) }
    }

    /// Whether the slot currently holds the live token.
    pub fn is_stored(&self) -> (r: bool)
        ensures
            r == self.is_full(),
    {
        match &self.slot {
            Some(_) => true,
            None => false,
        }
    }

    /// The operations the stored token waits on, oldest first.
    pub fn pending_ops(&self) -> (r: &Vec<GpuOp>)
        requires
            self.is_full(),
        ensures
            r@ == self.pending(),
    {
        match &self.slot {
            Some(t) => t.ops(),
            None => vstd::pervasive::unreached(),
        }
    }

    /// Takes exclusive ownership of the stored token; the slot becomes
    /// logically empty until `store` puts a token back.
    pub fn take(&mut self) -> (r: PendingGpuWork)
        requires
            old(self).is_full(),
        ensures
            !final(self).is_full(),
            r@ == old(self).pending(),
    {
        let mut tmp: Option<PendingGpuWork> = None;
        core::mem::swap(&mut self.slot, &mut tmp);
        tmp.unwrap()
    }

    /// Stores a token back into the emptied slot.
    pub fn store(&mut self, t: PendingGpuWork)
        requires
            !old(self).is_full(),
        ensures
            final(self).is_full(),
            final(self).pending() == t@,
    {
        self.slot = Some(t);
    }

    /// The cell's one composite operation: take the token, hand it to `f`,
    /// and store the token `f` returns. Two operations that must both
    /// observe and extend the pending work are composed into one call of
    /// this, never nested.
    pub fn with_pending_work<F: FnOnce(PendingGpuWork) -> PendingGpuWork>(&mut self, f: F)
        requires
            old(self).is_full(),
            forall|t: PendingGpuWork| t@ == old(self).pending() ==> call_requires(f, (t,)),
        ensures
            final(self).is_full(),
            exists|t: PendingGpuWork, r: PendingGpuWork|
                t@ == old(self).pending() && #[trigger] call_ensures(f, (t,), r)
                    && final(self).pending() == r@,
    {
        let t = self.take();
        let r = f(t);
        self.store(r);
    }
}

} // verus!
