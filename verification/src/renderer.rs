//! The frame engine: terrain upload, display-uniform updates and per-frame
//! submission, all ordered through the single pending-GPU-work token.
//!
//! The engine models the device-resident state as plain values: the staged
//! buffer contents, the display uniform block, and the ordered sequence of
//! GPU operations the live token waits on. The surrounding program performs
//! the actual device calls; it hands the engine the outcome of the bounded
//! image-acquisition wait and carries out the frame submission the engine
//! returns.

use vstd::prelude::*;
use crate::sprite::Sprite;
use crate::sync::{FrameSync, GpuOp};
use crate::terrain::{coords_of, strip_indices, wf_mesh, TerrainMesh, RESTART};
use crate::ty::WorldCoords;
use crate::uniforms::{sprite_uniforms_spec, DisplayUniforms, SpriteUniforms};

verus! {

/// The outcome of the bounded wait for the next presentable image, as the
/// presentation surface reports it.
#[derive(Copy, Clone, Debug, PartialEq, Eq, Structural)]
pub enum AcquireResult {
    /// The surface handed over the image with this index within the wait.
    Image(usize),
    /// The bounded wait elapsed without an image.
    Timeout,
    /// The surface needs reconfiguration at the current window size.
    OutOfDate,
}

/// A recoverable frame failure: the caller recreates the presentation
/// surface at the current window size and retries on the next tick.
#[derive(Copy, Clone, Debug, PartialEq, Eq, Structural)]
pub enum RenderError {
    AcquireTimeout,
    SurfaceOutOfDate,
}

/// Rejection of a terrain outline that the tessellator cannot index.
#[derive(Copy, Clone, Debug, PartialEq, Eq, Structural)]
pub enum TerrainError {
    /// The outline breaks the anchor precondition: it is empty, does not
    /// begin with an `Inner` vertex, or repeats an anchor with no surface
    /// sample in between.
    MalformedOutline,
    /// The outline has more vertices than the index range below the restart
    /// sentinel can address.
    TooManyVertices,
}

/// One recorded command of a frame's single render pass, in issue order.
#[derive(Copy, Clone, Debug, PartialEq, Eq, Structural)]
pub enum DrawCommand {
    /// Clear the image to the fixed background color.
    ClearBackground,
    /// Draw the shared unit quad with this sprite's uniform block.
    DrawSprite(SpriteUniforms),
    /// Draw the terrain: an indexed strip draw with restart enabled.
    DrawTerrain { index_count: usize },
}

/// Everything one frame records: the acquired image, the render pass
/// commands in issue order, and the display uniform contents every draw of
/// the pass reads.
#[derive(Clone, Debug)]
pub struct FrameSubmission {
    pub image: usize,
    pub commands: Vec<DrawCommand>,
    pub display: DisplayUniforms,
}

/// The shared unit-quad vertex data every sprite draw scales by its uniform
/// block.
pub open spec fn unit_quad() -> Seq<WorldCoords> {
    seq![WorldCoords(0, 0), WorldCoords(1, 0), WorldCoords(0, 1), WorldCoords(1, 1)]
}

/// The commands of one render pass: a clear, one sprite draw per sprite in
/// list order (so a later sprite draws on top), and the terrain draw after
/// all sprite draws.
pub open spec fn render_pass_commands(sprites: Seq<Sprite>, index_count: usize) -> Seq<
    DrawCommand,
> {
    seq![DrawCommand::ClearBackground] + Seq::new(
        sprites.len(),
        |k: int| DrawCommand::DrawSprite(sprite_uniforms_spec(sprites[k].rect)),
    ) + seq![DrawCommand::DrawTerrain { index_count }]
}

/// The engine. Buffer handles are replaced wholesale when terrain changes,
/// never mutated in place, and every mutating operation threads the one
/// pending-work token.
pub struct Renderer {
    quad_vertex_buffer: Vec<WorldCoords>,
    terrain_vertex_buffer: Vec<WorldCoords>,
    terrain_index_buffer: Vec<u32>,
    display_uniforms: DisplayUniforms,
    framebuffer_count: usize,
    sync: FrameSync,
}

impl Renderer {
    /// The synchronization cell owns the live token.
    pub closed spec fn wf(&self) -> bool {
        self.sync.is_full()
    }

    /// The staged unit-quad vertex data.
    pub closed spec fn quad(&self) -> Seq<WorldCoords> {
        self.quad_vertex_buffer@
    }

    /// The staged terrain vertex positions.
    pub closed spec fn terrain_vertices(&self) -> Seq<WorldCoords> {
        self.terrain_vertex_buffer@
    }

    /// The staged terrain strip indices.
    pub closed spec fn terrain_indices(&self) -> Seq<u32> {
        self.terrain_index_buffer@
    }

    /// The display uniform contents as of the last update.
    pub closed spec fn display(&self) -> DisplayUniforms {
        self.display_uniforms
    }

    /// How many presentable images the surface rotates through.
    pub closed spec fn image_count(&self) -> int {
        self.framebuffer_count as int
    }

    /// The GPU operations the live token waits on, oldest first.
    pub closed spec fn pending(&self) -> Seq<GpuOp> {
        self.sync.pending()
    }

    /// Checks that the synchronization cell holds the live token (true
    /// whenever the engine is between operations).
    pub fn is_synced(&self) -> (r: bool)
        ensures
            r == self.wf(),
    {
        self.sync.is_stored()
    }

    /// The staged terrain vertex positions.
    pub fn terrain_vertex_data(&self) -> (r: &Vec<WorldCoords>)
        ensures
            r@ == self.terrain_vertices(),
    {
        &self.terrain_vertex_buffer
    }

    /// The staged terrain strip indices.
    pub fn terrain_index_data(&self) -> (r: &Vec<u32>)
        ensures
            r@ == self.terrain_indices(),
    {
        &self.terrain_index_buffer
    }

    /// The display uniform contents as of the last update.
    pub fn display_value(&self) -> (r: DisplayUniforms)
        ensures
            r == self.display(),
    {
        self.display_uniforms
    }

    /// The GPU operations the live token waits on, oldest first.
    pub fn pending_ops(&self) -> (r: &Vec<GpuOp>)
        requires
            self.wf(),
        ensures
            r@ == self.pending(),
    {
        self.sync.pending_ops()
    }

    /// Sets up the engine: stages the shared quad and a one-vertex
    /// placeholder terrain, then records the initial viewport size, so the
    /// first frame already waits on every upload.
    pub fn new(framebuffer_count: usize, width: u32, height: u32) -> (r: Renderer)
        ensures
            r.wf(),
            r.image_count() == framebuffer_count,
            r.quad() == unit_quad(),
            r.terrain_vertices() == seq![WorldCoords(0, 0)],
            r.terrain_indices() == seq![0u32],
            r.display() == (DisplayUniforms { width, height }),
            r.pending() == seq![
                GpuOp::UploadQuadBuffer,
                GpuOp::UploadTerrainVertexBuffer,
                GpuOp::UploadTerrainIndexBuffer,
                GpuOp::UpdateDisplayUniforms { width, height },
            ],
    {
        let mut quad_vertex_buffer: Vec<WorldCoords> = Vec::new();
        quad_vertex_buffer.push(WorldCoords(0, 0));
        quad_vertex_buffer.push(WorldCoords(1, 0));
        quad_vertex_buffer.push(WorldCoords(0, 1));
        quad_vertex_buffer.push(WorldCoords(1, 1));
        let mut terrain_vertex_buffer: Vec<WorldCoords> = Vec::new();
        terrain_vertex_buffer.push(WorldCoords(0, 0));
        let mut terrain_index_buffer: Vec<u32> = Vec::new();
        terrain_index_buffer.push(0);
        let mut sync = FrameSync::new();
        let token = sync.take();
        let token = token.extend(GpuOp::UploadQuadBuffer);
        let token = token.extend(GpuOp::UploadTerrainVertexBuffer);
        let token = token.extend(GpuOp::UploadTerrainIndexBuffer);
        sync.store(token);
        let mut r = Renderer {
            quad_vertex_buffer,
            terrain_vertex_buffer,
            terrain_index_buffer,
            display_uniforms: DisplayUniforms { width: 0, height: 0 },
            framebuffer_count,
            sync,
        };
        r.update_display_uniforms(width, height);
        proof {
            assert(r.quad() =~= unit_quad());
            assert(r.terrain_vertices() =~= seq![WorldCoords(0, 0)]);
            assert(r.terrain_indices() =~= seq![0u32]);
            assert(r.pending() =~= seq![
                GpuOp::UploadQuadBuffer,
                GpuOp::UploadTerrainVertexBuffer,
                GpuOp::UploadTerrainIndexBuffer,
                GpuOp::UpdateDisplayUniforms { width, height },
            ]);
        }
        r
    }

    /// Stages the tessellation of a new terrain outline: replaces both
    /// terrain buffers and extends the pending token with the two uploads,
    /// so the next draw waits on the transfer. A rejected outline leaves the
    /// engine untouched.
    pub fn load_terrain(&mut self, terrain: &TerrainMesh) -> (r: Result<(), TerrainError>)
        requires
            old(self).wf(),
        ensures
            final(self).wf(),
            !wf_mesh(terrain@) ==> r == Err::<(), TerrainError>(TerrainError::MalformedOutline)
                && *final(self) == *old(self),
            wf_mesh(terrain@) && terrain@.len() > RESTART ==> r == Err::<(), TerrainError>(
                TerrainError::TooManyVertices,
            ) && *final(self) == *old(self),
            wf_mesh(terrain@) && terrain@.len() <= RESTART ==> {
                &&& r is Ok
                &&& final(self).terrain_vertices() == coords_of(terrain@)
                &&& final(self).terrain_indices() == strip_indices(terrain@, 0)
                &&& final(self).pending() == old(self).pending().push(
                    GpuOp::UploadTerrainVertexBuffer,
                ).push(GpuOp::UploadTerrainIndexBuffer)
                &&& final(self).display() == old(self).display()
                &&& final(self).quad() == old(self).quad()
                &&& final(self).image_count() == old(self).image_count()
            },
    {
        if !terrain.is_well_formed() {
            return Err(TerrainError::MalformedOutline);
        }
        let vertices = terrain.mesh_vertices();
        match terrain.mesh_indices(0) {
            None => Err(TerrainError::TooManyVertices),
            Some(indices) => {
                self.terrain_vertex_buffer = vertices;
                self.terrain_index_buffer = indices;
                let token = self.sync.take();
                let token = token.extend(GpuOp::UploadTerrainVertexBuffer);
                let token = token.extend(GpuOp::UploadTerrainIndexBuffer);
                self.sync.store(token);
                Ok(())
            },
        }
    }

    /// Records the new viewport size in the display uniform block and
    /// extends the pending token with the uniform write, so the write lands
    /// before any draw submitted later reads it.
    pub fn update_display_uniforms(&mut self, width: u32, height: u32)
        requires
            old(self).wf(),
        ensures
            final(self).wf(),
            final(self).display() == (DisplayUniforms { width, height }),
            final(self).pending() == old(self).pending().push(
                GpuOp::UpdateDisplayUniforms { width, height },
            ),
            final(self).quad() == old(self).quad(),
            final(self).terrain_vertices() == old(self).terrain_vertices(),
            final(self).terrain_indices() == old(self).terrain_indices(),
            final(self).image_count() == old(self).image_count(),
    {
        self.display_uniforms = DisplayUniforms { width, height };
        let token = self.sync.take();
        self.sync.store(token.extend(GpuOp::UpdateDisplayUniforms { width, height }));
    }

    /// Produces one displayed frame from the acquisition outcome: on an
    /// acquired image it records the render pass (clear, sprite draws in
    /// list order, terrain draw last), joins the token with the acquisition,
    /// the submission and the scheduled presentation, and returns the
    /// submission; a timeout or an out-of-date surface is reported as the
    /// matching recoverable error and leaves the engine untouched.
    pub fn render(&mut self, sprites: &Vec<Sprite>, acquire: AcquireResult) -> (r: Result<
        FrameSubmission,
        RenderError,
    >)
        requires
            old(self).wf(),
            acquire matches AcquireResult::Image(image) ==> image < old(self).image_count(),
        ensures
            final(self).wf(),
            acquire == AcquireResult::Timeout ==> r == Err::<FrameSubmission, RenderError>(
                RenderError::AcquireTimeout,
            ) && *final(self) == *old(self),
            acquire == AcquireResult::OutOfDate ==> r == Err::<FrameSubmission, RenderError>(
                RenderError::SurfaceOutOfDate,
            ) && *final(self) == *old(self),
            acquire matches AcquireResult::Image(image) ==> {
                &&& r is Ok
                &&& (r->Ok_0).image == image
                &&& (r->Ok_0).display == old(self).display()
                &&& (r->Ok_0).commands@ == render_pass_commands(
                    sprites@,
                    old(self).terrain_indices().len() as usize,
                )
                &&& final(self).pending() == old(self).pending() + seq![
                    GpuOp::AcquireImage { image },
                    GpuOp::SubmitDraw { image, sprite_count: sprites@.len() as usize },
                    GpuOp::Present { image },
                ]
                &&& final(self).display() == old(self).display()
                &&& final(self).quad() == old(self).quad()
                &&& final(self).terrain_vertices() == old(self).terrain_vertices()
                &&& final(self).terrain_indices() == old(self).terrain_indices()
                &&& final(self).image_count() == old(self).image_count()
            },
    {
        let image = match acquire {
            AcquireResult::Timeout => {
                return Err(RenderError::AcquireTimeout);
            },
            AcquireResult::OutOfDate => {
                return Err(RenderError::SurfaceOutOfDate);
            },
            AcquireResult::Image(image) => image,
        };
        let mut commands: Vec<DrawCommand> = Vec::new();
        commands.push(DrawCommand::ClearBackground);
        let sprite_count = sprites.len();
        let mut k: usize = 0;
        while k < sprite_count
            invariant
                k <= sprite_count,
                sprite_count == sprites@.len(),
                commands@.len() == k + 1,
                commands@[0] == DrawCommand::ClearBackground,
                forall|j: int|
                    0 <= j < k ==> commands@[j + 1] == DrawCommand::DrawSprite(
                        sprite_uniforms_spec((#[trigger] sprites@[j]).rect),
                    ),
            decreases sprite_count - k,
        {
            commands.push(DrawCommand::DrawSprite(SpriteUniforms::from_rect(&sprites[k].rect)));
            k += 1;
        }
        commands.push(DrawCommand::DrawTerrain { index_count: self.terrain_index_buffer.len() });
        proof {
            assert(commands@ =~= render_pass_commands(
                sprites@,
                self.terrain_index_buffer@.len() as usize,
            ));
        }
        let token = self.sync.take();
        let token = token.extend(GpuOp::AcquireImage { image });
        let token = token.extend(GpuOp::SubmitDraw { image, sprite_count });
        let token = token.extend(GpuOp::Present { image });
        self.sync.store(token);
        proof {
            assert(self.pending() =~= old(self).pending() + seq![
                GpuOp::AcquireImage { image },
                GpuOp::SubmitDraw { image, sprite_count: sprites@.len() as usize },
                GpuOp::Present { image },
            ]);
        }
        Ok(FrameSubmission { image, commands, display: self.display_uniforms })
    }
}

} // verus!
