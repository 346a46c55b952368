use platformer::renderer::{AcquireResult, DrawCommand, Renderer, RenderError, TerrainError};
use platformer::sprite::Sprite;
use platformer::sync::GpuOp;
use platformer::terrain::{TerrainMesh, TerrainVertex, RESTART};
use platformer::ty::{WorldBounds, WorldCoords, WorldRect};
use platformer::uniforms::{DisplayUniforms, SpriteUniforms};

fn scenario_outline() -> Vec<TerrainVertex> {
    vec![
        TerrainVertex::Inner(WorldCoords(0, 0)),
        TerrainVertex::Surface(WorldCoords(0, 100)),
        TerrainVertex::Surface(WorldCoords(100, 200)),
        TerrainVertex::Inner(WorldCoords(100, 0)),
        TerrainVertex::Surface(WorldCoords(150, 450)),
        TerrainVertex::Surface(WorldCoords(350, 150)),
        TerrainVertex::Inner(WorldCoords(350, 0)),
        TerrainVertex::Surface(WorldCoords(450, 550)),
        TerrainVertex::Inner(WorldCoords(450, 0)),
    ]
}

fn two_sprites() -> Vec<Sprite> {
    vec![
        Sprite::new(WorldRect {
            position: WorldCoords(600, 200),
            bounds: WorldBounds(700, 600),
        }),
        Sprite::new(WorldRect {
            position: WorldCoords(300, 800),
            bounds: WorldBounds(200, 300),
        }),
    ]
}

#[test]
fn engine_initial_state() {
    let r = Renderer::new(3, 640, 480);
    assert_eq!(r.display_value(), DisplayUniforms { width: 640, height: 480 });
    assert_eq!(*r.terrain_vertex_data(), vec![WorldCoords(0, 0)]);
    assert_eq!(*r.terrain_index_data(), vec![0]);
    assert_eq!(
        *r.pending_ops(),
        vec![
            GpuOp::UploadQuadBuffer,
            GpuOp::UploadTerrainVertexBuffer,
            GpuOp::UploadTerrainIndexBuffer,
            GpuOp::UpdateDisplayUniforms { width: 640, height: 480 },
        ]
    );
}

#[test]
fn load_terrain_stages_scenario_buffers() {
    let mut r = Renderer::new(2, 640, 480);
    let before = r.pending_ops().len();
    let sentinel = RESTART;
    assert_eq!(r.load_terrain(&TerrainMesh::new(scenario_outline())), Ok(()));
    assert_eq!(
        *r.terrain_index_data(),
        vec![
            0, 1, 2, 0, 3, sentinel, 2, 3, 4, 5, 3, 6, sentinel, 5, 6, 7, 8, sentinel, 7,
            sentinel
        ]
    );
    assert_eq!(r.terrain_vertex_data().len(), 9);
    assert_eq!(r.terrain_vertex_data()[0], WorldCoords(0, 0));
    assert_eq!(r.terrain_vertex_data()[8], WorldCoords(450, 0));
    let ops = r.pending_ops();
    assert_eq!(ops.len(), before + 2);
    assert_eq!(ops[before], GpuOp::UploadTerrainVertexBuffer);
    assert_eq!(ops[before + 1], GpuOp::UploadTerrainIndexBuffer);
}

#[test]
fn load_terrain_rejects_malformed_outline() {
    let mut r = Renderer::new(2, 640, 480);
    let before = r.pending_ops().clone();
    let bad = TerrainMesh::new(vec![TerrainVertex::Surface(WorldCoords(0, 0))]);
    assert_eq!(r.load_terrain(&bad), Err(TerrainError::MalformedOutline));
    assert_eq!(*r.terrain_index_data(), vec![0]);
    assert_eq!(*r.pending_ops(), before);
}

#[test]
fn resize_reaches_next_frame_uniforms() {
    // the display-uniform update must be visible to the next submission,
    // and its write must be ordered before the draw that reads it
    let mut r = Renderer::new(2, 640, 480);
    r.update_display_uniforms(800, 600);
    assert_eq!(r.display_value(), DisplayUniforms { width: 800, height: 600 });
    let sub = r.render(&two_sprites(), AcquireResult::Image(0)).unwrap();
    assert_eq!(sub.display, DisplayUniforms { width: 800, height: 600 });
    let ops = r.pending_ops();
    let update_at = ops
        .iter()
        .position(|op| *op == GpuOp::UpdateDisplayUniforms { width: 800, height: 600 })
        .unwrap();
    let submit_at = ops
        .iter()
        .position(|op| matches!(op, GpuOp::SubmitDraw { .. }))
        .unwrap();
    assert!(update_at < submit_at);
}

#[test]
fn render_orders_sprites_then_terrain() {
    let mut r = Renderer::new(2, 640, 480);
    let sprites = two_sprites();
    let sub = r.render(&sprites, AcquireResult::Image(1)).unwrap();
    assert_eq!(sub.image, 1);
    assert_eq!(sub.commands.len(), 4);
    assert_eq!(sub.commands[0], DrawCommand::ClearBackground);
    assert_eq!(
        sub.commands[1],
        DrawCommand::DrawSprite(SpriteUniforms {
            pos_x: 600,
            pos_y: 200,
            width: 700,
            height: 600,
        })
    );
    assert_eq!(
        sub.commands[2],
        DrawCommand::DrawSprite(SpriteUniforms {
            pos_x: 300,
            pos_y: 800,
            width: 200,
            height: 300,
        })
    );
    assert_eq!(sub.commands[3], DrawCommand::DrawTerrain { index_count: 1 });
    let ops = r.pending_ops();
    let n = ops.len();
    assert_eq!(ops[n - 3], GpuOp::AcquireImage { image: 1 });
    assert_eq!(ops[n - 2], GpuOp::SubmitDraw { image: 1, sprite_count: 2 });
    assert_eq!(ops[n - 1], GpuOp::Present { image: 1 });
}

#[test]
fn render_timeout_is_recoverable() {
    let mut r = Renderer::new(2, 640, 480);
    let before = r.pending_ops().clone();
    let out = r.render(&two_sprites(), AcquireResult::Timeout);
    assert_eq!(out.unwrap_err(), RenderError::AcquireTimeout);
    assert_eq!(*r.pending_ops(), before);
    assert_eq!(r.display_value(), DisplayUniforms { width: 640, height: 480 });
}

#[test]
fn render_out_of_date_is_recoverable() {
    let mut r = Renderer::new(2, 640, 480);
    let before = r.pending_ops().clone();
    let out = r.render(&two_sprites(), AcquireResult::OutOfDate);
    assert_eq!(out.unwrap_err(), RenderError::SurfaceOutOfDate);
    assert_eq!(*r.pending_ops(), before);
}

#[test]
fn sprite_keeps_its_rect() {
    let rect = WorldRect {
        position: WorldCoords(600, 200),
        bounds: WorldBounds(700, 600),
    };
    let sprite = Sprite::new(rect);
    assert_eq!(sprite.rect, rect);
}
