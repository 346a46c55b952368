use platformer::terrain::{TerrainMesh, TerrainVertex, RESTART};
use platformer::ty::WorldCoords;

fn scenario_outline() -> Vec<TerrainVertex> {
    vec![
        TerrainVertex::Inner(WorldCoords(0, 0)),
        TerrainVertex::Surface(WorldCoords(0, 100)),
        TerrainVertex::Surface(WorldCoords(100, 200)),
        TerrainVertex::Inner(WorldCoords(100, 0)),
        TerrainVertex::Surface(WorldCoords(150, 450)),
        TerrainVertex::Surface(WorldCoords(350, 150)),
        TerrainVertex::Inner(WorldCoords(350, 0)),
        TerrainVertex::Surface(WorldCoords(450, 550)),
        TerrainVertex::Inner(WorldCoords(450, 0)),
    ]
}

fn scenario_indices() -> Vec<u32> {
    let r = RESTART;
    vec![0, 1, 2, 0, 3, r, 2, 3, 4, 5, 3, 6, r, 5, 6, 7, 8, r, 7, r]
}

#[test]
fn tessellates_scenario_outline() {
    let mesh = TerrainMesh::new(scenario_outline());
    assert_eq!(mesh.mesh_indices(0).unwrap(), scenario_indices());
}

#[test]
fn positions_preserve_input_order() {
    let mesh = TerrainMesh::new(scenario_outline());
    let expected = vec![
        WorldCoords(0, 0),
        WorldCoords(0, 100),
        WorldCoords(100, 200),
        WorldCoords(100, 0),
        WorldCoords(150, 450),
        WorldCoords(350, 150),
        WorldCoords(350, 0),
        WorldCoords(450, 550),
        WorldCoords(450, 0),
    ];
    assert_eq!(mesh.mesh_vertices(), expected);
}

#[test]
fn index_stream_ends_with_single_restart() {
    let mesh = TerrainMesh::new(scenario_outline());
    let indices = mesh.mesh_indices(0).unwrap();
    assert_eq!(*indices.last().unwrap(), RESTART);
    assert_ne!(indices[indices.len() - 2], RESTART);
}

#[test]
fn anchor_only_outline_yields_bare_restart() {
    let mesh = TerrainMesh::new(vec![TerrainVertex::Inner(WorldCoords(7, 7))]);
    assert_eq!(mesh.mesh_indices(0).unwrap(), vec![RESTART]);
}

#[test]
fn single_fan_segment() {
    let mesh = TerrainMesh::new(vec![
        TerrainVertex::Inner(WorldCoords(0, 0)),
        TerrainVertex::Surface(WorldCoords(1, 0)),
        TerrainVertex::Surface(WorldCoords(2, 0)),
    ]);
    assert_eq!(mesh.mesh_indices(0).unwrap(), vec![0, 1, 2, RESTART]);
}

#[test]
fn offset_shifts_every_index() {
    let mesh = TerrainMesh::new(vec![
        TerrainVertex::Inner(WorldCoords(0, 0)),
        TerrainVertex::Surface(WorldCoords(1, 0)),
        TerrainVertex::Surface(WorldCoords(2, 0)),
    ]);
    assert_eq!(mesh.mesh_indices(10).unwrap(), vec![10, 11, 12, RESTART]);
}

#[test]
fn rejects_empty_outline() {
    let mesh = TerrainMesh::new(Vec::new());
    assert!(!mesh.is_well_formed());
    assert!(mesh.mesh_indices(0).is_none());
}

#[test]
fn rejects_surface_first_outline() {
    let mesh = TerrainMesh::new(vec![
        TerrainVertex::Surface(WorldCoords(0, 0)),
        TerrainVertex::Inner(WorldCoords(1, 1)),
    ]);
    assert!(!mesh.is_well_formed());
    assert!(mesh.mesh_indices(0).is_none());
}

#[test]
fn rejects_adjacent_anchors() {
    let mesh = TerrainMesh::new(vec![
        TerrainVertex::Inner(WorldCoords(0, 0)),
        TerrainVertex::Inner(WorldCoords(1, 1)),
    ]);
    assert!(!mesh.is_well_formed());
    assert!(mesh.mesh_indices(0).is_none());
}

#[test]
fn accepts_scenario_outline() {
    assert!(TerrainMesh::new(scenario_outline()).is_well_formed());
}

#[test]
fn coords_strip_the_tag() {
    assert_eq!(TerrainVertex::Surface(WorldCoords(3, 4)).coords(), WorldCoords(3, 4));
    assert_eq!(TerrainVertex::Inner(WorldCoords(-5, 6)).coords(), WorldCoords(-5, 6));
}

#[test]
fn scenario_segments_match_anchor_runs() {
    // the scenario has four anchors; splitting on the sentinel must yield
    // one piece per anchor plus the empty final piece, and every piece must
    // stay within its own fan run extended by one shared vertex per side
    let indices = TerrainMesh::new(scenario_outline()).mesh_indices(0).unwrap();
    let mut pieces: Vec<Vec<u32>> = vec![Vec::new()];
    for &v in indices.iter() {
        if v == RESTART {
            pieces.push(Vec::new());
        } else {
            pieces.last_mut().unwrap().push(v);
        }
    }
    assert_eq!(pieces.len(), 5);
    assert!(pieces[4].is_empty());
    let anchors = [0u32, 3, 6, 8];
    let input_len = 9u32;
    for k in 0..4 {
        let lo = if k == 0 { anchors[0] } else { anchors[k] - 1 };
        let hi = if k + 1 < 4 { anchors[k + 1] } else { input_len - 1 };
        for &v in pieces[k].iter() {
            assert!(lo <= v && v <= hi);
        }
    }
}
