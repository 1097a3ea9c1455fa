use isogrid::SCALE;
use isogrid::grid::CellData;
use isogrid::grid::GridCoordinate;
use isogrid::grid::Point2;
use isogrid::grid::SurfaceGrid;
use isogrid::grid::SurfaceTransform;
use isogrid::picking::CameraState;
use isogrid::picking::PointerState;
use isogrid::picking::pick;

// A camera over viewport 9 with unit scale, centered on the origin, with a
// zero-sized viewport so that screen micro-pixels map one-to-one to world
// micro-units (y flipped).
fn unit_camera(id: u64) -> CameraState {
    CameraState {
        id,
        active: true,
        target: 9,
        order: 0,
        position: Point2 { x: 0, y: 0 },
        scale: SCALE,
        near: -1_000_000_000,
        viewport: Point2 { x: 0, y: 0 },
    }
}

// A 4x4 surface with 16x8-unit tiles and an identity placement at depth
// `tz`; every cell occupied, visible, with id = base + row * 4 + col.
fn filled_surface(base: u64, tz: i64, blocking: bool) -> SurfaceGrid {
    let t = SurfaceTransform { m00: SCALE, m01: 0, m10: 0, m11: SCALE, tx: 0, ty: 0, tz };
    let mut g = SurfaceGrid::new(4, 4, 16_000_000, 8_000_000, t);
    for row in 0..4u32 {
        for col in 0..4u32 {
            let id = base + (row * 4 + col) as u64;
            g.set_cell(GridCoordinate { col, row }, CellData { id, visible: true, blocking });
        }
    }
    g
}

// A pointer over viewport 9 whose unprojected, nudged world position lands
// exactly on the center of cell (2, 1) of a `filled_surface`: the center is
// local (8, 12), so the pointer needs world (8, 16) before the (0, -4) nudge.
fn pointer_on_cell_2_1(id: u64) -> PointerState {
    PointerState { id, target: 9, position: Some(Point2 { x: 8_000_000, y: -16_000_000 }) }
}

#[test]
fn single_surface_hit() {
    let pointers = vec![pointer_on_cell_2_1(5)];
    let cameras = vec![unit_camera(1)];
    let surfaces = vec![filled_surface(100, 0, false)];
    let out = pick(&pointers, &cameras, &surfaces);
    assert_eq!(out.len(), 1);
    assert_eq!(out[0].pointer, 5);
    assert_eq!(out[0].order, 0);
    assert_eq!(out[0].hits.len(), 1);
    let hit = out[0].hits[0];
    assert_eq!(hit.cell, 100 + 4 + 2);
    assert_eq!(hit.camera, 1);
    assert_eq!(hit.pointer, 5);
    // depth = -near - tz = 1000 world units.
    assert_eq!(hit.depth, 1_000_000_000);
}

#[test]
fn blocking_cell_occludes_farther_surface() {
    let pointers = vec![pointer_on_cell_2_1(5)];
    let cameras = vec![unit_camera(1)];
    let near = filled_surface(100, 0, true);
    let far = filled_surface(200, -5_000_000, false);
    let out = pick(&pointers, &cameras, &vec![near, far]);
    assert_eq!(out.len(), 1);
    assert_eq!(out[0].hits.len(), 1);
    assert_eq!(out[0].hits[0].cell, 106);
}

#[test]
fn non_blocking_cell_lets_both_surfaces_hit() {
    let pointers = vec![pointer_on_cell_2_1(5)];
    let cameras = vec![unit_camera(1)];
    let near = filled_surface(100, 0, false);
    let far = filled_surface(200, -5_000_000, false);
    let out = pick(&pointers, &cameras, &vec![near, far]);
    assert_eq!(out.len(), 1);
    assert_eq!(out[0].hits.len(), 2);
    assert_eq!(out[0].hits[0].cell, 106);
    assert_eq!(out[0].hits[0].depth, 1_000_000_000);
    assert_eq!(out[0].hits[1].cell, 206);
    assert_eq!(out[0].hits[1].depth, 1_005_000_000);
}

#[test]
fn pointer_with_no_matching_camera_yields_nothing() {
    let mut cam = unit_camera(1);
    cam.target = 7;
    let pointers = vec![pointer_on_cell_2_1(5)];
    let out = pick(&pointers, &vec![cam], &vec![filled_surface(100, 0, false)]);
    assert!(out.is_empty());
}

#[test]
fn inactive_camera_is_skipped() {
    let mut cam = unit_camera(1);
    cam.active = false;
    let pointers = vec![pointer_on_cell_2_1(5)];
    let out = pick(&pointers, &vec![cam], &vec![filled_surface(100, 0, false)]);
    assert!(out.is_empty());
}

#[test]
fn first_matching_active_camera_serves_the_pointer() {
    let mut inactive = unit_camera(1);
    inactive.active = false;
    let mut second = unit_camera(2);
    second.order = 3;
    let pointers = vec![pointer_on_cell_2_1(5)];
    let out = pick(&pointers, &vec![inactive, second], &vec![filled_surface(100, 0, false)]);
    assert_eq!(out.len(), 1);
    assert_eq!(out[0].order, 3);
    assert_eq!(out[0].hits[0].camera, 2);
}

#[test]
fn pointer_without_position_is_skipped() {
    let pointers = vec![PointerState { id: 5, target: 9, position: None }];
    let cameras = vec![unit_camera(1)];
    let out = pick(&pointers, &cameras, &vec![filled_surface(100, 0, false)]);
    assert!(out.is_empty());
}

#[test]
fn invisible_cell_is_no_hit_but_does_not_block() {
    let mut near = filled_surface(100, 0, true);
    near.set_cell(GridCoordinate { col: 2, row: 1 }, CellData { id: 106, visible: false, blocking: true });
    let far = filled_surface(200, -5_000_000, false);
    let pointers = vec![pointer_on_cell_2_1(5)];
    let cameras = vec![unit_camera(1)];
    let out = pick(&pointers, &cameras, &vec![near, far]);
    assert_eq!(out.len(), 1);
    assert_eq!(out[0].hits.len(), 1);
    assert_eq!(out[0].hits[0].cell, 206);
}

#[test]
fn invisible_surface_is_skipped() {
    let mut near = filled_surface(100, 0, true);
    near.visible = false;
    let far = filled_surface(200, -5_000_000, false);
    let pointers = vec![pointer_on_cell_2_1(5)];
    let cameras = vec![unit_camera(1)];
    let out = pick(&pointers, &cameras, &vec![near, far]);
    assert_eq!(out.len(), 1);
    assert_eq!(out[0].hits.len(), 1);
    assert_eq!(out[0].hits[0].cell, 206);
}

#[test]
fn pointer_missing_every_cell_yields_empty_hit_list() {
    // World position far outside the 4x4 diamond still emits an entry for
    // the pointer, with an empty hit list.
    let pointers = vec![PointerState {
        id: 5,
        target: 9,
        position: Some(Point2 { x: 500_000_000, y: -16_000_000 }),
    }];
    let cameras = vec![unit_camera(1)];
    let out = pick(&pointers, &cameras, &vec![filled_surface(100, 0, false)]);
    assert_eq!(out.len(), 1);
    assert_eq!(out[0].pointer, 5);
    assert!(out[0].hits.is_empty());
}

#[test]
fn two_pointers_are_independent() {
    let pointers = vec![pointer_on_cell_2_1(5), PointerState { id: 6, target: 9, position: None }];
    let cameras = vec![unit_camera(1)];
    let out = pick(&pointers, &cameras, &vec![filled_surface(100, 0, false)]);
    assert_eq!(out.len(), 1);
    assert_eq!(out[0].pointer, 5);
}
