use capsule_wanderer::connectivity::{builder_has_neighbor, removal_keeps_cubes_connected};
use capsule_wanderer::crafting::{crafted_dimensions, rounded_placement_cells, voxel_bounds};
use capsule_wanderer::creation::{builder_target, hover_marker, BuilderHit, BuilderTarget, BuilderVisualCache, CreationState, BUILDER_CAPACITY};
use capsule_wanderer::grid::Cell2;
use capsule_wanderer::voxel::{
    builder_cell_in_bounds, offset_cell, Cell3, VoxelSet, BUILDER_CELLS_PER_AXIS,
    BUILDER_MAX_HEIGHT_CELLS,
};

const CELL_SIZE: f32 = 0.25;
const BUILDER_CELL_SIZE: f32 = 0.25;

fn set_of(cells: &[Cell3]) -> VoxelSet {
    VoxelSet::from_cells(cells)
}

fn splat(v: i32) -> Cell3 {
    Cell3::new(v, v, v)
}

#[test]
fn crafted_dimensions_round_a_single_voxel_to_one_placement_cell() {
    let cubes = set_of(&[Cell3::new(2, 1, 3)]);
    let dims = crafted_dimensions(&cubes).unwrap();
    assert_eq!(dims.minimum, Cell3::new(2, 1, 3));
    assert_eq!(dims.maximum, dims.minimum);
    assert_eq!(dims.footprint, Cell2::new(1, 1));
    assert_eq!(dims.height_cells as f32 * CELL_SIZE, CELL_SIZE);
}

#[test]
fn builder_allows_face_attachment_and_keeps_volume_bounded() {
    let cubes = set_of(&[Cell3::new(2, 2, 2)]);
    assert!(builder_has_neighbor(&cubes, Cell3::new(2, 2, 3)));
    assert!(builder_cell_in_bounds(splat(0)));
    assert!(builder_cell_in_bounds(splat(BUILDER_CELLS_PER_AXIS - 1)));
    assert!(!builder_cell_in_bounds(splat(BUILDER_CELLS_PER_AXIS)));
}

#[test]
fn builder_height_is_capped_at_fifty_voxel_cubes() {
    let cubes = set_of(&[splat(0), Cell3::new(0, BUILDER_MAX_HEIGHT_CELLS - 1, 0)]);
    let dims = crafted_dimensions(&cubes).unwrap();
    assert_eq!(
        dims.height_cells as f32 * CELL_SIZE,
        BUILDER_MAX_HEIGHT_CELLS as f32 * BUILDER_CELL_SIZE
    );
    assert!(builder_cell_in_bounds(Cell3::new(0, BUILDER_MAX_HEIGHT_CELLS - 1, 0)));
    assert!(!builder_cell_in_bounds(Cell3::new(0, BUILDER_MAX_HEIGHT_CELLS, 0)));
}

#[test]
fn builder_removal_preserves_floor_connectivity() {
    let cubes = set_of(&[Cell3::new(0, 0, 0), Cell3::new(0, 1, 0), Cell3::new(3, 0, 0)]);
    assert!(!removal_keeps_cubes_connected(&cubes, splat(0)));
    assert!(removal_keeps_cubes_connected(&cubes, Cell3::new(0, 1, 0)));
}

#[test]
fn removal_of_a_bridge_between_towers_is_refused() {
    // Two floor towers joined at height 2 by a bridge; a cube hangs on the bridge.
    let cubes = set_of(&[
        Cell3::new(0, 0, 0),
        Cell3::new(0, 1, 0),
        Cell3::new(0, 2, 0),
        Cell3::new(1, 2, 0),
        Cell3::new(2, 2, 0),
        Cell3::new(2, 1, 0),
        Cell3::new(2, 0, 0),
        Cell3::new(1, 3, 0),
    ]);
    // The bridge stays held by either tower.
    assert!(removal_keeps_cubes_connected(&cubes, Cell3::new(0, 1, 0)));
    // The hanging cube only hangs on the bridge middle.
    assert!(!removal_keeps_cubes_connected(&cubes, Cell3::new(1, 2, 0)));
    // Removing a cell that is not there checks the whole structure.
    assert!(removal_keeps_cubes_connected(&cubes, Cell3::new(3, 3, 3)));
}

#[test]
fn removal_in_an_empty_or_floating_structure() {
    let empty = VoxelSet::new();
    assert!(removal_keeps_cubes_connected(&empty, splat(0)));
    let single = set_of(&[splat(0)]);
    assert!(removal_keeps_cubes_connected(&single, splat(0)));
    let floating = set_of(&[Cell3::new(1, 3, 1)]);
    assert!(!removal_keeps_cubes_connected(&floating, splat(0)));
    let extreme = set_of(&[Cell3::new(i32::MAX, 0, 0), Cell3::new(i32::MIN, 1, 0)]);
    assert!(!removal_keeps_cubes_connected(&extreme, splat(0)));
}

#[test]
fn neighbours_are_face_neighbours_only() {
    let cubes = set_of(&[Cell3::new(2, 2, 2)]);
    assert!(builder_has_neighbor(&cubes, Cell3::new(1, 2, 2)));
    assert!(builder_has_neighbor(&cubes, Cell3::new(2, 3, 2)));
    assert!(!builder_has_neighbor(&cubes, Cell3::new(3, 3, 2)));
    assert!(!builder_has_neighbor(&cubes, Cell3::new(2, 2, 2)));
    assert!(!builder_has_neighbor(&cubes, Cell3::new(2, 2, 4)));
    assert_eq!(offset_cell(Cell3::new(i32::MAX, 0, 0), 1, 0, 0), None);
    assert_eq!(offset_cell(Cell3::new(1, 0, 0), -1, 0, 0), Some(splat(0)));
}

#[test]
fn voxel_set_holds_each_cell_once() {
    let mut cubes = set_of(&[splat(1), splat(1), splat(2)]);
    assert_eq!(cubes.len(), 2);
    assert!(!cubes.insert(splat(2)));
    assert!(cubes.insert(splat(3)));
    assert_eq!(cubes.len(), 3);
    assert!(cubes.remove(splat(1)));
    assert!(!cubes.remove(splat(1)));
    assert!(!cubes.contains(splat(1)));
    assert!(cubes.contains(splat(3)));
    cubes.clear();
    assert!(cubes.is_empty());
}

#[test]
fn bounds_and_dimensions_of_a_shape() {
    let cubes = set_of(&[Cell3::new(1, 0, 2), Cell3::new(3, 4, 0), Cell3::new(2, 1, 1)]);
    assert_eq!(voxel_bounds(&cubes), Some((Cell3::new(1, 0, 0), Cell3::new(3, 4, 2))));
    let dims = crafted_dimensions(&cubes).unwrap();
    assert_eq!(dims.footprint, Cell2::new(3, 3));
    assert_eq!(dims.height_cells, 5);
    assert_eq!(voxel_bounds(&VoxelSet::new()), None);
    assert!(crafted_dimensions(&VoxelSet::new()).is_none());
    assert_eq!(rounded_placement_cells(4), 4);
    assert_eq!(rounded_placement_cells(0), 0);
    assert_eq!(rounded_placement_cells(-3), -3);
}

#[test]
fn targets_follow_the_hit_face_or_floor() {
    let cubes = set_of(&[Cell3::new(1, 0, 1)]);
    let on_top = BuilderHit::Cube { cell: Cell3::new(1, 0, 1), normal: Cell3::new(0, 1, 0) };
    assert_eq!(
        builder_target(on_top, &cubes, false),
        Some(BuilderTarget { cell: Cell3::new(1, 1, 1), existing: false, valid: true })
    );
    assert_eq!(
        builder_target(on_top, &cubes, true),
        Some(BuilderTarget { cell: Cell3::new(1, 0, 1), existing: true, valid: true })
    );
    let off_side = BuilderHit::Cube { cell: Cell3::new(0, 0, 0), normal: Cell3::new(-1, 0, 0) };
    let cubes_at_edge = set_of(&[splat(0)]);
    assert_eq!(
        builder_target(off_side, &cubes_at_edge, false),
        Some(BuilderTarget { cell: Cell3::new(-1, 0, 0), existing: false, valid: false })
    );
    assert_eq!(
        builder_target(BuilderHit::Floor { x: 1, z: 1 }, &cubes, false),
        Some(BuilderTarget { cell: Cell3::new(1, 0, 1), existing: false, valid: false })
    );
    assert_eq!(
        builder_target(BuilderHit::Floor { x: 2, z: 3 }, &cubes, true),
        Some(BuilderTarget { cell: Cell3::new(2, 0, 3), existing: false, valid: true })
    );
    assert_eq!(builder_target(BuilderHit::Nothing, &cubes, false), None);
}

#[test]
fn creation_mode_adds_removes_and_finishes() {
    let mut creation = CreationState::new();
    assert!(!creation.begin_allowed(true, true));
    assert!(!creation.begin_allowed(false, false));
    assert!(creation.begin_allowed(false, true));
    creation.begin(7);
    assert!(creation.is_active());
    assert_eq!(creation.workbench(), Some(7));
    assert_eq!(creation.revision(), 1);

    creation.hover(BuilderHit::Floor { x: 0, z: 0 }, true);
    assert_eq!(creation.hovered(), Some(splat(0)));
    assert!(creation.hover_valid());
    assert_eq!(creation.revision(), 2);
    let top = BuilderHit::Cube { cell: splat(0), normal: Cell3::new(0, 1, 0) };
    creation.hover(top, true);
    assert_eq!(creation.cubes().len(), 2);
    // Hovering without clicking adds nothing.
    creation.hover(BuilderHit::Cube { cell: Cell3::new(0, 1, 0), normal: Cell3::new(0, 1, 0) }, false);
    assert_eq!(creation.cubes().len(), 2);
    assert_eq!(hover_marker(&creation), Some(Cell3::new(0, 2, 0)));
    creation.hover(BuilderHit::Floor { x: 9, z: 0 }, false);
    assert!(!creation.hover_valid());
    assert_eq!(hover_marker(&creation), None);

    // The floor cube holds the upper one: it stays.
    creation.remove_hit(BuilderHit::Cube { cell: splat(0), normal: Cell3::new(0, 1, 0) });
    assert_eq!(creation.cubes().len(), 2);
    // The upper cube can go.
    creation.remove_hit(BuilderHit::Cube { cell: Cell3::new(0, 1, 0), normal: Cell3::new(1, 0, 0) });
    assert_eq!(creation.cubes().len(), 1);
    assert_eq!(creation.revision(), 4);

    let (dims, cubes) = creation.finish().unwrap();
    assert_eq!(dims.footprint, Cell2::new(1, 1));
    assert_eq!(dims.height_cells, 1);
    assert!(cubes.contains(splat(0)));
    assert!(!creation.is_active());
    assert_eq!(creation.workbench(), None);
    assert!(creation.cubes().is_empty());
    assert_eq!(creation.hovered(), None);
    assert!(creation.finish().is_none());
}

#[test]
fn cancelling_drops_the_cubes() {
    let mut creation = CreationState::new();
    creation.begin(3);
    creation.hover(BuilderHit::Floor { x: 2, z: 2 }, true);
    creation.cursor_lost();
    assert_eq!(creation.hovered(), None);
    creation.cancel();
    assert!(!creation.is_active());
    assert!(creation.cubes().is_empty());
    assert_eq!(creation.revision(), 3);
    assert!(creation.finish().is_none());
}

#[test]
fn builder_visuals_rebuild_only_on_change() {
    let mut creation = CreationState::new();
    let mut cache = BuilderVisualCache::new();
    assert!(cache.scene_changed(&creation));
    cache.record(&creation);
    assert!(!cache.scene_changed(&creation));
    creation.begin(1);
    assert!(cache.scene_changed(&creation));
    cache.record(&creation);
    creation.hover(BuilderHit::Floor { x: 1, z: 1 }, false);
    assert!(!cache.scene_changed(&creation));
    creation.hover(BuilderHit::Floor { x: 1, z: 1 }, true);
    assert!(cache.scene_changed(&creation));
    assert_eq!(BUILDER_CAPACITY, BUILDER_CELLS_PER_AXIS * BUILDER_CELLS_PER_AXIS * BUILDER_MAX_HEIGHT_CELLS);
}

#[test]
fn shifted_cubes_keep_footprint_and_height() {
    let shape = [Cell3::new(1, 0, 2), Cell3::new(3, 4, 0), Cell3::new(2, 1, 1)];
    let moved: Vec<Cell3> = shape.iter().map(|c| Cell3::new(c.x + 5, c.y - 2, c.z + 7)).collect();
    let a = crafted_dimensions(&set_of(&shape)).unwrap();
    let b = crafted_dimensions(&set_of(&moved)).unwrap();
    assert_eq!(b.minimum, Cell3::new(a.minimum.x + 5, a.minimum.y - 2, a.minimum.z + 7));
    assert_eq!(b.maximum, Cell3::new(a.maximum.x + 5, a.maximum.y - 2, a.maximum.z + 7));
    assert_eq!(b.footprint, a.footprint);
    assert_eq!(b.height_cells, a.height_cells);
}

#[test]
fn a_full_builder_volume_holds_800_cubes() {
    let mut creation = CreationState::new();
    creation.begin(1);
    for y in 0..BUILDER_MAX_HEIGHT_CELLS {
        for z in 0..BUILDER_CELLS_PER_AXIS {
            for x in 0..BUILDER_CELLS_PER_AXIS {
                let hit = if y == 0 {
                    BuilderHit::Floor { x, z }
                } else {
                    BuilderHit::Cube { cell: Cell3::new(x, y - 1, z), normal: Cell3::new(0, 1, 0) }
                };
                creation.hover(hit, true);
            }
        }
    }
    assert_eq!(creation.cubes().len() as i32, BUILDER_CAPACITY);
    // Nothing more fits.
    creation.hover(BuilderHit::Cube { cell: Cell3::new(0, 49, 0), normal: Cell3::new(0, 1, 0) }, true);
    assert!(!creation.hover_valid());
    assert_eq!(creation.cubes().len() as i32, BUILDER_CAPACITY);
}
