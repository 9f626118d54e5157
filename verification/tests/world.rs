use capsule_wanderer::controls::{movement_intent, next_orbit_step, orbit_direction, MoveIntent};
use capsule_wanderer::drag::{bounds_visible, DragState, DropOutcome};
use capsule_wanderer::grid::{cells_overlap, drop_base, valid_placement, Cell2, Obstacle};

const OBJECT_HEIGHT: i64 = 62;
const WORKBENCH_HEIGHT: i64 = 72;

fn object(cell: Cell2, footprint: Cell2) -> Obstacle {
    Obstacle { cell, footprint, base: 0, height: OBJECT_HEIGHT, stackable: true }
}

fn stacked(cell: Cell2, footprint: Cell2, base: i64) -> Obstacle {
    Obstacle { cell, footprint, base, height: OBJECT_HEIGHT, stackable: true }
}

fn workbench() -> Obstacle {
    Obstacle {
        cell: Cell2::new(48, 48),
        footprint: Cell2::new(4, 4),
        base: 0,
        height: WORKBENCH_HEIGHT,
        stackable: false,
    }
}

#[test]
fn placement_rejects_out_of_bounds_and_overlapping_objects() {
    assert!(valid_placement(Cell2::new(0, 0), Cell2::new(2, 2), &[]));
    assert!(!valid_placement(Cell2::new(79, 79), Cell2::new(2, 2), &[]));
    assert!(!valid_placement(
        Cell2::new(10, 10),
        Cell2::new(2, 2),
        &[object(Cell2::new(11, 10), Cell2::new(2, 2))]
    ));
    assert!(valid_placement(
        Cell2::new(10, 10),
        Cell2::new(2, 2),
        &[object(Cell2::new(12, 10), Cell2::new(2, 2))]
    ));
}

#[test]
fn placement_edges_and_overlap() {
    assert!(valid_placement(Cell2::new(78, 78), Cell2::new(2, 2), &[]));
    assert!(!valid_placement(Cell2::new(-1, 0), Cell2::new(2, 2), &[]));
    assert!(!valid_placement(Cell2::new(0, 79), Cell2::new(2, 2), &[]));
    assert!(cells_overlap(Cell2::new(1, 1), Cell2::new(2, 2), Cell2::new(2, 2), Cell2::new(2, 2)));
    assert!(cells_overlap(Cell2::new(2, 2), Cell2::new(2, 2), Cell2::new(1, 1), Cell2::new(2, 2)));
    assert!(!cells_overlap(Cell2::new(0, 0), Cell2::new(2, 2), Cell2::new(0, 2), Cell2::new(2, 2)));
    assert!(!cells_overlap(
        Cell2::new(i32::MAX, 0),
        Cell2::new(i32::MAX, 1),
        Cell2::new(0, 0),
        Cell2::new(1, 1)
    ));
    // The Workbench (4 by 4 at 48, 48) blocks a drop onto its corner.
    assert!(!valid_placement(
        Cell2::new(51, 51),
        Cell2::new(2, 2),
        &[object(Cell2::new(37, 37), Cell2::new(2, 2)), workbench()]
    ));
}

#[test]
fn orbit_steps_wrap_and_ease_without_repeating_while_held() {
    for (e, q) in [(false, true), (true, false)] {
        let mut step = 0;
        for press in 1..=8 {
            step = next_orbit_step(step, e, q);
            let expected = if e { press % 8 } else { (8 - press % 8) % 8 };
            assert_eq!(step, expected);
        }
        assert_eq!(step, 0);
    }
}

#[test]
fn movement_uses_new_angle_on_rotation_frame_and_opposite_orbits_cancel() {
    assert_eq!(orbit_direction(true, false), 1);
    let step = next_orbit_step(0, true, false);
    assert_eq!(step, 1);
    assert_eq!(orbit_direction(true, true), 0);
    assert_eq!(next_orbit_step(step, true, true), 1);
    assert_eq!(next_orbit_step(next_orbit_step(step, true, false), false, true), 1);
}

#[test]
fn orbit_step_wraps_from_any_start() {
    assert_eq!(next_orbit_step(7, true, false), 0);
    assert_eq!(next_orbit_step(0, false, true), 7);
    assert_eq!(next_orbit_step(-3, false, false), 5);
    assert_eq!(next_orbit_step(i32::MAX, true, false), 0);
    assert_eq!(next_orbit_step(i32::MIN, false, true), 7);
}

#[test]
fn opposing_inputs_cancel_and_releasing_stops_motion() {
    assert_eq!(movement_intent(true, true, true, true), MoveIntent { forward: 0, right: 0 });
    assert_eq!(movement_intent(false, false, false, false), MoveIntent { forward: 0, right: 0 });
    assert_eq!(movement_intent(true, false, false, true), MoveIntent { forward: 1, right: 1 });
    assert_eq!(movement_intent(false, true, true, false), MoveIntent { forward: -1, right: -1 });
}

#[test]
fn click_pick_move_and_click_drop_updates_the_real_drag_state() {
    let mut drag = DragState::new();
    assert!(drag.pick_allowed(false, true));
    assert!(!drag.pick_allowed(true, true));
    drag.pick(42, Cell2::new(39, 39), 0);
    assert_eq!(drag.entity, Some(42));
    assert!(!drag.pick_allowed(false, true));
    drag.move_preview(Cell2::new(39, 39), Cell2::new(2, 2), &[]);
    // The picking click does not drop.
    assert_eq!(drag.click(true, true), DropOutcome::Idle);
    assert_eq!(drag.entity, Some(42));

    drag.move_preview(Cell2::new(45, 39), Cell2::new(2, 2), &[workbench()]);
    assert!(drag.valid);
    assert_eq!(drag.click(false, true), DropOutcome::Idle);
    let moved = drag.current_cell;
    assert_ne!(moved, Cell2::new(39, 39));
    assert_eq!(drag.click(true, true), DropOutcome::Placed { entity: 42, cell: moved, base: 0 });
    assert_eq!(drag.entity, None);
}

#[test]
fn refused_drop_returns_the_object() {
    let mut drag = DragState::new();
    drag.pick(5, Cell2::new(10, 10), 62);
    assert_eq!(drag.click(true, true), DropOutcome::Idle);
    drag.move_preview(Cell2::new(47, 47), Cell2::new(2, 2), &[workbench()]);
    assert!(!drag.valid);
    assert_eq!(
        drag.click(true, true),
        DropOutcome::Returned { entity: 5, cell: Cell2::new(10, 10), base: 62 }
    );
    assert_eq!(drag.click(true, true), DropOutcome::Idle);

    drag.pick(6, Cell2::new(1, 1), 0);
    drag.click(false, true);
    assert_eq!(drag.click(true, false), DropOutcome::Released { entity: 6 });
    assert_eq!(drag.entity, None);
}

#[test]
fn objects_stack_on_a_fully_supporting_object() {
    let two = Cell2::new(2, 2);
    let support = object(Cell2::new(20, 20), two);
    // Same footprint: stacked on the support's top.
    assert!(valid_placement(Cell2::new(20, 20), two, &[support]));
    assert_eq!(drop_base(Cell2::new(20, 20), two, &[support]), OBJECT_HEIGHT);
    // A smaller object on a larger one.
    let big = object(Cell2::new(30, 30), Cell2::new(4, 4));
    assert!(valid_placement(Cell2::new(31, 31), two, &[big]));
    // Hanging over the edge: not supported.
    assert!(!valid_placement(Cell2::new(21, 20), two, &[support]));
    // Onto the top of a stack: rests on the higher object.
    let upper = stacked(Cell2::new(20, 20), two, OBJECT_HEIGHT);
    assert!(valid_placement(Cell2::new(20, 20), two, &[support, upper]));
    assert_eq!(drop_base(Cell2::new(20, 20), two, &[support, upper]), 2 * OBJECT_HEIGHT);
    // Beside a taller neighbour that the footprint overlaps: refused.
    let tall = Obstacle { cell: Cell2::new(22, 20), footprint: two, base: 0, height: 100, stackable: true };
    assert!(!valid_placement(Cell2::new(21, 20), two, &[object(Cell2::new(20, 20), Cell2::new(4, 2)), tall]));
    // The Workbench is no support.
    assert!(!valid_placement(Cell2::new(48, 48), two, &[workbench()]));
    assert_eq!(drop_base(Cell2::new(48, 48), two, &[workbench()]), WORKBENCH_HEIGHT);
    // Free ground rests at zero.
    assert_eq!(drop_base(Cell2::new(0, 0), two, &[support, workbench()]), 0);
}

#[test]
fn drag_onto_an_object_stacks_it() {
    let mut drag = DragState::new();
    drag.pick(9, Cell2::new(10, 10), 0);
    assert_eq!(drag.click(false, true), DropOutcome::Idle);
    let support = object(Cell2::new(20, 20), Cell2::new(2, 2));
    drag.move_preview(Cell2::new(20, 20), Cell2::new(2, 2), &[support]);
    assert!(drag.valid);
    assert_eq!(drag.current_base, OBJECT_HEIGHT);
    assert_eq!(
        drag.click(true, true),
        DropOutcome::Placed { entity: 9, cell: Cell2::new(20, 20), base: OBJECT_HEIGHT }
    );
}

#[test]
fn bounds_show_while_hovered_or_dragged() {
    assert!(bounds_visible(3, Some(3), None));
    assert!(bounds_visible(3, None, Some(3)));
    assert!(!bounds_visible(3, Some(4), Some(5)));
    assert!(!bounds_visible(3, None, None));
}
