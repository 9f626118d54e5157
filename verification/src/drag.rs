//! Picking up, previewing and dropping Placeable Objects.
use vstd::prelude::*;
use crate::grid::{
    Cell2, Obstacle, drop_base, placement_allowed, resting_height, top_fits, valid_placement,
};

verus! {

/// The drag in progress, if any. Entities are named by their 64-bit identifiers.
#[derive(Clone, Copy, Debug, PartialEq, Eq, Structural)]
pub struct DragState {
    /// The dragged object.
    pub entity: Option<u64>,
    /// The cell that the object was picked up from.
    pub origin_cell: Cell2,
    /// The height of the object's base where it was picked up (hundredths of a world unit).
    pub origin_base: i64,
    /// The cell under the cursor, where the Object Preview stands.
    pub current_cell: Cell2,
    /// The height at which the preview comes to rest there (hundredths of a world unit).
    pub current_base: i64,
    /// Dropping at `current_cell` is allowed (green preview).
    pub valid: bool,
    /// The click that picked the object up is still being handled; it must not drop it.
    pub just_picked: bool,
}

/// What a click did to the drag.
#[derive(Clone, Copy, Debug, PartialEq, Eq, Structural)]
pub enum DropOutcome {
    /// Nothing was dropped.
    Idle,
    /// The dragged object no longer exists; the drag is over.
    Released { entity: u64 },
    /// The object was dropped onto its preview cell, which becomes its cell; its base
    /// rests at `base`.
    Placed { entity: u64, cell: Cell2, base: i64 },
    /// The drop was refused: the object goes back to the cell and base height it was
    /// picked up from.
    Returned { entity: u64, cell: Cell2, base: i64 },
}

/// The state with no drag.
pub open spec fn initial_drag() -> DragState {
    DragState {
        entity: None,
        origin_cell: Cell2 { x: 0, y: 0 },
        origin_base: 0,
        current_cell: Cell2 { x: 0, y: 0 },
        current_base: 0,
        valid: false,
        just_picked: false,
    }
}

/// The drag after an object at `cell`, with its base at height `base`, was picked up.
pub open spec fn after_pick(s: DragState, entity: u64, cell: Cell2, base: i64) -> DragState {
    DragState {
        entity: Some(entity),
        origin_cell: cell,
        origin_base: base,
        current_cell: cell,
        current_base: base,
        valid: true,
        just_picked: true,
    }
}

/// The drag after the preview moved to `candidate`, where it rests at height `base` and
/// dropping is `valid` or not.
pub open spec fn after_move(s: DragState, candidate: Cell2, base: int, valid: bool) -> DragState {
    DragState { current_cell: candidate, current_base: base as i64, valid, ..s }
}

/// The drag after a frame with or without a left click; `present` says whether the
/// dragged object still exists.
pub open spec fn after_click(s: DragState, clicked: bool, present: bool) -> (DragState, DropOutcome) {
    if s.just_picked {
        (DragState { just_picked: false, ..s }, DropOutcome::Idle)
    } else if !clicked {
        (s, DropOutcome::Idle)
    } else {
        match s.entity {
            None => (s, DropOutcome::Idle),
            Some(e) => if !present {
                (DragState { entity: None, ..s }, DropOutcome::Released { entity: e })
            } else if s.valid {
                (
                    DragState { entity: None, ..s },
                    DropOutcome::Placed { entity: e, cell: s.current_cell, base: s.current_base },
                )
            } else {
                (
                    DragState { entity: None, ..s },
                    DropOutcome::Returned { entity: e, cell: s.origin_cell, base: s.origin_base },
                )
            },
        }
    }
}

impl DragState {
    pub fn new() -> (s: DragState)
        ensures
            s == initial_drag(),
    {
        DragState {
            entity: None,
            origin_cell: Cell2 { x: 0, y: 0 },
            origin_base: 0,
            current_cell: Cell2 { x: 0, y: 0 },
            current_base: 0,
            valid: false,
            just_picked: false,
        }
    }

    /// A left click may pick an object up: not in Creation Mode and nothing dragged yet.
    pub fn pick_allowed(&self, creation_active: bool, clicked: bool) -> (b: bool)
        ensures
            b == (!creation_active && clicked && self.entity is None),
    {
        !creation_active && clicked && self.entity.is_none()
    }

    /// Starts dragging the object `entity`, which stands at `cell` with its base at
    /// height `base`.
    pub fn pick(&mut self, entity: u64, cell: Cell2, base: i64)
        ensures
            *final(self) == after_pick(*old(self), entity, cell, base),
    {
        self.entity = Some(entity);
        self.origin_cell = cell;
        self.origin_base = base;
        self.current_cell = cell;
        self.current_base = base;
        self.valid = true;
        self.just_picked = true;
    }

    /// Moves the preview of the dragged object (of size `footprint`) to `candidate`, where
    /// it rests on the highest of `other_objects` below it (or the ground), and checks the
    /// drop there.
    pub fn move_preview(&mut self, candidate: Cell2, footprint: Cell2, other_objects: &[Obstacle])
        requires
            forall|i: int| 0 <= i < other_objects@.len() ==> top_fits(#[trigger] other_objects@[i]),
        ensures
            *final(self) == after_move(
                *old(self),
                candidate,
                resting_height(candidate, footprint, other_objects@),
                placement_allowed(candidate, footprint, other_objects@),
            ),
    {
        let base = drop_base(candidate, footprint, other_objects);
        let valid = valid_placement(candidate, footprint, other_objects);
        self.current_cell = candidate;
        self.current_base = base;
        self.valid = valid;
    }

    /// Handles a frame of the drop system: a left click drops the dragged object, except
    /// on the frame of the click that picked it up.
    pub fn click(&mut self, clicked: bool, present: bool) -> (r: DropOutcome)
        ensures
            (*final(self), r) == after_click(*old(self), clicked, present),
    {
        if self.just_picked {
            self.just_picked = false;
            return DropOutcome::Idle;
        }
        if !clicked {
            return DropOutcome::Idle;
        }
        let entity = match self.entity {
            Some(e) => e,
            None => {
                return DropOutcome::Idle;
            },
        };
        self.entity = None;
        if !present {
            DropOutcome::Released { entity }
        } else if self.valid {
            DropOutcome::Placed { entity, cell: self.current_cell, base: self.current_base }
        } else {
            DropOutcome::Returned { entity, cell: self.origin_cell, base: self.origin_base }
        }
    }
}

/// The click that picks an object up never drops it: on that frame the drag keeps its
/// object, preview cell and validity.
pub proof fn lemma_pick_click_does_not_drop(
    s: DragState,
    entity: u64,
    cell: Cell2,
    base: i64,
    present: bool,
)
    ensures
        ({
            let (t, out) = after_click(after_pick(s, entity, cell, base), true, present);
            &&& out == DropOutcome::Idle
            &&& t.entity == Some(entity)
            &&& t.current_cell == cell
            &&& t.current_base == base
            &&& t.valid
            &&& !t.just_picked
        }),
{
}

/// A drop commits the object only onto an allowed placement (free ground, or the top of
/// an object that fully supports it, among the objects given to the last preview move),
/// with its base at the resting height there; a refused drop sends it back to the cell
/// and height it was picked up from. Either way the drag ends.
pub proof fn lemma_drop_respects_placement(
    s: DragState,
    candidate: Cell2,
    footprint: Cell2,
    others: Seq<Obstacle>,
)
    requires
        s.entity is Some,
        !s.just_picked,
        forall|i: int| 0 <= i < others.len() ==> top_fits(#[trigger] others[i]),
    ensures
        ({
            let rest = resting_height(candidate, footprint, others);
            let moved = after_move(s, candidate, rest, placement_allowed(candidate, footprint, others));
            let (t, out) = after_click(moved, true, true);
            &&& t.entity is None
            &&& placement_allowed(candidate, footprint, others) ==> out == DropOutcome::Placed {
                entity: s.entity.unwrap(),
                cell: candidate,
                base: rest as i64,
            }
            &&& !placement_allowed(candidate, footprint, others) ==> out == DropOutcome::Returned {
                entity: s.entity.unwrap(),
                cell: s.origin_cell,
                base: s.origin_base,
            }
        }),
{
}

/// An object's bounds are shown while it is hovered or dragged.
pub fn bounds_visible(entity: u64, hovered: Option<u64>, dragged: Option<u64>) -> (b: bool)
    ensures
        b == (hovered == Some(entity) || dragged == Some(entity)),
{
    let h = match hovered {
        Some(e) => e == entity,
        None => false,
    };
    let d = match dragged {
        Some(e) => e == entity,
        None => false,
    };
    h || d
}

} // verus!
