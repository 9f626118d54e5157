//! Creation Mode: assembling Voxel Cubes on the Workbench.
use vstd::prelude::*;
use crate::connectivity::{
    builder_has_neighbor, floor_connected, grounded, lemma_extend_grounded,
    lemma_floor_grounded, lemma_grounded_insert, on_floor, removal_keeps_cubes_connected,
};
use crate::crafting::{CraftedDimensions, are_bounds, crafted_dimensions, dimensions_for, extents_fit};
use crate::voxel::{
    BUILDER_CELLS_PER_AXIS, BUILDER_MAX_HEIGHT_CELLS, Cell3, VoxelSet, builder_cell_in_bounds,
    face_adjacent, in_builder_volume,
};

verus! {

/// Voxel Cubes that the Builder Volume can hold.
pub const BUILDER_CAPACITY: i32 = 800;

/// What the cursor ray meets in the Builder Volume.
#[derive(Clone, Copy, Debug, PartialEq, Eq, Structural)]
pub enum BuilderHit {
    /// The nearest cube, and the outward unit normal of the face that was hit.
    Cube { cell: Cell3, normal: Cell3 },
    /// The builder floor, at column `x`, `z` of the lowest layer.
    Floor { x: i32, z: i32 },
    /// Neither a cube nor the floor.
    Nothing,
}

/// The cell that a click would add or remove.
#[derive(Clone, Copy, Debug, PartialEq, Eq, Structural)]
pub struct BuilderTarget {
    pub cell: Cell3,
    /// The cell holds a cube already (a removal target).
    pub existing: bool,
    /// A cube may be added there (or, for an existing cube, it may be picked).
    pub valid: bool,
}

/// `n` is one of the six unit face normals.
pub open spec fn unit_normal(n: Cell3) -> bool {
    crate::voxel::abs(n.x as int) + crate::voxel::abs(n.y as int) + crate::voxel::abs(n.z as int)
        == 1
}

/// A cube hit can be turned into a target: it names a cube of `cubes`, its normal is a
/// unit face normal and the cell beyond that face has 32-bit coordinates.
pub open spec fn hit_well_formed(hit: BuilderHit, cubes: Set<Cell3>) -> bool {
    match hit {
        BuilderHit::Cube { cell, normal } => {
            &&& cubes.contains(cell)
            &&& unit_normal(normal)
            &&& i32::MIN <= cell.x + normal.x <= i32::MAX
            &&& i32::MIN <= cell.y + normal.y <= i32::MAX
            &&& i32::MIN <= cell.z + normal.z <= i32::MAX
        },
        _ => true,
    }
}

/// The cell beyond the face of `cell` whose normal is `normal`.
pub open spec fn beyond(cell: Cell3, normal: Cell3) -> Cell3 {
    Cell3 {
        x: (cell.x + normal.x) as i32,
        y: (cell.y + normal.y) as i32,
        z: (cell.z + normal.z) as i32,
    }
}

/// A new cube may go at `c`: inside the Builder Volume, not taken, and on the floor or
/// sharing a face with a cube.
pub open spec fn attach_allowed(cubes: Set<Cell3>, c: Cell3) -> bool {
    &&& in_builder_volume(c)
    &&& !cubes.contains(c)
    &&& (c.y == 0 || exists|n: Cell3| cubes.contains(n) && #[trigger] face_adjacent(c, n))
}

/// The target of a click on `hit`, for adding (`remove` false) or for removing a cube.
pub open spec fn target_of(hit: BuilderHit, cubes: Set<Cell3>, remove: bool) -> Option<
    BuilderTarget,
> {
    match hit {
        BuilderHit::Cube { cell, normal } => if remove {
            Some(BuilderTarget { cell, existing: true, valid: true })
        } else {
            Some(
                BuilderTarget {
                    cell: beyond(cell, normal),
                    existing: false,
                    valid: attach_allowed(cubes, beyond(cell, normal)),
                },
            )
        },
        BuilderHit::Floor { x, z } => {
            let c = Cell3 { x, y: 0, z };
            Some(
                BuilderTarget {
                    cell: c,
                    existing: false,
                    valid: in_builder_volume(c) && !cubes.contains(c),
                },
            )
        },
        BuilderHit::Nothing => None,
    }
}

/// The Builder Cell that a click on `hit` targets, and whether the click may act there.
/// A cube hit targets the cube itself when removing, else the cell beyond the hit face;
/// a floor hit targets the floor cell.
pub fn builder_target(hit: BuilderHit, cubes: &VoxelSet, remove: bool) -> (r: Option<BuilderTarget>)
    requires
        hit_well_formed(hit, cubes@),
    ensures
        r == target_of(hit, cubes@, remove),
        r matches Some(t) ==> (t.existing ==> remove && t.valid && cubes@.contains(t.cell)),
        r matches Some(t) ==> (!t.existing && t.valid ==> attach_allowed(cubes@, t.cell)),
        ({
            match hit {
                BuilderHit::Cube { cell, normal } => r matches Some(t) && (if remove {
                    t.cell == cell && t.existing
                } else {
                    t.cell.x == cell.x + normal.x && t.cell.y == cell.y + normal.y && t.cell.z
                        == cell.z + normal.z && !t.existing && face_adjacent(cell, t.cell)
                }),
                BuilderHit::Floor { x, z } => r matches Some(t) && t.cell.x == x && t.cell.y == 0
                    && t.cell.z == z && !t.existing,
                BuilderHit::Nothing => r is None,
            }
        }),
{
    proof {
        lemma_targets_follow_hits(hit, cubes@, remove);
    }
    match hit {
        BuilderHit::Cube { cell, normal } => {
            if remove {
                return Some(BuilderTarget { cell, existing: true, valid: true });
            }
            let candidate = Cell3 {
                x: cell.x + normal.x,
                y: cell.y + normal.y,
                z: cell.z + normal.z,
            };
            let valid = builder_cell_in_bounds(candidate) && !cubes.contains(candidate) && (
            candidate.y == 0 || builder_has_neighbor(cubes, candidate));
            Some(BuilderTarget { cell: candidate, existing: false, valid })
        },
        BuilderHit::Floor { x, z } => {
            let candidate = Cell3 { x, y: 0, z };
            let valid = builder_cell_in_bounds(candidate) && !cubes.contains(candidate);
            Some(BuilderTarget { cell: candidate, existing: false, valid })
        },
        BuilderHit::Nothing => None,
    }
}

/// Where a click lands: removing targets the hit cube itself; adding targets the cell
/// beyond the hit face (face-adjacent to the hit cube, never the cube itself), or the
/// floor cell under the cursor; with no hit there is no target. A new cell is valid
/// exactly when it lies in the Builder Volume, is free, and is on the floor or shares a
/// face with a cube.
pub proof fn lemma_targets_follow_hits(hit: BuilderHit, cubes: Set<Cell3>, remove: bool)
    requires
        hit_well_formed(hit, cubes),
    ensures
        ({
            let r = target_of(hit, cubes, remove);
            match hit {
                BuilderHit::Cube { cell, normal } => r matches Some(t) && (if remove {
                    t.cell == cell && t.existing && t.valid && cubes.contains(t.cell)
                } else {
                    &&& t.cell.x == cell.x + normal.x
                    &&& t.cell.y == cell.y + normal.y
                    &&& t.cell.z == cell.z + normal.z
                    &&& face_adjacent(cell, t.cell)
                    &&& t.cell != cell
                    &&& !t.existing
                    &&& t.valid == (in_builder_volume(t.cell) && !cubes.contains(t.cell) && (
                    t.cell.y == 0 || exists|n: Cell3| cubes.contains(n) && #[trigger] face_adjacent(t.cell, n)))
                }),
                BuilderHit::Floor { x, z } => r matches Some(t) && t.cell.x == x && t.cell.y == 0
                    && t.cell.z == z && !t.existing && t.valid == (in_builder_volume(t.cell)
                    && !cubes.contains(t.cell)),
                BuilderHit::Nothing => r is None,
            }
        }),
{
}

/// A right click on a cube removes exactly that cube, and counts one change, whenever the
/// remaining cubes stay face-connected to the floor; otherwise nothing changes. A click
/// that hits no cube changes nothing.
pub proof fn lemma_removal_effect(v: CreationView, hit: BuilderHit)
    requires
        hit_well_formed(hit, v.cubes),
    ensures
        ({
            let w = after_removal(v, hit);
            match hit {
                BuilderHit::Cube { cell, normal } => if floor_connected(v.cubes.remove(cell)) {
                    &&& w.cubes == v.cubes.remove(cell)
                    &&& !w.cubes.contains(cell)
                    &&& w.revision == v.revision.wrapping_add(1)
                    &&& w.active == v.active
                    &&& w.workbench == v.workbench
                    &&& w.hovered == v.hovered
                } else {
                    w == v
                },
                _ => w == v,
            }
        }),
{
}

/// The abstract state of Creation Mode.
pub ghost struct CreationView {
    pub active: bool,
    pub workbench: Option<u64>,
    pub cubes: Set<Cell3>,
    pub hovered: Option<Cell3>,
    pub hover_valid: bool,
    pub revision: u64,
}

/// What holds of every Creation Mode state: the cubes lie in the Builder Volume and are
/// face-connected to the floor; a Workbench is chosen exactly while the mode is active;
/// outside the mode there are no cubes.
pub open spec fn creation_invariant(v: CreationView) -> bool {
    &&& v.cubes.finite()
    &&& forall|c: Cell3| #[trigger] v.cubes.contains(c) ==> in_builder_volume(c)
    &&& floor_connected(v.cubes)
    &&& v.active == v.workbench is Some
    &&& !v.active ==> v.cubes == Set::<Cell3>::empty()
}

/// The state before any Workbench is used.
pub open spec fn initial_creation() -> CreationView {
    CreationView {
        active: false,
        workbench: None,
        cubes: Set::empty(),
        hovered: None,
        hover_valid: false,
        revision: 0,
    }
}

/// Creation Mode opens on `workbench` with no cubes.
pub open spec fn after_begin(v: CreationView, workbench: u64) -> CreationView {
    CreationView {
        active: true,
        workbench: Some(workbench),
        cubes: Set::empty(),
        hovered: None,
        hover_valid: false,
        revision: v.revision.wrapping_add(1),
    }
}

/// Creation Mode closes and drops its cubes (the hover validity flag is left as it was).
pub open spec fn after_cancel(v: CreationView) -> CreationView {
    CreationView {
        active: false,
        workbench: None,
        cubes: Set::empty(),
        hovered: None,
        revision: v.revision.wrapping_add(1),
        ..v
    }
}

/// The cursor left the window: nothing is hovered.
pub open spec fn after_cursor_lost(v: CreationView) -> CreationView {
    CreationView { hovered: None, ..v }
}

/// The hovered target is recorded; with `place`, a valid new cell receives a cube.
pub open spec fn after_hover(v: CreationView, hit: BuilderHit, place: bool) -> CreationView {
    let t = target_of(hit, v.cubes, false);
    let hovered = match t {
        Some(t) => Some(t.cell),
        None => None,
    };
    let hover_valid = t matches Some(t) && t.valid;
    if place && (t matches Some(t) && t.valid && !t.existing) {
        CreationView {
            hovered,
            hover_valid,
            cubes: v.cubes.insert(t.unwrap().cell),
            revision: v.revision.wrapping_add(1),
            ..v
        }
    } else {
        CreationView { hovered, hover_valid, ..v }
    }
}

/// An existing cube under the cursor is removed when the remaining cubes stay
/// face-connected to the floor.
pub open spec fn after_removal(v: CreationView, hit: BuilderHit) -> CreationView {
    let t = target_of(hit, v.cubes, true);
    if t matches Some(t) && t.existing && floor_connected(v.cubes.remove(t.cell)) {
        CreationView {
            cubes: v.cubes.remove(t.unwrap().cell),
            revision: v.revision.wrapping_add(1),
            ..v
        }
    } else {
        v
    }
}

/// Finishing closes Creation Mode and drops the cubes from the Workbench.
pub open spec fn after_finish(v: CreationView) -> CreationView {
    CreationView {
        active: false,
        workbench: None,
        cubes: Set::empty(),
        hovered: None,
        revision: v.revision.wrapping_add(1),
        ..v
    }
}

/// Adding a floor cell, or a cell sharing a face with a cube, keeps the cubes
/// face-connected to the floor.
pub proof fn lemma_attach_keeps_floor_connected(s: Set<Cell3>, c: Cell3)
    requires
        floor_connected(s),
        on_floor(c) || exists|n: Cell3| s.contains(n) && #[trigger] face_adjacent(c, n),
    ensures
        floor_connected(s.insert(c)),
{
    let t = s.insert(c);
    assert forall|x: Cell3| t.contains(x) implies #[trigger] grounded(t, x) by {
        if x == c {
            if on_floor(c) {
                lemma_floor_grounded(t, c);
            } else {
                let n = choose|n: Cell3| s.contains(n) && #[trigger] face_adjacent(c, n);
                assert(grounded(s, n));
                lemma_grounded_insert(s, c, n);
                assert(face_adjacent(n, c));
                lemma_extend_grounded(t, n, c);
            }
        } else {
            assert(grounded(s, x));
            lemma_grounded_insert(s, c, x);
        }
    }
}

/// Every Creation Mode step keeps the creation invariant: cubes stay inside the Builder
/// Volume and face-connected to the floor, whatever is clicked.
pub proof fn lemma_steps_keep_invariant(v: CreationView, hit: BuilderHit, place: bool, workbench: u64)
    requires
        creation_invariant(v),
        hit_well_formed(hit, v.cubes),
    ensures
        !v.active ==> creation_invariant(after_begin(v, workbench)),
        creation_invariant(after_cancel(v)),
        creation_invariant(after_cursor_lost(v)),
        v.active ==> creation_invariant(after_hover(v, hit, place)),
        creation_invariant(after_removal(v, hit)),
        creation_invariant(after_finish(v)),
{
    assert(floor_connected(Set::<Cell3>::empty()));
    assert(Set::<Cell3>::empty().finite());
    let t = target_of(hit, v.cubes, false);
    if v.active && place && (t matches Some(t) && t.valid && !t.existing) {
        let c = t.unwrap().cell;
        lemma_attach_keeps_floor_connected(v.cubes, c);
    }
    let r = target_of(hit, v.cubes, true);
    if r matches Some(r) && r.existing {
        let c = r.unwrap().cell;
        if !v.active {
            assert(v.cubes.remove(c) =~= Set::<Cell3>::empty());
        }
    }
}

/// The Creation Mode state.
pub struct CreationState {
    active: bool,
    workbench: Option<u64>,
    cubes: VoxelSet,
    hovered: Option<Cell3>,
    hover_valid: bool,
    revision: u64,
}

impl View for CreationState {
    type V = CreationView;

    closed spec fn view(&self) -> CreationView {
        CreationView {
            active: self.active,
            workbench: self.workbench,
            cubes: self.cubes@,
            hovered: self.hovered,
            hover_valid: self.hover_valid,
            revision: self.revision,
        }
    }
}

impl CreationState {
    pub closed spec fn wf(&self) -> bool {
        &&& self.cubes.wf()
        &&& creation_invariant(self@)
    }

    pub fn new() -> (s: CreationState)
        ensures
            s.wf(),
            s@ == initial_creation(),
    {
        let s = CreationState {
            active: false,
            workbench: None,
            cubes: VoxelSet::new(),
            hovered: None,
            hover_valid: false,
            revision: 0,
        };
        assert(floor_connected(s.cubes@));
        s
    }

    pub fn is_active(&self) -> (b: bool)
        ensures
            b == self@.active,
    {
        self.active
    }

    pub fn workbench(&self) -> (w: Option<u64>)
        ensures
            w == self@.workbench,
    {
        self.workbench
    }

    pub fn cubes(&self) -> (c: &VoxelSet)
        requires
            self.wf(),
        ensures
            c.wf(),
            c@ == self@.cubes,
            c@.len() <= BUILDER_CAPACITY,
    {
        proof {
            lemma_cube_count_bounded(self@);
        }
        &self.cubes
    }

    pub fn hovered(&self) -> (h: Option<Cell3>)
        ensures
            h == self@.hovered,
    {
        self.hovered
    }

    pub fn hover_valid(&self) -> (b: bool)
        ensures
            b == self@.hover_valid,
    {
        self.hover_valid
    }

    pub fn revision(&self) -> (r: u64)
        ensures
            r == self@.revision,
    {
        self.revision
    }

    /// A right click may open Creation Mode: the mode is closed and no object is dragged.
    pub fn begin_allowed(&self, dragging: bool, right_clicked: bool) -> (b: bool)
        ensures
            b == (!self@.active && !dragging && right_clicked),
    {
        !self.active && !dragging && right_clicked
    }

    /// Opens Creation Mode on the Workbench that was clicked.
    pub fn begin(&mut self, workbench: u64)
        requires
            old(self).wf(),
            !old(self)@.active,
        ensures
            final(self).wf(),
            final(self)@ == after_begin(old(self)@, workbench),
    {
        self.active = true;
        self.workbench = Some(workbench);
        self.cubes.clear();
        self.hovered = None;
        self.hover_valid = false;
        self.revision = self.revision.wrapping_add(1);
        assert(floor_connected(self.cubes@));
    }

    /// Leaves Creation Mode without making an object.
    pub fn cancel(&mut self)
        requires
            old(self).wf(),
        ensures
            final(self).wf(),
            final(self)@ == after_cancel(old(self)@),
    {
        self.active = false;
        self.workbench = None;
        self.cubes.clear();
        self.hovered = None;
        self.revision = self.revision.wrapping_add(1);
        assert(floor_connected(self.cubes@));
    }

    /// The cursor is off the window.
    pub fn cursor_lost(&mut self)
        requires
            old(self).wf(),
        ensures
            final(self).wf(),
            final(self)@ == after_cursor_lost(old(self)@),
    {
        self.hovered = None;
    }

    /// Records the hovered target and, on a left click, adds a cube at a valid new cell.
    pub fn hover(&mut self, hit: BuilderHit, place: bool)
        requires
            old(self).wf(),
            old(self)@.active,
            hit_well_formed(hit, old(self)@.cubes),
        ensures
            final(self).wf(),
            final(self)@ == after_hover(old(self)@, hit, place),
    {
        proof {
            lemma_steps_keep_invariant(self@, hit, place, 0);
        }
        let target = builder_target(hit, &self.cubes, false);
        self.hovered = match target {
            Some(t) => Some(t.cell),
            None => None,
        };
        self.hover_valid = match target {
            Some(t) => t.valid,
            None => false,
        };
        if place {
            if let Some(t) = target {
                if t.valid && !t.existing {
                    self.cubes.insert(t.cell);
                    self.revision = self.revision.wrapping_add(1);
                }
            }
        }
    }

    /// On a right click, removes the existing cube under the cursor when the remaining
    /// cubes stay face-connected to the floor.
    pub fn remove_hit(&mut self, hit: BuilderHit)
        requires
            old(self).wf(),
            hit_well_formed(hit, old(self)@.cubes),
        ensures
            final(self).wf(),
            final(self)@ == after_removal(old(self)@, hit),
            ({
                match hit {
                    BuilderHit::Cube { cell, normal } => if floor_connected(
                        old(self)@.cubes.remove(cell),
                    ) {
                        final(self)@.cubes == old(self)@.cubes.remove(cell) && final(self)@.revision
                            == old(self)@.revision.wrapping_add(1)
                    } else {
                        final(self)@ == old(self)@
                    },
                    _ => final(self)@ == old(self)@,
                }
            }),
    {
        proof {
            lemma_steps_keep_invariant(self@, hit, false, 0);
            lemma_removal_effect(self@, hit);
        }
        if let Some(t) = builder_target(hit, &self.cubes, true) {
            if t.existing && removal_keeps_cubes_connected(&self.cubes, t.cell) {
                self.cubes.remove(t.cell);
                self.revision = self.revision.wrapping_add(1);
            }
        }
    }

    /// Finishes the object: when the mode is active and holds cubes, gives the object's
    /// dimensions and its cubes, and leaves Creation Mode.
    pub fn finish(&mut self) -> (r: Option<(CraftedDimensions, VoxelSet)>)
        requires
            old(self).wf(),
        ensures
            final(self).wf(),
            !old(self)@.active || old(self)@.cubes == Set::<Cell3>::empty() ==> r is None
                && final(self)@ == old(self)@,
            old(self)@.active && old(self)@.cubes != Set::<Cell3>::empty() ==> r is Some
                && final(self)@ == after_finish(old(self)@),
            r matches Some((d, cubes)) ==> cubes.wf() && cubes@ == old(self)@.cubes && are_bounds(
                cubes@,
                d.minimum,
                d.maximum,
            ) && d == dimensions_for(d.minimum, d.maximum),
    {
        if !self.active || self.cubes.is_empty() {
            return None;
        }
        proof {
            lemma_steps_keep_invariant(self@, BuilderHit::Nothing, false, 0);
            assert forall|a: Cell3, b: Cell3|
                #![trigger self.cubes@.contains(a), self.cubes@.contains(b)]
                self.cubes@.contains(a) && self.cubes@.contains(b) implies b.x - a.x < i32::MAX
                && b.y - a.y < i32::MAX && b.z - a.z < i32::MAX by {
                assert(in_builder_volume(a) && in_builder_volume(b));
            }
            assert(extents_fit(self.cubes@));
        }
        let cubes = self.cubes.clone_set();
        let dimensions = crafted_dimensions(&cubes);
        match dimensions {
            Some(d) => {
                self.active = false;
                self.workbench = None;
                self.cubes.clear();
                self.hovered = None;
                self.revision = self.revision.wrapping_add(1);
                assert(floor_connected(self.cubes@));
                Some((d, cubes))
            },
            None => None,
        }
    }
}

/// The rendering cache of the builder scene: the creation state that the cube visuals
/// were last drawn from.
pub struct BuilderVisualCache {
    pub active: bool,
    pub workbench: Option<u64>,
    pub revision: u64,
    pub initialized: bool,
}

/// The cube visuals drawn from the state noted in `cache` are out of date for `v`.
pub open spec fn rebuild_needed(cache: BuilderVisualCache, v: CreationView) -> bool {
    !cache.initialized || cache.active != v.active || cache.workbench != v.workbench
        || cache.revision != v.revision
}

impl BuilderVisualCache {
    pub fn new() -> (c: BuilderVisualCache)
        ensures
            !c.initialized,
            !c.active,
            c.workbench is None,
            c.revision == 0,
    {
        BuilderVisualCache { active: false, workbench: None, revision: 0, initialized: false }
    }

    /// The cube visuals must be rebuilt: nothing was drawn yet, or the mode, the
    /// Workbench or the cubes changed since.
    pub fn scene_changed(&self, creation: &CreationState) -> (b: bool)
        ensures
            b == rebuild_needed(*self, creation@),
    {
        !self.initialized || self.active != creation.is_active() || !same_workbench(
            self.workbench,
            creation.workbench(),
        ) || self.revision != creation.revision()
    }

    /// Notes the creation state that the visuals now show.
    pub fn record(&mut self, creation: &CreationState)
        ensures
            final(self).initialized,
            final(self).active == creation@.active,
            final(self).workbench == creation@.workbench,
            final(self).revision == creation@.revision,
            !rebuild_needed(*final(self), creation@),
    {
        self.active = creation.is_active();
        self.workbench = creation.workbench();
        self.revision = creation.revision();
        self.initialized = true;
    }
}

/// Every step that changes the cubes is drawn: once the visuals show a state, a step
/// that changes its cubes makes them out of date.
pub proof fn lemma_cube_changes_are_redrawn(
    cache: BuilderVisualCache,
    v: CreationView,
    hit: BuilderHit,
    workbench: u64,
)
    requires
        !rebuild_needed(cache, v),
    ensures
        after_hover(v, hit, true).cubes != v.cubes ==> rebuild_needed(cache, after_hover(v, hit, true)),
        after_removal(v, hit).cubes != v.cubes ==> rebuild_needed(cache, after_removal(v, hit)),
        rebuild_needed(cache, after_begin(v, workbench)),
        rebuild_needed(cache, after_cancel(v)),
        rebuild_needed(cache, after_finish(v)),
{
    assert(v.revision.wrapping_add(1) != v.revision);
}

fn same_workbench(a: Option<u64>, b: Option<u64>) -> (r: bool)
    ensures
        r == (a == b),
{
    match (a, b) {
        (Some(x), Some(y)) => x == y,
        (None, None) => true,
        _ => false,
    }
}

/// The hovered cell, when it lies inside the Builder Volume (where a hover marker is drawn).
pub fn hover_marker(creation: &CreationState) -> (r: Option<Cell3>)
    ensures
        r == (match creation@.hovered {
            Some(c) => if in_builder_volume(c) {
                Some(c)
            } else {
                None
            },
            None => None,
        }),
{
    match creation.hovered() {
        Some(c) => if builder_cell_in_bounds(c) {
            Some(c)
        } else {
            None
        },
        None => None,
    }
}

/// The position of a cell of the Builder Volume in a layer-by-layer count.
pub open spec fn volume_index(c: Cell3) -> int {
    c.x + BUILDER_CELLS_PER_AXIS * c.z + BUILDER_CELLS_PER_AXIS * BUILDER_CELLS_PER_AXIS * c.y
}

proof fn lemma_volume_index_injective(a: Cell3, b: Cell3)
    requires
        in_builder_volume(a),
        in_builder_volume(b),
        volume_index(a) == volume_index(b),
    ensures
        a == b,
{
    assert(a.y == b.y) by (nonlinear_arith)
        requires
            0 <= a.x < 4,
            0 <= b.x < 4,
            0 <= a.z < 4,
            0 <= b.z < 4,
            a.x + 4 * a.z + 16 * a.y == b.x + 4 * b.z + 16 * b.y,
    {
    }
    assert(a.z == b.z) by (nonlinear_arith)
        requires
            0 <= a.x < 4,
            0 <= b.x < 4,
            a.x + 4 * a.z == b.x + 4 * b.z,
    {
    }
}

/// Whatever the clicks, Creation Mode never holds more cubes than the Builder Volume has
/// cells: at most 800.
pub proof fn lemma_cube_count_bounded(v: CreationView)
    requires
        creation_invariant(v),
    ensures
        v.cubes.len() <= BUILDER_CAPACITY,
{
    let f = |c: Cell3| volume_index(c);
    assert(vstd::relations::injective_on(f, v.cubes)) by {
        assert forall|a: Cell3, b: Cell3|
            v.cubes.contains(a) && v.cubes.contains(b) && #[trigger] f(a) == #[trigger] f(b) implies a
            == b by {
            lemma_volume_index_injective(a, b);
        }
    }
    let image = v.cubes.map(f);
    vstd::set_lib::lemma_map_size(v.cubes, image, f);
    let range = vstd::set_lib::set_int_range(0, 800);
    vstd::set_lib::lemma_int_range(0, 800);
    assert(image.subset_of(range)) by {
        assert forall|i: int| image.contains(i) implies range.contains(i) by {
            let c = choose|c: Cell3| v.cubes.contains(c) && f(c) == i;
            assert(in_builder_volume(c));
        }
    }
    vstd::set_lib::lemma_len_subset(image, range);
}

/// The cube capacity of the Builder Volume.
pub proof fn lemma_builder_capacity()
    ensures
        BUILDER_CAPACITY == BUILDER_CELLS_PER_AXIS * BUILDER_CELLS_PER_AXIS * BUILDER_MAX_HEIGHT_CELLS,
{
}

} // verus!
