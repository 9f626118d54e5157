//! The Placement Grid of the World and the footprints of Placeable Objects.
use vstd::prelude::*;

verus! {

/// Checker Tiles along each axis of the World.
pub const GRID_SIZE: i32 = 20;

/// Placement Cells along each axis of a Checker Tile.
pub const CELLS_PER_TILE: i32 = 4;

/// Placement Cells along each axis of the World.
pub open spec fn cells_per_axis() -> int {
    GRID_SIZE * CELLS_PER_TILE
}

/// A Placement Cell, or a footprint measured in Placement Cells.
#[derive(Clone, Copy, Debug, PartialEq, Eq, Hash, Structural)]
pub struct Cell2 {
    pub x: i32,
    pub y: i32,
}

impl Cell2 {
    pub fn new(x: i32, y: i32) -> (c: Cell2)
        ensures
            c == (Cell2 { x, y }),
    {
        Cell2 { x, y }
    }
}

/// The footprint of size `a_size` at `a` shares a Placement Cell with the one of size
/// `b_size` at `b`.
pub open spec fn footprints_overlap(a: Cell2, a_size: Cell2, b: Cell2, b_size: Cell2) -> bool {
    &&& a.x < b.x + b_size.x
    &&& a.x + a_size.x > b.x
    &&& a.y < b.y + b_size.y
    &&& a.y + a_size.y > b.y
}

/// The footprint of size `footprint` at `cell` lies inside the World.
pub open spec fn inside_world(cell: Cell2, footprint: Cell2) -> bool {
    &&& cell.x >= 0
    &&& cell.y >= 0
    &&& cell.x + footprint.x <= cells_per_axis()
    &&& cell.y + footprint.y <= cells_per_axis()
}

/// Something standing on the Placement Grid: a Placeable Object or the Workbench.
/// Heights are in hundredths of a world unit above the ground.
#[derive(Clone, Copy, Debug, PartialEq, Eq, Structural)]
pub struct Obstacle {
    pub cell: Cell2,
    pub footprint: Cell2,
    /// Height of its base above the ground.
    pub base: i64,
    /// Its own height.
    pub height: i64,
    /// Other objects may be stacked on its top (true of Placeable Objects, not of the
    /// Workbench).
    pub stackable: bool,
}

/// The height of the top surface of `o`.
pub open spec fn top(o: Obstacle) -> int {
    o.base + o.height
}

/// The top of `o` fits a 64-bit height.
pub open spec fn top_fits(o: Obstacle) -> bool {
    i64::MIN <= top(o) <= i64::MAX
}

/// The footprint of `o` holds the whole footprint of size `footprint` at `cell`.
pub open spec fn covers(o: Obstacle, cell: Cell2, footprint: Cell2) -> bool {
    &&& o.cell.x <= cell.x
    &&& cell.x + footprint.x <= o.cell.x + o.footprint.x
    &&& o.cell.y <= cell.y
    &&& cell.y + footprint.y <= o.cell.y + o.footprint.y
}

/// The footprint at `cell` shares a Placement Cell with `o`.
pub open spec fn overlaps(cell: Cell2, footprint: Cell2, o: Obstacle) -> bool {
    footprints_overlap(cell, footprint, o.cell, o.footprint)
}

/// The height at which a dropped footprint comes to rest: the highest top among the
/// obstacles that it overlaps, or the ground (0) when that is higher or it overlaps none.
pub open spec fn resting_height(cell: Cell2, footprint: Cell2, others: Seq<Obstacle>) -> int
    decreases others.len(),
{
    if others.len() == 0 {
        0
    } else {
        let below = resting_height(cell, footprint, others.drop_last());
        let o = others.last();
        if overlaps(cell, footprint, o) && top(o) > below {
            top(o)
        } else {
            below
        }
    }
}

/// `others[i]` fully supports the footprint: it is stackable, holds the whole footprint,
/// and its top is the resting height (nothing overlapping stands higher).
pub open spec fn supports_at(cell: Cell2, footprint: Cell2, others: Seq<Obstacle>, i: int) -> bool {
    &&& 0 <= i < others.len()
    &&& others[i].stackable
    &&& covers(others[i], cell, footprint)
    &&& top(others[i]) == resting_height(cell, footprint, others)
}

/// A drop is allowed inside the World onto free ground, or onto the top of one stackable
/// object that fully supports the footprint and that nothing overlapping rises above.
pub open spec fn placement_allowed(candidate: Cell2, footprint: Cell2, others: Seq<Obstacle>) -> bool {
    &&& inside_world(candidate, footprint)
    &&& ((forall|i: int| 0 <= i < others.len() ==> !overlaps(candidate, footprint, #[trigger] others[i]))
        || exists|i: int| #[trigger] supports_at(candidate, footprint, others, i))
}

/// Whether two footprints share a Placement Cell.
pub fn cells_overlap(a: Cell2, a_size: Cell2, b: Cell2, b_size: Cell2) -> (r: bool)
    ensures
        r == footprints_overlap(a, a_size, b, b_size),
{
    let (ax, ay, aw, ah) = (a.x as i64, a.y as i64, a_size.x as i64, a_size.y as i64);
    let (bx, by, bw, bh) = (b.x as i64, b.y as i64, b_size.x as i64, b_size.y as i64);
    ax < bx + bw && ax + aw > bx && ay < by + bh && ay + ah > by
}

/// The top of `o`, when it fits a 64-bit height.
fn obstacle_top(o: &Obstacle) -> (t: i64)
    requires
        top_fits(*o),
    ensures
        t == top(*o),
{
    o.base + o.height
}

/// The height at which an object of size `footprint` dropped at `candidate` comes to rest.
pub fn drop_base(candidate: Cell2, footprint: Cell2, other_objects: &[Obstacle]) -> (h: i64)
    requires
        forall|i: int| 0 <= i < other_objects@.len() ==> top_fits(#[trigger] other_objects@[i]),
    ensures
        h == resting_height(candidate, footprint, other_objects@),
{
    let n = other_objects.len();
    let mut rest: i64 = 0;
    for i in 0..n
        invariant
            n == other_objects@.len(),
            forall|j: int| 0 <= j < other_objects@.len() ==> top_fits(#[trigger] other_objects@[j]),
            rest == resting_height(candidate, footprint, other_objects@.take(i as int)),
    {
        let o = &other_objects[i];
        proof {
            assert(other_objects@.take(i + 1).drop_last() =~= other_objects@.take(i as int));
            assert(other_objects@.take(i + 1).last() == other_objects@[i as int]);
        }
        if cells_overlap(candidate, footprint, o.cell, o.footprint) {
            let t = obstacle_top(o);
            if t > rest {
                rest = t;
            }
        }
    }
    assert(other_objects@.take(n as int) =~= other_objects@);
    rest
}

/// Whether the footprint lies inside the World.
fn in_world(candidate: Cell2, footprint: Cell2) -> (b: bool)
    ensures
        b == inside_world(candidate, footprint),
{
    let cells_per_axis: i64 = (GRID_SIZE as i64) * (CELLS_PER_TILE as i64);
    candidate.x >= 0 && candidate.y >= 0 && candidate.x as i64 + footprint.x as i64
        <= cells_per_axis && candidate.y as i64 + footprint.y as i64 <= cells_per_axis
}

/// Whether `o` holds the whole footprint of size `footprint` at `cell`.
fn obstacle_covers(o: &Obstacle, cell: Cell2, footprint: Cell2) -> (b: bool)
    ensures
        b == covers(*o, cell, footprint),
{
    o.cell.x as i64 <= cell.x as i64 && cell.x as i64 + footprint.x as i64 <= o.cell.x as i64
        + o.footprint.x as i64 && o.cell.y as i64 <= cell.y as i64 && cell.y as i64
        + footprint.y as i64 <= o.cell.y as i64 + o.footprint.y as i64
}

/// Whether an object of size `footprint` may be dropped at `candidate`: inside the World,
/// either onto free ground or stacked on one object of `other_objects` that fully
/// supports it.
pub fn valid_placement(candidate: Cell2, footprint: Cell2, other_objects: &[Obstacle]) -> (r: bool)
    requires
        forall|i: int| 0 <= i < other_objects@.len() ==> top_fits(#[trigger] other_objects@[i]),
    ensures
        r == placement_allowed(candidate, footprint, other_objects@),
        r ==> 0 <= candidate.x && 0 <= candidate.y && candidate.x + footprint.x <= 80
            && candidate.y + footprint.y <= 80,
{
    proof {
        lemma_allowed_inside_world(candidate, footprint, other_objects@);
    }
    if !in_world(candidate, footprint) {
        return false;
    }
    let rest = drop_base(candidate, footprint, other_objects);
    let n = other_objects.len();
    let mut any_overlap = false;
    let mut supported = false;
    for i in 0..n
        invariant
            n == other_objects@.len(),
            forall|j: int| 0 <= j < other_objects@.len() ==> top_fits(#[trigger] other_objects@[j]),
            rest == resting_height(candidate, footprint, other_objects@),
            any_overlap == exists|j: int|
                0 <= j < i && overlaps(candidate, footprint, #[trigger] other_objects@[j]),
            supported == exists|j: int|
                0 <= j < i && #[trigger] supports_at(candidate, footprint, other_objects@, j),
    {
        let o = &other_objects[i];
        if cells_overlap(candidate, footprint, o.cell, o.footprint) {
            any_overlap = true;
        }
        if o.stackable && obstacle_covers(o, candidate, footprint) && obstacle_top(o) == rest {
            supported = true;
        }
        proof {
            assert(overlaps(candidate, footprint, other_objects@[i as int]) ==> exists|j: int|
                0 <= j < i + 1 && overlaps(candidate, footprint, #[trigger] other_objects@[j]));
            assert(supports_at(candidate, footprint, other_objects@, i as int) ==> exists|j: int|
                0 <= j < i + 1 && #[trigger] supports_at(candidate, footprint, other_objects@, j));
        }
    }
    !any_overlap || supported
}

/// The resting height is at least the ground and every overlapped top, and it is the
/// ground or one of those tops.
pub proof fn lemma_resting_height_bounds(cell: Cell2, footprint: Cell2, others: Seq<Obstacle>)
    ensures
        resting_height(cell, footprint, others) >= 0,
        forall|i: int|
            0 <= i < others.len() && overlaps(cell, footprint, #[trigger] others[i]) ==> top(
                others[i],
            ) <= resting_height(cell, footprint, others),
        resting_height(cell, footprint, others) == 0 || exists|i: int|
            0 <= i < others.len() && overlaps(cell, footprint, #[trigger] others[i]) && top(others[i])
                == resting_height(cell, footprint, others),
    decreases others.len(),
{
    if others.len() > 0 {
        let init = others.drop_last();
        lemma_resting_height_bounds(cell, footprint, init);
        assert forall|i: int|
            0 <= i < others.len() && overlaps(cell, footprint, #[trigger] others[i]) implies top(
                others[i],
            ) <= resting_height(cell, footprint, others) by {
            if i < others.len() - 1 {
                assert(init[i] == others[i]);
            }
        }
        if resting_height(cell, footprint, others) != 0 {
            if resting_height(cell, footprint, others) == resting_height(cell, footprint, init) {
                let j = choose|j: int|
                    0 <= j < init.len() && overlaps(cell, footprint, #[trigger] init[j]) && top(init[j])
                        == resting_height(cell, footprint, init);
                assert(others[j] == init[j]);
            } else {
                assert(overlaps(cell, footprint, others[others.len() - 1]));
            }
        }
    }
}

/// A footprint that overlaps nothing rests on the ground, and dropping it anywhere inside
/// the World is allowed.
pub proof fn lemma_free_ground_drop(cell: Cell2, footprint: Cell2, others: Seq<Obstacle>)
    requires
        inside_world(cell, footprint),
        forall|i: int| 0 <= i < others.len() ==> !overlaps(cell, footprint, #[trigger] others[i]),
    ensures
        placement_allowed(cell, footprint, others),
        resting_height(cell, footprint, others) == 0,
{
    lemma_resting_height_bounds(cell, footprint, others);
}

/// Stacking: inside the World, an object may be dropped onto a stackable object whose
/// footprint holds its whole footprint, when nothing else it overlaps rises above that
/// object's top; its base then rests on that top.
pub proof fn lemma_stack_on_support(cell: Cell2, footprint: Cell2, others: Seq<Obstacle>, s: int)
    requires
        inside_world(cell, footprint),
        0 <= s < others.len(),
        others[s].stackable,
        covers(others[s], cell, footprint),
        footprint.x > 0,
        footprint.y > 0,
        top(others[s]) >= 0,
        forall|i: int|
            0 <= i < others.len() && overlaps(cell, footprint, #[trigger] others[i]) ==> top(others[i])
                <= top(others[s]),
    ensures
        placement_allowed(cell, footprint, others),
        resting_height(cell, footprint, others) == top(others[s]),
{
    lemma_resting_height_bounds(cell, footprint, others);
    assert(overlaps(cell, footprint, others[s]));
    assert(supports_at(cell, footprint, others, s));
}

/// A drop that overlaps an object is allowed only onto the top of a stackable object that
/// holds the whole footprint.
pub proof fn lemma_overlapping_drop_needs_support(cell: Cell2, footprint: Cell2, others: Seq<Obstacle>, i: int)
    requires
        0 <= i < others.len(),
        overlaps(cell, footprint, others[i]),
        placement_allowed(cell, footprint, others),
    ensures
        exists|j: int|
            0 <= j < others.len() && others[j].stackable && covers(others[j], cell, footprint) && top(
                others[j],
            ) == resting_height(cell, footprint, others) && #[trigger] supports_at(cell, footprint, others, j),
{
}

/// An allowed drop lies inside the 80 by 80 Placement Cells of the World on every side:
/// nothing is ever dropped partly outside it.
pub proof fn lemma_allowed_inside_world(cell: Cell2, footprint: Cell2, others: Seq<Obstacle>)
    ensures
        placement_allowed(cell, footprint, others) ==> 0 <= cell.x && 0 <= cell.y && cell.x
            + footprint.x <= 80 && cell.y + footprint.y <= 80,
        cell.x < 0 || cell.y < 0 || cell.x + footprint.x > 80 || cell.y + footprint.y > 80
            ==> !placement_allowed(cell, footprint, others),
{
}

/// Overlap does not depend on which footprint is named first.
pub proof fn lemma_overlap_symmetric(a: Cell2, a_size: Cell2, b: Cell2, b_size: Cell2)
    ensures
        footprints_overlap(a, a_size, b, b_size) == footprints_overlap(b, b_size, a, a_size),
{
}

/// A footprint with a positive size overlaps itself: an object dropped exactly onto
/// another of positive size can only stand on its top.
pub proof fn lemma_overlap_reflexive(a: Cell2, size: Cell2)
    requires
        size.x > 0,
        size.y > 0,
    ensures
        footprints_overlap(a, size, a, size),
{
}

/// Footprints side by side (one ends where the other begins) do not overlap.
pub proof fn lemma_adjacent_footprints_disjoint(a: Cell2, a_size: Cell2, b: Cell2, b_size: Cell2)
    requires
        a.x + a_size.x == b.x || b.x + b_size.x == a.x || a.y + a_size.y == b.y || b.y + b_size.y
            == a.y,
    ensures
        !footprints_overlap(a, a_size, b, b_size),
{
}

} // verus!
