//! The bounds and dimensions of a Crafted Object.
use vstd::prelude::*;
use crate::grid::Cell2;
use crate::voxel::{Cell3, VoxelSet};

verus! {

/// Side of a Builder Cell, in quarters of a world unit.
pub const BUILDER_CELL_QUARTERS: i64 = 1;

/// Side of a Placement Cell, in quarters of a world unit.
pub const PLACEMENT_CELL_QUARTERS: i64 = 1;

/// `lo` and `hi` are the per-axis least and greatest coordinates of the cells of `s`.
pub open spec fn are_bounds(s: Set<Cell3>, lo: Cell3, hi: Cell3) -> bool {
    &&& forall|c: Cell3|
        #![trigger s.contains(c)]
        s.contains(c) ==> lo.x <= c.x <= hi.x && lo.y <= c.y <= hi.y && lo.z <= c.z <= hi.z
    &&& exists|c: Cell3| s.contains(c) && c.x == lo.x
    &&& exists|c: Cell3| s.contains(c) && c.y == lo.y
    &&& exists|c: Cell3| s.contains(c) && c.z == lo.z
    &&& exists|c: Cell3| s.contains(c) && c.x == hi.x
    &&& exists|c: Cell3| s.contains(c) && c.y == hi.y
    &&& exists|c: Cell3| s.contains(c) && c.z == hi.z
}

/// `a / b` rounded up, for a positive `b`.
pub open spec fn ceil_div(a: int, b: int) -> int
    recommends
        b > 0,
{
    -((-a) / b)
}

/// Placement Cells needed to cover `count` Builder Cells in a row, rounded up.
pub open spec fn placement_cells_for(count: int) -> int {
    ceil_div(count * BUILDER_CELL_QUARTERS, PLACEMENT_CELL_QUARTERS as int)
}

/// The least and greatest coordinate of the cubes along each axis, when there are cubes.
pub fn voxel_bounds(cubes: &VoxelSet) -> (r: Option<(Cell3, Cell3)>)
    requires
        cubes.wf(),
    ensures
        r is None <==> cubes@ == Set::<Cell3>::empty(),
        r matches Some((lo, hi)) ==> are_bounds(cubes@, lo, hi),
{
    let cells = cubes.cells();
    proof {
        cubes.lemma_order();
    }
    if cells.len() == 0 {
        assert(cubes@ =~= Set::<Cell3>::empty());
        return None;
    }
    let first = cells[0];
    let mut minimum = first;
    let mut maximum = first;
    let ghost s = cells@;
    let ghost mut wx_lo: int = 0;
    let ghost mut wy_lo: int = 0;
    let ghost mut wz_lo: int = 0;
    let ghost mut wx_hi: int = 0;
    let ghost mut wy_hi: int = 0;
    let ghost mut wz_hi: int = 0;
    for i in 1..cells.len()
        invariant
            s == cells@,
            s.len() >= 1,
            forall|j: int|
                0 <= j < i ==> minimum.x <= (#[trigger] s[j]).x <= maximum.x && minimum.y <= s[j].y
                    <= maximum.y && minimum.z <= s[j].z <= maximum.z,
            0 <= wx_lo < i && s[wx_lo].x == minimum.x,
            0 <= wy_lo < i && s[wy_lo].y == minimum.y,
            0 <= wz_lo < i && s[wz_lo].z == minimum.z,
            0 <= wx_hi < i && s[wx_hi].x == maximum.x,
            0 <= wy_hi < i && s[wy_hi].y == maximum.y,
            0 <= wz_hi < i && s[wz_hi].z == maximum.z,
    {
        let cell = cells[i];
        if cell.x < minimum.x {
            minimum.x = cell.x;
            proof {
                wx_lo = i as int;
            }
        }
        if cell.y < minimum.y {
            minimum.y = cell.y;
            proof {
                wy_lo = i as int;
            }
        }
        if cell.z < minimum.z {
            minimum.z = cell.z;
            proof {
                wz_lo = i as int;
            }
        }
        if cell.x > maximum.x {
            maximum.x = cell.x;
            proof {
                wx_hi = i as int;
            }
        }
        if cell.y > maximum.y {
            maximum.y = cell.y;
            proof {
                wy_hi = i as int;
            }
        }
        if cell.z > maximum.z {
            maximum.z = cell.z;
            proof {
                wz_hi = i as int;
            }
        }
    }
    proof {
        assert forall|c: Cell3| #![trigger cubes@.contains(c)] cubes@.contains(c) implies minimum.x
            <= c.x <= maximum.x && minimum.y <= c.y <= maximum.y && minimum.z <= c.z
            <= maximum.z by {
            let j = choose|j: int| 0 <= j < s.len() && s[j] == c;
            assert(minimum.x <= s[j].x);
        }
        assert(cubes@.contains(s[wx_lo]));
        assert(cubes@.contains(s[wy_lo]));
        assert(cubes@.contains(s[wz_lo]));
        assert(cubes@.contains(s[wx_hi]));
        assert(cubes@.contains(s[wy_hi]));
        assert(cubes@.contains(s[wz_hi]));
    }
    Some((minimum, maximum))
}

/// The Placement Cells covered by `voxel_count` Builder Cells in a row, rounded up.
pub fn rounded_placement_cells(voxel_count: i32) -> (r: i32)
    ensures
        r == placement_cells_for(voxel_count as int),
{
    let scaled = (voxel_count as i64) * BUILDER_CELL_QUARTERS;
    let cell = PLACEMENT_CELL_QUARTERS;
    let q = if scaled >= 0 {
        (scaled + cell - 1) / cell
    } else {
        -((-scaled) / cell)
    };
    q as i32
}

/// The extent of the cubes along each axis fits the 32-bit cell counts.
pub open spec fn extents_fit(s: Set<Cell3>) -> bool {
    forall|a: Cell3, b: Cell3|
        #![trigger s.contains(a), s.contains(b)]
        s.contains(a) && s.contains(b) ==> b.x - a.x < i32::MAX && b.y - a.y < i32::MAX && b.z
            - a.z < i32::MAX
}

/// The dimensions of a Crafted Object: the bounds of its cubes, its footprint in
/// Placement Cells and its height in Placement Cells.
#[derive(Clone, Copy, Debug, PartialEq, Eq)]
pub struct CraftedDimensions {
    pub minimum: Cell3,
    pub maximum: Cell3,
    pub footprint: Cell2,
    pub height_cells: i32,
}

/// What `crafted_dimensions` gives for cubes bounded by `lo` and `hi`.
pub open spec fn dimensions_for(lo: Cell3, hi: Cell3) -> CraftedDimensions {
    CraftedDimensions {
        minimum: lo,
        maximum: hi,
        footprint: Cell2 {
            x: placement_cells_for(hi.x - lo.x + 1) as i32,
            y: placement_cells_for(hi.z - lo.z + 1) as i32,
        },
        height_cells: placement_cells_for(hi.y - lo.y + 1) as i32,
    }
}

/// The bounds, footprint and height of the object that the cubes make, when there are cubes.
pub fn crafted_dimensions(cubes: &VoxelSet) -> (r: Option<CraftedDimensions>)
    requires
        cubes.wf(),
        extents_fit(cubes@),
    ensures
        r is None <==> cubes@ == Set::<Cell3>::empty(),
        r matches Some(d) ==> are_bounds(cubes@, d.minimum, d.maximum) && d == dimensions_for(
            d.minimum,
            d.maximum,
        ),
        r matches Some(d) ==> d.footprint.x == d.maximum.x - d.minimum.x + 1 && d.footprint.y
            == d.maximum.z - d.minimum.z + 1 && d.height_cells == d.maximum.y - d.minimum.y + 1,
{
    let (minimum, maximum) = voxel_bounds(cubes)?;
    proof {
        let cx = choose|c: Cell3| cubes@.contains(c) && c.x == minimum.x;
        let dx = choose|c: Cell3| cubes@.contains(c) && c.x == maximum.x;
        let cy = choose|c: Cell3| cubes@.contains(c) && c.y == minimum.y;
        let dy = choose|c: Cell3| cubes@.contains(c) && c.y == maximum.y;
        let cz = choose|c: Cell3| cubes@.contains(c) && c.z == minimum.z;
        let dz = choose|c: Cell3| cubes@.contains(c) && c.z == maximum.z;
        assert(cubes@.contains(cx) && cubes@.contains(dx));
        assert(cubes@.contains(cy) && cubes@.contains(dy));
        assert(cubes@.contains(cz) && cubes@.contains(dz));
        assert(minimum.x <= maximum.x);
        assert(minimum.y <= maximum.y);
        assert(minimum.z <= maximum.z);
    }
    proof {
        lemma_dimensions_follow_extents(minimum, maximum);
    }
    let count_x = maximum.x - minimum.x + 1;
    let count_y = maximum.y - minimum.y + 1;
    let count_z = maximum.z - minimum.z + 1;
    Some(
        CraftedDimensions {
            minimum,
            maximum,
            footprint: Cell2 {
                x: rounded_placement_cells(count_x),
                y: rounded_placement_cells(count_z),
            },
            height_cells: rounded_placement_cells(count_y),
        },
    )
}

/// `c` moved by `v`.
pub open spec fn shift(c: Cell3, v: Cell3) -> Cell3 {
    Cell3 { x: (c.x + v.x) as i32, y: (c.y + v.y) as i32, z: (c.z + v.z) as i32 }
}

/// `c` moved by `v` stays within 32-bit coordinates.
pub open spec fn shift_fits(c: Cell3, v: Cell3) -> bool {
    &&& i32::MIN <= c.x + v.x <= i32::MAX
    &&& i32::MIN <= c.y + v.y <= i32::MAX
    &&& i32::MIN <= c.z + v.z <= i32::MAX
}

/// Bounds are unique: a set has at most one pair of per-axis bounds.
pub proof fn lemma_bounds_unique(s: Set<Cell3>, lo: Cell3, hi: Cell3, lo2: Cell3, hi2: Cell3)
    requires
        are_bounds(s, lo, hi),
        are_bounds(s, lo2, hi2),
    ensures
        lo == lo2,
        hi == hi2,
{
    let a = choose|c: Cell3| s.contains(c) && c.x == lo.x;
    let b = choose|c: Cell3| s.contains(c) && c.x == lo2.x;
    let a1 = choose|c: Cell3| s.contains(c) && c.y == lo.y;
    let b1 = choose|c: Cell3| s.contains(c) && c.y == lo2.y;
    let a2 = choose|c: Cell3| s.contains(c) && c.z == lo.z;
    let b2 = choose|c: Cell3| s.contains(c) && c.z == lo2.z;
    let d = choose|c: Cell3| s.contains(c) && c.x == hi.x;
    let e = choose|c: Cell3| s.contains(c) && c.x == hi2.x;
    let d1 = choose|c: Cell3| s.contains(c) && c.y == hi.y;
    let e1 = choose|c: Cell3| s.contains(c) && c.y == hi2.y;
    let d2 = choose|c: Cell3| s.contains(c) && c.z == hi.z;
    let e2 = choose|c: Cell3| s.contains(c) && c.z == hi2.z;
    assert(s.contains(a) && s.contains(b) && s.contains(a1) && s.contains(b1) && s.contains(a2)
        && s.contains(b2));
    assert(s.contains(d) && s.contains(e) && s.contains(d1) && s.contains(e1) && s.contains(d2)
        && s.contains(e2));
}

/// Moving every cube by the same offset moves the bounds by that offset and keeps the
/// footprint and the height of the Crafted Object.
pub proof fn lemma_shift_keeps_dimensions(s: Set<Cell3>, lo: Cell3, hi: Cell3, v: Cell3)
    requires
        are_bounds(s, lo, hi),
        forall|c: Cell3| s.contains(c) ==> #[trigger] shift_fits(c, v),
    ensures
        are_bounds(s.map(|c: Cell3| shift(c, v)), shift(lo, v), shift(hi, v)),
        dimensions_for(shift(lo, v), shift(hi, v)).footprint == dimensions_for(lo, hi).footprint,
        dimensions_for(shift(lo, v), shift(hi, v)).height_cells == dimensions_for(
            lo,
            hi,
        ).height_cells,
{
    let f = |c: Cell3| shift(c, v);
    let t = s.map(f);
    let a = choose|c: Cell3| s.contains(c) && c.x == lo.x;
    let a1 = choose|c: Cell3| s.contains(c) && c.y == lo.y;
    let a2 = choose|c: Cell3| s.contains(c) && c.z == lo.z;
    let d = choose|c: Cell3| s.contains(c) && c.x == hi.x;
    let d1 = choose|c: Cell3| s.contains(c) && c.y == hi.y;
    let d2 = choose|c: Cell3| s.contains(c) && c.z == hi.z;
    assert(shift_fits(a, v) && shift_fits(a1, v) && shift_fits(a2, v));
    assert(shift_fits(d, v) && shift_fits(d1, v) && shift_fits(d2, v));
    assert forall|c: Cell3| #![trigger t.contains(c)] t.contains(c) implies shift(lo, v).x <= c.x
        <= shift(hi, v).x && shift(lo, v).y <= c.y <= shift(hi, v).y && shift(lo, v).z <= c.z
        <= shift(hi, v).z by {
        let c0 = choose|c0: Cell3| s.contains(c0) && f(c0) == c;
        assert(shift_fits(c0, v));
    }
    assert(t.contains(f(a)) && t.contains(f(a1)) && t.contains(f(a2)));
    assert(t.contains(f(d)) && t.contains(f(d1)) && t.contains(f(d2)));
}

/// The footprint of a Crafted Object spans its cubes' extent along x by their extent
/// along z, and its height is their extent along y, each counted in cells.
pub proof fn lemma_dimensions_follow_extents(lo: Cell3, hi: Cell3)
    requires
        lo.x <= hi.x,
        lo.y <= hi.y,
        lo.z <= hi.z,
        hi.x - lo.x < i32::MAX,
        hi.y - lo.y < i32::MAX,
        hi.z - lo.z < i32::MAX,
    ensures
        dimensions_for(lo, hi).footprint.x == hi.x - lo.x + 1,
        dimensions_for(lo, hi).footprint.y == hi.z - lo.z + 1,
        dimensions_for(lo, hi).height_cells == hi.y - lo.y + 1,
        dimensions_for(lo, hi).minimum == lo,
        dimensions_for(lo, hi).maximum == hi,
{
}

/// A Builder Cell and a Placement Cell have the same side, so every count of Builder
/// Cells needs the same count of Placement Cells.
pub proof fn lemma_placement_cells_exact(count: int)
    ensures
        placement_cells_for(count) == count,
{
}

} // verus!
