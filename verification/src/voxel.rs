//! Builder Cells, Voxel Cubes and the set of cubes of a Crafted Object.
use vstd::prelude::*;

verus! {

/// Builder Cells across each horizontal axis of the Workbench surface.
pub const BUILDER_CELLS_PER_AXIS: i32 = 4;

/// The builder height limit, in Voxel Cubes.
pub const BUILDER_MAX_HEIGHT_CELLS: i32 = 50;

/// A Builder Cell: the cubic location of one Voxel Cube, `y` being the height.
#[derive(Clone, Copy, Debug, PartialEq, Eq, Hash, Structural)]
pub struct Cell3 {
    pub x: i32,
    pub y: i32,
    pub z: i32,
}

impl Cell3 {
    pub fn new(x: i32, y: i32, z: i32) -> (c: Cell3)
        ensures
            c == (Cell3 { x, y, z }),
    {
        Cell3 { x, y, z }
    }
}

pub open spec fn abs(v: int) -> int {
    if v < 0 {
        -v
    } else {
        v
    }
}

/// Two Builder Cells share a face: they differ by one along exactly one axis.
pub open spec fn face_adjacent(a: Cell3, b: Cell3) -> bool {
    abs(a.x - b.x) + abs(a.y - b.y) + abs(a.z - b.z) == 1
}

/// `b` is `a` moved by the offset `(dx, dy, dz)`.
pub open spec fn is_offset(a: Cell3, dx: int, dy: int, dz: int, b: Cell3) -> bool {
    b.x == a.x + dx && b.y == a.y + dy && b.z == a.z + dz
}

/// The Builder Volume: four by four cells across, fifty cells high.
pub open spec fn in_builder_volume(c: Cell3) -> bool {
    &&& 0 <= c.x < BUILDER_CELLS_PER_AXIS
    &&& 0 <= c.y < BUILDER_MAX_HEIGHT_CELLS
    &&& 0 <= c.z < BUILDER_CELLS_PER_AXIS
}

/// Whether a Builder Cell lies inside the Builder Volume.
pub fn builder_cell_in_bounds(cell: Cell3) -> (r: bool)
    ensures
        r == in_builder_volume(cell),
{
    0 <= cell.x && cell.x < BUILDER_CELLS_PER_AXIS && 0 <= cell.y && cell.y
        < BUILDER_MAX_HEIGHT_CELLS && 0 <= cell.z && cell.z < BUILDER_CELLS_PER_AXIS
}

/// The cell next to `cell` by a unit offset, when it is representable.
pub fn offset_cell(cell: Cell3, dx: i32, dy: i32, dz: i32) -> (r: Option<Cell3>)
    requires
        -1 <= dx <= 1,
        -1 <= dy <= 1,
        -1 <= dz <= 1,
    ensures
        r matches Some(c) ==> is_offset(cell, dx as int, dy as int, dz as int, c),
        r is None ==> forall|c: Cell3| !is_offset(cell, dx as int, dy as int, dz as int, c),
{
    match (cell.x.checked_add(dx), cell.y.checked_add(dy), cell.z.checked_add(dz)) {
        (Some(x), Some(y), Some(z)) => Some(Cell3 { x, y, z }),
        _ => None,
    }
}

/// Every face neighbour of a cell is one of its six unit offsets.
pub proof fn lemma_face_adjacent_offsets(a: Cell3, b: Cell3)
    requires
        face_adjacent(a, b),
    ensures
        is_offset(a, 1, 0, 0, b) || is_offset(a, -1, 0, 0, b) || is_offset(a, 0, 1, 0, b)
            || is_offset(a, 0, -1, 0, b) || is_offset(a, 0, 0, 1, b) || is_offset(a, 0, 0, -1, b),
{
}

/// A set of Builder Cells, each held once.
pub struct VoxelSet {
    cells: Vec<Cell3>,
}

impl View for VoxelSet {
    type V = Set<Cell3>;

    closed spec fn view(&self) -> Set<Cell3> {
        self.cells@.to_set()
    }
}

impl VoxelSet {
    /// No cell is held twice.
    pub closed spec fn wf(&self) -> bool {
        self.cells@.no_duplicates()
    }

    /// The cells in the order in which they are held.
    pub closed spec fn order(&self) -> Seq<Cell3> {
        self.cells@
    }

    pub proof fn lemma_order(&self)
        requires
            self.wf(),
        ensures
            self.order().no_duplicates(),
            self.order().to_set() == self@,
            self.order().len() == self@.len(),
            self@.finite(),
    {
        self.cells@.unique_seq_to_set();
    }

    pub fn new() -> (s: VoxelSet)
        ensures
            s.wf(),
            s@ == Set::<Cell3>::empty(),
    {
        let s = VoxelSet { cells: Vec::new() };
        assert(s@ =~= Set::<Cell3>::empty());
        s
    }

    /// The set of the given cells; a cell given twice is held once.
    pub fn from_cells(cells: &[Cell3]) -> (s: VoxelSet)
        ensures
            s.wf(),
            s@ == cells@.to_set(),
    {
        let mut s = VoxelSet::new();
        for i in 0..cells.len()
            invariant
                s.wf(),
                s@ == cells@.take(i as int).to_set(),
        {
            s.insert(cells[i]);
            assert(cells@.take(i + 1) =~= cells@.take(i as int).push(cells@[i as int]));
            proof {
                cells@.take(i as int).lemma_push_to_set_commute(cells@[i as int]);
            }
        }
        assert(cells@.take(cells.len() as int) == cells@);
        s
    }

    pub fn len(&self) -> (n: usize)
        requires
            self.wf(),
        ensures
            n == self@.len(),
    {
        proof {
            self.cells@.unique_seq_to_set();
        }
        self.cells.len()
    }

    pub fn is_empty(&self) -> (b: bool)
        requires
            self.wf(),
        ensures
            b == (self@ == Set::<Cell3>::empty()),
    {
        proof {
            self.cells@.unique_seq_to_set();
            if self.cells.len() > 0 {
                assert(self@.contains(self.cells@[0]));
            } else {
                assert(self@ =~= Set::<Cell3>::empty());
            }
        }
        self.cells.len() == 0
    }

    /// The held cells, each once.
    pub fn cells(&self) -> (r: &[Cell3])
        ensures
            r@ == self.order(),
    {
        self.cells.as_slice()
    }

    pub fn contains(&self, cell: Cell3) -> (b: bool)
        ensures
            b == self@.contains(cell),
    {
        let n = self.cells.len();
        for i in 0..n
            invariant
                n == self.cells@.len(),
                forall|j: int| 0 <= j < i ==> self.cells@[j] != cell,
        {
            if self.cells[i] == cell {
                assert(self.cells@.contains(cell));
                return true;
            }
        }
        assert(!self.cells@.contains(cell));
        false
    }

    /// Adds `cell`; says whether it was not held before.
    pub fn insert(&mut self, cell: Cell3) -> (added: bool)
        requires
            old(self).wf(),
        ensures
            final(self).wf(),
            final(self)@ == old(self)@.insert(cell),
            added == !old(self)@.contains(cell),
    {
        if self.contains(cell) {
            assert(self@.insert(cell) =~= self@);
            false
        } else {
            let ghost before = self.cells@;
            self.cells.push(cell);
            assert(self.cells@ == before.push(cell));
            proof {
                before.lemma_push_to_set_commute(cell);
            }
            true
        }
    }

    /// Removes `cell`; says whether it was held.
    pub fn remove(&mut self, cell: Cell3) -> (removed: bool)
        requires
            old(self).wf(),
        ensures
            final(self).wf(),
            final(self)@ == old(self)@.remove(cell),
            removed == old(self)@.contains(cell),
    {
        let n = self.cells.len();
        let mut i: usize = 0;
        while i < n
            invariant
                n == self.cells@.len(),
                i <= n,
                self.cells@ == old(self).cells@,
                self.cells@.no_duplicates(),
                forall|j: int| 0 <= j < i ==> self.cells@[j] != cell,
            decreases n - i,
        {
            if self.cells[i] == cell {
                let ghost before = self.cells@;
                self.cells.remove(i);
                assert(self.cells@ == before.remove(i as int));
                assert forall|a: int, b: int|
                    0 <= a < b < self.cells@.len() implies self.cells@[a] != self.cells@[b] by {
                    let a0 = if a < i { a } else { a + 1 };
                    let b0 = if b < i { b } else { b + 1 };
                    assert(before[a0] != before[b0]);
                }
                assert(self@ =~= before.to_set().remove(cell)) by {
                    assert forall|c: Cell3| #![auto] self.cells@.contains(c) implies before.contains(
                        c,
                    ) && c != cell by {
                        let j = choose|j: int| 0 <= j < self.cells@.len() && self.cells@[j] == c;
                        let j0 = if j < i { j } else { j + 1 };
                        assert(before[j0] == c);
                        assert(j0 != i);
                    }
                    assert forall|c: Cell3| #![auto] before.contains(c) && c != cell implies self.cells@.contains(
                        c,
                    ) by {
                        let j = choose|j: int| 0 <= j < before.len() && before[j] == c;
                        if j < i {
                            assert(self.cells@[j] == c);
                        } else {
                            assert(j != i);
                            assert(self.cells@[j - 1] == c);
                        }
                    }
                }
                assert(before.contains(cell)) by {
                    assert(before[i as int] == cell);
                }
                return true;
            }
            i += 1;
        }
        assert(!self.cells@.contains(cell));
        assert(self@.remove(cell) =~= self@);
        false
    }

    /// Removes every cell.
    pub fn clear(&mut self)
        ensures
            final(self).wf(),
            final(self)@ == Set::<Cell3>::empty(),
    {
        self.cells.clear();
        assert(self@ =~= Set::<Cell3>::empty());
    }

    pub fn clone_set(&self) -> (s: VoxelSet)
        requires
            self.wf(),
        ensures
            s.wf(),
            s@ == self@,
            s.order() == self.order(),
    {
        VoxelSet { cells: self.cells.clone() }
    }
}

} // verus!
