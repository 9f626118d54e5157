//! Face connectivity of Voxel Cubes to the Workbench floor.
use vstd::prelude::*;
use crate::voxel::{
    Cell3, VoxelSet, face_adjacent, is_offset, lemma_face_adjacent_offsets, offset_cell,
};

verus! {

/// Consecutive cells `i` and `i + 1` of `p` share a face.
pub open spec fn linked(p: Seq<Cell3>, i: int) -> bool {
    face_adjacent(p[i], p[i + 1])
}

/// `p` walks from face to face through cells of `s`.
pub open spec fn is_path(s: Set<Cell3>, p: Seq<Cell3>) -> bool {
    &&& p.len() > 0
    &&& forall|i: int| 0 <= i < p.len() ==> s.contains(#[trigger] p[i])
    &&& forall|i: int| 0 <= i < p.len() - 1 ==> #[trigger] linked(p, i)
}

/// A cell on the Workbench floor (the lowest layer).
pub open spec fn on_floor(c: Cell3) -> bool {
    c.y == 0
}

/// `c` is reached from the floor through face-connected cells of `s`.
pub open spec fn grounded(s: Set<Cell3>, c: Cell3) -> bool {
    exists|p: Seq<Cell3>| #[trigger] is_path(s, p) && on_floor(p[0]) && p.last() == c
}

/// Every cell of `s` is face-connected to the floor within `s`.
pub open spec fn floor_connected(s: Set<Cell3>) -> bool {
    forall|c: Cell3| s.contains(c) ==> #[trigger] grounded(s, c)
}

/// A floor cell of `s` is grounded.
pub proof fn lemma_floor_grounded(s: Set<Cell3>, c: Cell3)
    requires
        s.contains(c),
        on_floor(c),
    ensures
        grounded(s, c),
{
    let p = seq![c];
    assert(is_path(s, p));
}

/// A face neighbour, in `s`, of a grounded cell is grounded.
pub proof fn lemma_extend_grounded(s: Set<Cell3>, a: Cell3, b: Cell3)
    requires
        grounded(s, a),
        s.contains(b),
        face_adjacent(a, b),
    ensures
        grounded(s, b),
{
    let p = choose|p: Seq<Cell3>| #[trigger] is_path(s, p) && on_floor(p[0]) && p.last() == a;
    let q = p.push(b);
    assert forall|i: int| 0 <= i < q.len() - 1 implies #[trigger] linked(q, i) by {
        if i < p.len() - 1 {
            assert(linked(p, i));
        }
    }
    assert(is_path(s, q));
}

/// Adding a cell to `s` keeps every grounded cell grounded.
pub proof fn lemma_grounded_insert(s: Set<Cell3>, x: Cell3, c: Cell3)
    requires
        grounded(s, c),
    ensures
        grounded(s.insert(x), c),
{
    let p = choose|p: Seq<Cell3>| #[trigger] is_path(s, p) && on_floor(p[0]) && p.last() == c;
    assert(is_path(s.insert(x), p));
}

/// A set that holds every floor cell of `s` and every neighbour in `s` of its own cells
/// holds the end of every path of `s` from the floor.
proof fn lemma_closed_holds_path_end(s: Set<Cell3>, o: Set<Cell3>, p: Seq<Cell3>)
    requires
        forall|x: Cell3| s.contains(x) && on_floor(x) ==> o.contains(x),
        forall|a: Cell3, b: Cell3|
            o.contains(a) && s.contains(b) && face_adjacent(a, b) ==> #[trigger] o.contains(b)
                && #[trigger] o.contains(a),
        is_path(s, p),
        on_floor(p[0]),
    ensures
        o.contains(p.last()),
    decreases p.len(),
{
    if p.len() == 1 {
        assert(s.contains(p[0]));
    } else {
        let q = p.drop_last();
        assert forall|i: int| 0 <= i < q.len() - 1 implies #[trigger] linked(q, i) by {
            assert(linked(p, i));
        }
        assert(is_path(s, q));
        lemma_closed_holds_path_end(s, o, q);
        assert(linked(p, p.len() - 2));
        assert(s.contains(p[p.len() - 1]));
    }
}

/// `longer` starts with `shorter`.
pub open spec fn extends(shorter: Seq<Cell3>, longer: Seq<Cell3>) -> bool {
    &&& shorter.len() <= longer.len()
    &&& forall|k: int| 0 <= k < shorter.len() ==> #[trigger] longer[k] == shorter[k]
}

proof fn lemma_extends_trans(a: Seq<Cell3>, b: Seq<Cell3>, c: Seq<Cell3>)
    requires
        extends(a, b),
        extends(b, c),
    ensures
        extends(a, c),
{
    assert forall|k: int| 0 <= k < a.len() implies #[trigger] c[k] == a[k] by {
        assert(b[k] == a[k]);
    }
}

/// A sequence holds every cell of the sequences it starts with.
proof fn lemma_extends_holds(a: Seq<Cell3>, b: Seq<Cell3>)
    requires
        extends(a, b),
    ensures
        forall|c: Cell3| #[trigger] a.contains(c) ==> b.contains(c),
{
    assert forall|c: Cell3| #[trigger] a.contains(c) implies b.contains(c) by {
        let k = choose|k: int| 0 <= k < a.len() && a[k] == c;
        assert(b[k] == a[k]);
    }
}

fn seq_holds(v: &Vec<Cell3>, c: Cell3) -> (b: bool)
    ensures
        b == v@.contains(c),
{
    let n = v.len();
    for i in 0..n
        invariant
            n == v@.len(),
            forall|j: int| 0 <= j < i ==> v@[j] != c,
    {
        if v[i] == c {
            assert(v@[i as int] == c);
            return true;
        }
    }
    false
}

/// A sequence without repeats whose cells all lie in the finite set `s` is no longer than `s`.
proof fn lemma_unique_within_len(v: Seq<Cell3>, s: Set<Cell3>)
    requires
        v.no_duplicates(),
        s.finite(),
        forall|k: int| 0 <= k < v.len() ==> s.contains(#[trigger] v[k]),
    ensures
        v.len() <= s.len(),
        v.to_set().len() == v.len(),
        v.to_set().subset_of(s),
{
    v.unique_seq_to_set();
    assert forall|c: Cell3| v.to_set().contains(c) implies s.contains(c) by {
        let k = choose|k: int| 0 <= k < v.len() && v[k] == c;
    }
    vstd::set_lib::lemma_len_subset(v.to_set(), s);
}

/// Appends the cell at offset `(dx, dy, dz)` from `cell` to the search order when it is in
/// `remaining` and not yet in the order.
fn visit_offset(remaining: &VoxelSet, order: &mut Vec<Cell3>, cell: Cell3, dx: i32, dy: i32, dz: i32)
    requires
        -1 <= dx <= 1,
        -1 <= dy <= 1,
        -1 <= dz <= 1,
        abs_sum(dx as int, dy as int, dz as int) == 1,
        remaining.wf(),
        grounded(remaining@, cell),
        old(order)@.no_duplicates(),
        forall|k: int|
            0 <= k < old(order)@.len() ==> remaining@.contains(#[trigger] old(order)@[k])
                && grounded(remaining@, old(order)@[k]),
    ensures
        final(order)@.no_duplicates(),
        forall|k: int|
            0 <= k < final(order)@.len() ==> remaining@.contains(#[trigger] final(order)@[k])
                && grounded(remaining@, final(order)@[k]),
        extends(old(order)@, final(order)@),
        forall|c: Cell3|
            remaining@.contains(c) && is_offset(cell, dx as int, dy as int, dz as int, c)
                ==> #[trigger] final(order)@.contains(c),
{
    if let Some(neighbor) = offset_cell(cell, dx, dy, dz) {
        if remaining.contains(neighbor) && !seq_holds(order, neighbor) {
            proof {
                lemma_extend_grounded(remaining@, cell, neighbor);
            }
            let ghost before = order@;
            order.push(neighbor);
            assert(order@[before.len() as int] == neighbor);
            assert forall|c: Cell3|
                remaining@.contains(c) && is_offset(cell, dx as int, dy as int, dz as int, c)
                    implies #[trigger] order@.contains(c) by {
                assert(c == neighbor);
            }
        } else {
            assert forall|c: Cell3|
                remaining@.contains(c) && is_offset(cell, dx as int, dy as int, dz as int, c)
                    implies #[trigger] order@.contains(c) by {
                assert(c == neighbor);
            }
        }
    }
}

pub open spec fn abs_sum(dx: int, dy: int, dz: int) -> int {
    crate::voxel::abs(dx) + crate::voxel::abs(dy) + crate::voxel::abs(dz)
}

/// Whether removing `removed` from `cubes` leaves every remaining cube face-connected to
/// the Workbench floor. The search starts from every remaining floor cube and spreads
/// through shared faces.
pub fn removal_keeps_cubes_connected(cubes: &VoxelSet, removed: Cell3) -> (r: bool)
    requires
        cubes.wf(),
    ensures
        r == floor_connected(cubes@.remove(removed)),
{
    let source = cubes.cells();
    let mut remaining = VoxelSet::new();
    for i in 0..source.len()
        invariant
            remaining.wf(),
            remaining@ == source@.take(i as int).to_set().remove(removed),
    {
        let cell = source[i];
        if cell != removed {
            remaining.insert(cell);
        }
        proof {
            assert(source@.take(i + 1) =~= source@.take(i as int).push(cell));
            source@.take(i as int).lemma_push_to_set_commute(cell);
            assert(source@.take(i + 1).to_set().remove(removed) =~= remaining@);
        }
    }
    proof {
        assert(source@.take(source@.len() as int) =~= source@);
        cubes.lemma_order();
        remaining.lemma_order();
    }
    let ghost rs = remaining@;
    if remaining.is_empty() {
        return true;
    }

    // Every floor cube starts the search.
    let cells = remaining.cells();
    let mut order: Vec<Cell3> = Vec::new();
    let ghost mut taken: Seq<int> = Seq::empty();
    for i in 0..cells.len()
        invariant
            cells@ == remaining.order(),
            remaining.order().no_duplicates(),
            remaining.order().to_set() == rs,
            rs == remaining@,
            order@.no_duplicates(),
            taken.len() == order@.len(),
            forall|k: int|
                0 <= k < order@.len() ==> 0 <= #[trigger] taken[k] < i && cells@[taken[k]]
                    == order@[k],
            forall|k: int|
                0 <= k < order@.len() ==> rs.contains(#[trigger] order@[k]) && grounded(
                    rs,
                    order@[k],
                ),
            forall|j: int| 0 <= j < i && on_floor(cells@[j]) ==> order@.contains(#[trigger] cells@[j]),
    {
        let cell = cells[i];
        if cell.y == 0 {
            proof {
                assert(rs.contains(cell));
                lemma_floor_grounded(rs, cell);
                assert(!order@.contains(cell)) by {
                    if order@.contains(cell) {
                        let k = choose|k: int| 0 <= k < order@.len() && order@[k] == cell;
                        assert(cells@[taken[k]] == cells@[i as int]);
                    }
                }
            }
            let ghost before = order@;
            order.push(cell);
            proof {
                taken = taken.push(i as int);
                assert(order@[before.len() as int] == cell);
                assert forall|j: int| 0 <= j < i + 1 && on_floor(cells@[j]) implies order@.contains(
                    #[trigger] cells@[j],
                ) by {
                    if j < i {
                        let k = choose|k: int| 0 <= k < before.len() && before[k] == cells@[j];
                        assert(order@[k] == cells@[j]);
                    } else {
                        assert(order@[before.len() as int] == cells@[j]);
                    }
                }
            }
        }
    }
    proof {
        assert forall|x: Cell3| rs.contains(x) && on_floor(x) implies order@.contains(x) by {
            assert(remaining.order().to_set().contains(x));
            let j = choose|j: int| 0 <= j < cells@.len() && cells@[j] == x;
            assert(on_floor(cells@[j]));
        }
        lemma_unique_within_len(order@, rs);
    }

    // Breadth-first spread through shared faces.
    let total = remaining.len();
    let mut next: usize = 0;
    while next < order.len()
        invariant
            remaining.wf(),
            rs == remaining@,
            rs.finite(),
            total == rs.len(),
            next <= order@.len() <= total,
            order@.no_duplicates(),
            forall|k: int|
                0 <= k < order@.len() ==> rs.contains(#[trigger] order@[k]) && grounded(
                    rs,
                    order@[k],
                ),
            forall|x: Cell3| rs.contains(x) && on_floor(x) ==> #[trigger] order@.contains(x),
            forall|k: int, c: Cell3|
                0 <= k < next && rs.contains(c) && face_adjacent(order@[k], c)
                    ==> #[trigger] order@.contains(c) && #[trigger] order@[k] == order@[k],
        decreases total - next,
    {
        let cell = order[next];
        let ghost start = order@;
        visit_offset(&remaining, &mut order, cell, 1, 0, 0);
        let ghost o1 = order@;
        visit_offset(&remaining, &mut order, cell, -1, 0, 0);
        let ghost o2 = order@;
        visit_offset(&remaining, &mut order, cell, 0, 1, 0);
        let ghost o3 = order@;
        visit_offset(&remaining, &mut order, cell, 0, -1, 0);
        let ghost o4 = order@;
        visit_offset(&remaining, &mut order, cell, 0, 0, 1);
        let ghost o5 = order@;
        visit_offset(&remaining, &mut order, cell, 0, 0, -1);
        proof {
            lemma_unique_within_len(order@, rs);
            // Cells held before the visits are still held, at the same places.
            lemma_extends_trans(o4, o5, order@);
            lemma_extends_trans(o3, o4, order@);
            lemma_extends_trans(o2, o3, order@);
            lemma_extends_trans(o1, o2, order@);
            lemma_extends_trans(start, o1, order@);
            lemma_extends_holds(start, order@);
            lemma_extends_holds(o1, order@);
            lemma_extends_holds(o2, order@);
            lemma_extends_holds(o3, order@);
            lemma_extends_holds(o4, order@);
            lemma_extends_holds(o5, order@);
            assert forall|x: Cell3| rs.contains(x) && on_floor(x) implies #[trigger] order@.contains(x) by {
                assert(start.contains(x));
            }
            assert forall|k: int, c: Cell3|
                0 <= k < next + 1 && rs.contains(c) && face_adjacent(order@[k], c)
                    implies #[trigger] order@.contains(c) && #[trigger] order@[k] == order@[k] by {
                assert(order@[k] == start[k]);
                if k < next {
                    assert(start.contains(c));
                } else {
                    assert(start[k] == cell);
                    lemma_face_adjacent_offsets(cell, c);
                    assert(o1.contains(c) || o2.contains(c) || o3.contains(c) || o4.contains(c)
                        || o5.contains(c) || order@.contains(c));
                }
            }
        }
        next += 1;
    }

    let r = order.len() == total;
    proof {
        let o = order@.to_set();
        lemma_unique_within_len(order@, rs);
        assert forall|a: Cell3, b: Cell3|
            o.contains(a) && rs.contains(b) && face_adjacent(a, b) implies #[trigger] o.contains(b)
                && #[trigger] o.contains(a) by {
            let k = choose|k: int| 0 <= k < order@.len() && order@[k] == a;
            assert(order@[k] == order@[k]);
        }
        if r {
            vstd::set_lib::lemma_subset_equality(o, rs);
            assert forall|c: Cell3| rs.contains(c) implies #[trigger] grounded(rs, c) by {
                assert(o.contains(c));
                let k = choose|k: int| 0 <= k < order@.len() && order@[k] == c;
            }
        } else {
            if forall|c: Cell3| rs.contains(c) ==> o.contains(c) {
                assert(rs.subset_of(o));
                vstd::set_lib::lemma_len_subset(rs, o);
                assert(false);
            }
            let c = choose|c: Cell3| rs.contains(c) && !o.contains(c);
            if grounded(rs, c) {
                let p = choose|p: Seq<Cell3>| #[trigger] is_path(rs, p) && on_floor(p[0]) && p.last() == c;
                lemma_closed_holds_path_end(rs, o, p);
            }
        }
    }
    r
}

/// Whether a Builder Cell shares a face with some cube of `cubes`.
pub fn builder_has_neighbor(cubes: &VoxelSet, cell: Cell3) -> (r: bool)
    ensures
        r == exists|c: Cell3| cubes@.contains(c) && #[trigger] face_adjacent(cell, c),
{
    let r = holds_offset(cubes, cell, 1, 0, 0) || holds_offset(cubes, cell, -1, 0, 0)
        || holds_offset(cubes, cell, 0, 1, 0) || holds_offset(cubes, cell, 0, -1, 0)
        || holds_offset(cubes, cell, 0, 0, 1) || holds_offset(cubes, cell, 0, 0, -1);
    proof {
        if exists|c: Cell3| cubes@.contains(c) && #[trigger] face_adjacent(cell, c) {
            let c = choose|c: Cell3| cubes@.contains(c) && #[trigger] face_adjacent(cell, c);
            lemma_face_adjacent_offsets(cell, c);
        }
    }
    r
}

/// Whether `cubes` holds the cell at offset `(dx, dy, dz)` from `cell`.
fn holds_offset(cubes: &VoxelSet, cell: Cell3, dx: i32, dy: i32, dz: i32) -> (r: bool)
    requires
        -1 <= dx <= 1,
        -1 <= dy <= 1,
        -1 <= dz <= 1,
        abs_sum(dx as int, dy as int, dz as int) == 1,
    ensures
        r == exists|c: Cell3| cubes@.contains(c) && #[trigger] is_offset(cell, dx as int, dy as int, dz as int, c),
        r ==> exists|c: Cell3| cubes@.contains(c) && #[trigger] face_adjacent(cell, c),
{
    match offset_cell(cell, dx, dy, dz) {
        Some(neighbor) => {
            let r = cubes.contains(neighbor);
            proof {
                if r {
                    assert(face_adjacent(cell, neighbor));
                }
                assert forall|c: Cell3| #[trigger] is_offset(cell, dx as int, dy as int, dz as int, c) implies c == neighbor by {}
            }
            r
        },
        None => false,
    }
}

} // verus!
