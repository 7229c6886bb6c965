//! A uniform grid that files each id under the cell that holds it, so that the
//! ids near a region are found by visiting the few cells that cover it.
//!
//! Cells are addressed by integer coordinates; turning a world position into a
//! cell (division by the cell size and rounding down) is done by the caller.
use std::collections::HashMap;
use std::collections::HashSet;
use vstd::prelude::*;
use vstd::std_specs::iter::IteratorSpec;

verus! {

broadcast use vstd::std_specs::hash::group_hash_axioms;

/// The key under which a cell is filed: the two coordinates shifted into
/// `0..2^32` and packed into one word, `x` above `y`.
pub open spec fn cell_key(cell: (i32, i32)) -> u64 {
    ((cell.0 + 2147483648) * 4294967296 + (cell.1 + 2147483648)) as u64
}

/// Different cells never share a key.
pub proof fn lemma_cell_key_injective(a: (i32, i32), b: (i32, i32))
    ensures
        cell_key(a) == cell_key(b) <==> a == b,
{
    let a0 = a.0 + 2147483648;
    let a1 = a.1 + 2147483648;
    let b0 = b.0 + 2147483648;
    let b1 = b.1 + 2147483648;
    assert(0 <= a0 * 4294967296 + a1 < 18446744073709551616) by (nonlinear_arith)
        requires
            0 <= a0 < 4294967296,
            0 <= a1 < 4294967296,
    ;
    assert(0 <= b0 * 4294967296 + b1 < 18446744073709551616) by (nonlinear_arith)
        requires
            0 <= b0 < 4294967296,
            0 <= b1 < 4294967296,
    ;
    if a0 * 4294967296 + a1 == b0 * 4294967296 + b1 {
        assert(a0 == b0 && a1 == b1) by (nonlinear_arith)
            requires
                a0 * 4294967296 + a1 == b0 * 4294967296 + b1,
                0 <= a1 < 4294967296,
                0 <= b1 < 4294967296,
        ;
    }
}

fn cell_key_of(x: i32, y: i32) -> (k: u64)
    ensures
        k == cell_key((x, y)),
{
    let a: u64 = (x as i64 + 2147483648i64) as u64;
    let b: u64 = (y as i64 + 2147483648i64) as u64;
    assert(a * 4294967296 + b < 18446744073709551616) by (nonlinear_arith)
        requires
            a < 4294967296,
            b < 4294967296,
    ;
    a * 4294967296 + b
}

/// Whether `cell` lies in the half-open rectangle `[x_min, x_max) x [y_min, y_max)`.
pub open spec fn cell_in_rect(cell: (i32, i32), x_min: i32, y_min: i32, x_max: i32, y_max: i32) -> bool {
    &&& x_min <= cell.0 < x_max
    &&& y_min <= cell.1 < y_max
}

/// Cells ordered by column first, then by row.
pub open spec fn cell_le(a: (i32, i32), b: (i32, i32)) -> bool {
    a.0 < b.0 || (a.0 == b.0 && a.1 <= b.1)
}

/// Ids filed under the cells of a grid.
pub struct SpatialMap {
    cells: HashMap<u64, HashSet<usize>>,
    location: HashMap<usize, (i32, i32)>,
}

impl View for SpatialMap {
    type V = Map<usize, (i32, i32)>;

    /// Each id in the map, with the cell it is filed under.
    closed spec fn view(&self) -> Map<usize, (i32, i32)> {
        self.location@
    }
}

impl SpatialMap {
    /// The cell index agrees with the locations: an id sits in the set of a
    /// cell exactly when that cell is its location.
    pub closed spec fn wf(&self) -> bool {
        &&& forall|id: usize| #[trigger]
            self.location@.contains_key(id) ==> {
                &&& self.cells@.contains_key(cell_key(self.location@[id]))
                &&& self.cells@[cell_key(self.location@[id])]@.contains(id)
            }
        &&& forall|k: u64, id: usize|
            self.cells@.contains_key(k) && #[trigger] self.cells@[k]@.contains(id) ==> {
                &&& self.location@.contains_key(id)
                &&& cell_key(self.location@[id]) == k
            }
    }

    /// An empty map.
    pub fn new() -> (res: Self)
        ensures
            res.wf(),
            res@ == Map::<usize, (i32, i32)>::empty(),
    {
        SpatialMap { cells: HashMap::new(), location: HashMap::new() }
    }

    /// Takes `id` out of the map; answers whether it was there.
    pub fn remove(&mut self, id: usize) -> (was_present: bool)
        requires
            old(self).wf(),
        ensures
            final(self).wf(),
            was_present == old(self)@.contains_key(id),
            final(self)@ == old(self)@.remove(id),
    {
        match self.location.remove(&id) {
            Some(cell) => {
                let k = cell_key_of(cell.0, cell.1);
                let ghost old_cells = self.cells@;
                match self.cells.remove(&k) {
                    Some(mut ids) => {
                        ids.remove(&id);
                        self.cells.insert(k, ids);
                        assert forall|i: usize| #[trigger]
                            self.location@.contains_key(i) implies {
                                &&& self.cells@.contains_key(cell_key(self.location@[i]))
                                &&& self.cells@[cell_key(self.location@[i])]@.contains(i)
                            } by {
                            assert(old(self).location@.contains_key(i));
                        }
                        assert forall|kk: u64, i: usize|
                            self.cells@.contains_key(kk) && #[trigger] self.cells@[kk]@.contains(i) implies {
                                &&& self.location@.contains_key(i)
                                &&& cell_key(self.location@[i]) == kk
                            } by {
                            assert(old_cells.contains_key(kk) && old_cells[kk]@.contains(i));
                        }
                    },
                    None => {
                        assert(false);
                    },
                }
                true
            },
            None => {
                assert(self.location@ == old(self).location@.remove(id));
                false
            },
        }
    }

    /// Files `id` under `cell`, moving it there if it was filed elsewhere.
    pub fn insert(&mut self, id: usize, cell: (i32, i32))
        requires
            old(self).wf(),
        ensures
            final(self).wf(),
            final(self)@ == old(self)@.insert(id, cell),
    {
        self.remove(id);
        let ghost mid = *self;
        let k = cell_key_of(cell.0, cell.1);
        let mut ids = match self.cells.remove(&k) {
            Some(ids) => ids,
            None => HashSet::new(),
        };
        ids.insert(id);
        self.cells.insert(k, ids);
        self.location.insert(id, cell);
        assert forall|i: usize| #[trigger]
            self.location@.contains_key(i) implies {
                &&& self.cells@.contains_key(cell_key(self.location@[i]))
                &&& self.cells@[cell_key(self.location@[i])]@.contains(i)
            } by {
            if i != id {
                assert(mid.location@.contains_key(i));
            }
        }
        assert forall|kk: u64, i: usize|
            self.cells@.contains_key(kk) && #[trigger] self.cells@[kk]@.contains(i) implies {
                &&& self.location@.contains_key(i)
                &&& cell_key(self.location@[i]) == kk
            } by {
            if i != id {
                if kk != k {
                    assert(mid.cells@.contains_key(kk) && mid.cells@[kk]@.contains(i));
                } else if mid.cells@.contains_key(k) {
                    assert(mid.cells@[kk]@.contains(i));
                }
            }
        }
    }
    /// The ids filed under the cells of the half-open rectangle
    /// `[x_min, x_max) x [y_min, y_max)`, cell after cell in column-major order;
    /// within one cell they come in the order of its hash set.
    pub fn lookup(&self, x_min: i32, y_min: i32, x_max: i32, y_max: i32) -> (ids: Vec<usize>)
        requires
            self.wf(),
        ensures
            ids@.no_duplicates(),
            forall|id: usize|
                ids@.contains(id) <==> (self@.contains_key(id) && cell_in_rect(
                    self@[id],
                    x_min,
                    y_min,
                    x_max,
                    y_max,
                )),
            forall|i: int, j: int|
                0 <= i < j < ids.len() ==> cell_le(self@[ids@[i]], self@[ids@[j]]),
    {
        let mut ids: Vec<usize> = Vec::new();
        let mut x = x_min;
        while x < x_max
            invariant
                self.wf(),
                x_min <= x,
                ids@.no_duplicates(),
                forall|id: usize|
                    ids@.contains(id) <==> (self@.contains_key(id) && cell_in_rect(
                        self@[id],
                        x_min,
                        y_min,
                        if x < x_max { x } else { x_max },
                        y_max,
                    )),
                forall|i: int| 0 <= i < ids.len() ==> self@.contains_key(#[trigger] ids@[i]),
                forall|i: int| 0 <= i < ids.len() ==> self@[#[trigger] ids@[i]].0 < x,
                forall|i: int, j: int|
                    0 <= i < j < ids.len() ==> cell_le(self@[ids@[i]], self@[ids@[j]]),
            decreases x_max - x,
        {
            let mut y = y_min;
            let ghost before = ids@;
            while y < y_max
                invariant
                    self.wf(),
                    x_min <= x < x_max,
                    y_min <= y,
                    y <= y_max || y == y_min,
                    ids@.no_duplicates(),
                    forall|id: usize|
                        ids@.contains(id) <==> (self@.contains_key(id) && (cell_in_rect(
                            self@[id],
                            x_min,
                            y_min,
                            x,
                            y_max,
                        ) || (self@[id].0 == x && y_min <= self@[id].1 < y))),
                    forall|i: int| 0 <= i < ids.len() ==> self@.contains_key(#[trigger] ids@[i]),
                    forall|i: int, j: int|
                        0 <= i < j < ids.len() ==> cell_le(self@[ids@[i]], self@[ids@[j]]),
                    forall|i: int|
                        0 <= i < ids.len() ==> cell_le(self@[#[trigger] ids@[i]], (x, y)),
                decreases y_max - y,
            {
                let k = cell_key_of(x, y);
                match self.cells.get(&k) {
                    Some(cell_ids) => {
                        let ghost start = ids@;
                        let ghost keys = vstd::std_specs::hash::spec_hash_keys_iter(cell_ids).remaining();
                        for id in it: cell_ids.iter()
                            invariant
                                self.wf(),
                                self.cells@.contains_key(k),
                                self.cells@[k] == *cell_ids,
                                k == cell_key((x, y)),
                                x_min <= x < x_max,
                                y_min <= y < y_max,
                                it.seq() == keys,
                                ids@ == start + keys.take(it.index() as int).unref(),
                                start.no_duplicates(),
                                forall|id: usize|
                                    start.contains(id) <==> (self@.contains_key(id) && (cell_in_rect(
                                        self@[id],
                                        x_min,
                                        y_min,
                                        x,
                                        y_max,
                                    ) || (self@[id].0 == x && y_min <= self@[id].1 < y))),
                                forall|i: int| 0 <= i < start.len() ==> self@.contains_key(#[trigger] start[i]),
                                forall|i: int, j: int|
                                    0 <= i < j < start.len() ==> cell_le(self@[start[i]], self@[start[j]]),
                                forall|i: int|
                                    0 <= i < start.len() ==> cell_le(self@[#[trigger] start[i]], (x, y)),
                        {
                            ids.push(*id);
                        }
                        proof {
                            let pushed = keys.unref();
                            assert(ids@ =~= start + pushed);
                            assert(keys.unref().to_set() == cell_ids@);
                            assert forall|i: int| 0 <= i < pushed.len() implies self@.contains_key(
                                #[trigger] pushed[i],
                            ) && self@[pushed[i]] == (x, y) by {
                                assert(pushed.to_set().contains(pushed[i]));
                                assert(self.cells@[k]@.contains(pushed[i]));
                                lemma_cell_key_injective(self@[pushed[i]], (x, y));
                            }
                            assert forall|id: usize| self.cells@[k]@.contains(id) implies #[trigger] pushed.contains(id) by {
                                assert(pushed.to_set().contains(id));
                            }
                            assert forall|i: int, j: int| 0 <= i < j < ids@.len() implies ids@[i] != ids@[j] by {
                                if j >= start.len() && i >= start.len() {
                                    assert(keys.no_duplicates());
                                    assert(keys[i - start.len()] != keys[j - start.len()]);
                                } else if j >= start.len() {
                                    assert(self@[pushed[j - start.len()]] == (x, y));
                                    assert(start.contains(start[i]));
                                } else {
                                    assert(start.no_duplicates());
                                }
                            }
                            assert forall|id: usize|
                                ids@.contains(id) <==> (self@.contains_key(id) && (cell_in_rect(
                                    self@[id],
                                    x_min,
                                    y_min,
                                    x,
                                    y_max,
                                ) || (self@[id].0 == x && y_min <= self@[id].1 < y + 1))) by {
                                if ids@.contains(id) {
                                    let i = choose|i: int| 0 <= i < ids@.len() && ids@[i] == id;
                                    if i >= start.len() {
                                        assert(pushed[i - start.len()] == id);
                                    } else {
                                        assert(start.contains(id));
                                    }
                                }
                                if self@.contains_key(id) && self@[id] == (x, y) {
                                    lemma_cell_key_injective(self@[id], (x, y));
                                    assert(pushed.contains(id));
                                    let i = choose|i: int| 0 <= i < pushed.len() && pushed[i] == id;
                                    assert(ids@[start.len() + i] == id);
                                } else if self@.contains_key(id) && (cell_in_rect(self@[id], x_min, y_min, x, y_max)
                                    || (self@[id].0 == x && y_min <= self@[id].1 < y)) {
                                    assert(start.contains(id));
                                    let i = choose|i: int| 0 <= i < start.len() && start[i] == id;
                                    assert(ids@[i] == id);
                                }
                            }
                            assert forall|i: int, j: int|
                                0 <= i < j < ids.len() implies cell_le(self@[ids@[i]], self@[ids@[j]]) by {
                                if j >= start.len() {
                                    assert(self@[pushed[j - start.len()]] == (x, y));
                                    if i >= start.len() {
                                        assert(self@[pushed[i - start.len()]] == (x, y));
                                    }
                                }
                            }
                        }
                    },
                    None => {
                        assert forall|id: usize|
                            ids@.contains(id) <==> (self@.contains_key(id) && (cell_in_rect(
                                self@[id],
                                x_min,
                                y_min,
                                x,
                                y_max,
                            ) || (self@[id].0 == x && y_min <= self@[id].1 < y + 1))) by {
                            if self@.contains_key(id) && self@[id] == (x, y) {
                                assert(false);
                            }
                        }
                    },
                }
                y = y + 1;
            }
            x = x + 1;
        }
        ids
    }
}

/// What a lookup gives back of a write: once `id` is filed under `cell`, a lookup
/// over a rectangle finds it exactly when the rectangle holds `cell`, and the other
/// ids keep their cells; once `id` is taken out, no lookup finds it.
pub proof fn lemma_lookup_after_write(
    m: Map<usize, (i32, i32)>,
    id: usize,
    cell: (i32, i32),
    x_min: i32,
    y_min: i32,
    x_max: i32,
    y_max: i32,
)
    ensures
        (m.insert(id, cell).contains_key(id) && cell_in_rect(m.insert(id, cell)[id], x_min, y_min, x_max, y_max))
            == cell_in_rect(cell, x_min, y_min, x_max, y_max),
        forall|other: usize|
            other != id ==> (#[trigger] m.insert(id, cell).contains_key(other) == m.contains_key(other) && (
            m.contains_key(other) ==> m.insert(id, cell)[other] == m[other])),
        !m.remove(id).contains_key(id),
{
}

} // verus!
