use vstd::prelude::*;
use vstd::arithmetic::div_mod::{lemma_div_is_ordered, lemma_div_plus_one};
use crate::math::{Vect, ediv, true_dist2};

verus! {

/// What the grid stores for one particle: its owning model, its index inside
/// that model, and whether the model is a boundary.
#[derive(Clone, Copy, Debug, PartialEq, Eq, Structural)]
pub struct Payload {
    pub model: usize,
    pub particle: usize,
    pub boundary: bool,
}

/// One non-empty cell of the spatial hash grid.
pub struct GridCell {
    pub cx: i64,
    pub cy: i64,
    pub parts: Vec<Payload>,
}

/// A uniform spatial hash grid: buckets points into square cells whose side is
/// the interaction radius, so that all neighbors of a point within that radius
/// lie in the 3x3 block of cells around the point's own cell.
pub struct HGrid {
    pub cell_size: i64,
    pub cells: Vec<GridCell>,
}

/// The coordinates of the cell containing a point, for cell side `h`.
pub open spec fn cell_of_spec(p: Vect, h: int) -> (int, int) {
    (p.x as int / h, p.y as int / h)
}

/// First index at or after `i` whose cell has the given coordinates.
pub open spec fn find_from(cells: Seq<GridCell>, cx: int, cy: int, i: int) -> Option<int>
    decreases cells.len() - i,
{
    if i < 0 || i >= cells.len() {
        None
    } else if cells[i].cx as int == cx && cells[i].cy as int == cy {
        Some(i)
    } else {
        find_from(cells, cx, cy, i + 1)
    }
}

/// The payloads stored in the cell with the given coordinates, in insertion
/// order; empty if the grid has no such cell.
pub open spec fn cell_parts(cells: Seq<GridCell>, cx: int, cy: int) -> Seq<Payload> {
    match find_from(cells, cx, cy, 0) {
        Some(k) => cells[k].parts@,
        None => Seq::empty(),
    }
}

impl HGrid {
    /// The grid's contents at one cell coordinate.
    pub open spec fn parts_at(self, cx: int, cy: int) -> Seq<Payload> {
        cell_parts(self.cells@, cx, cy)
    }

    pub open spec fn wf(self) -> bool {
        self.cell_size >= 1
    }

    /// A fresh, empty grid with the given cell side (the interaction radius).
    pub fn new(cell_size: i64) -> (r: HGrid)
        requires
            cell_size >= 1,
        ensures
            r.wf(),
            r.cell_size == cell_size,
            forall|cx: int, cy: int| #[trigger] r.parts_at(cx, cy) == Seq::<Payload>::empty(),
    {
        let g = HGrid { cell_size, cells: Vec::new() };
        proof {
            assert forall|cx: int, cy: int| #[trigger] g.parts_at(cx, cy) == Seq::<Payload>::empty() by {
                reveal(find_from);
            }
        }
        g
    }

    /// Index of the cell with the given coordinates, if the grid has one.
    pub fn find_cell(&self, cx: i64, cy: i64) -> (r: Option<usize>)
        ensures
            match r {
                Some(k) => {
                    &&& find_from(self.cells@, cx as int, cy as int, 0) == Some(k as int)
                    &&& k < self.cells@.len()
                    &&& self.cells@[k as int].cx == cx
                    &&& self.cells@[k as int].cy == cy
                    &&& self.parts_at(cx as int, cy as int) == self.cells@[k as int].parts@
                },
                None => {
                    &&& find_from(self.cells@, cx as int, cy as int, 0) is None
                    &&& self.parts_at(cx as int, cy as int) == Seq::<Payload>::empty()
                },
            },
    {
        let n = self.cells.len();
        let mut i: usize = 0;
        while i < n
            invariant
                i <= n,
                n == self.cells@.len(),
                find_from(self.cells@, cx as int, cy as int, 0) == find_from(
                    self.cells@,
                    cx as int,
                    cy as int,
                    i as int,
                ),
            decreases n - i,
        {
            let c = &self.cells[i];
            if c.cx == cx && c.cy == cy {
                return Some(i);
            }
            i = i + 1;
        }
        None
    }

    /// Buckets one payload into the cell containing `point`. Every other
    /// cell's contents are untouched.
    pub fn insert(&mut self, point: &Vect, payload: Payload)
        requires
            old(self).wf(),
        ensures
            final(self).wf(),
            final(self).cell_size == old(self).cell_size,
            ({
                let c = cell_of_spec(*point, old(self).cell_size as int);
                &&& final(self).parts_at(c.0, c.1) == old(self).parts_at(c.0, c.1).push(payload)
                &&& forall|cx: int, cy: int|
                    (cx, cy) != c ==> #[trigger] final(self).parts_at(cx, cy) == old(self).parts_at(cx, cy)
            }),
    {
        let cx = ediv(point.x, self.cell_size);
        let cy = ediv(point.y, self.cell_size);
        let found = self.find_cell(cx, cy);
        match found {
            Some(k) => {
                let ghost oldcells = self.cells@;
                let cell = &mut self.cells[k];
                cell.parts.push(payload);
                proof {
                    assert(self.cells@ =~= oldcells.update(
                        k as int,
                        GridCell {
                            cx: oldcells[k as int].cx,
                            cy: oldcells[k as int].cy,
                            parts: self.cells@[k as int].parts,
                        },
                    ));
                    lemma_find_from_update_parts(oldcells, self.cells@, k as int);
                }
            },
            None => {
                let ghost oldcells = self.cells@;
                let mut parts: Vec<Payload> = Vec::new();
                parts.push(payload);
                self.cells.push(GridCell { cx, cy, parts });
                proof {
                    lemma_find_from_push(oldcells, self.cells@[oldcells.len() as int]);
                }
            },
        }
    }
}

/// Replacing one cell's payload list changes `find_from` nowhere and
/// `cell_parts` only at that cell's coordinates.
proof fn lemma_find_from_update_parts(oldc: Seq<GridCell>, newc: Seq<GridCell>, k: int)
    requires
        0 <= k < oldc.len(),
        newc.len() == oldc.len(),
        newc[k].cx == oldc[k].cx,
        newc[k].cy == oldc[k].cy,
        forall|i: int| 0 <= i < oldc.len() && i != k ==> newc[i] == oldc[i],
    ensures
        forall|cx: int, cy: int, i: int|
            #[trigger] find_from(newc, cx, cy, i) == find_from(oldc, cx, cy, i),
        forall|cx: int, cy: int|
            !(oldc[k].cx as int == cx && oldc[k].cy as int == cy) ==> #[trigger] cell_parts(newc, cx, cy)
                == cell_parts(oldc, cx, cy),
{
    assert forall|cx: int, cy: int, i: int|
        #[trigger] find_from(newc, cx, cy, i) == find_from(oldc, cx, cy, i) by {
        lemma_find_from_same_coords(oldc, newc, cx, cy, i);
    }
    assert forall|cx: int, cy: int|
        !(oldc[k].cx as int == cx && oldc[k].cy as int == cy) implies #[trigger] cell_parts(newc, cx, cy)
        == cell_parts(oldc, cx, cy) by {
        lemma_find_from_some(oldc, cx, cy, 0);
        if find_from(oldc, cx, cy, 0) is Some {
            let j = find_from(oldc, cx, cy, 0)->Some_0;
            assert(j != k);
            assert(newc[j] == oldc[j]);
        }
    }
}

/// A successful `find_from` yields an index in range whose cell has the
/// searched coordinates.
proof fn lemma_find_from_some(cells: Seq<GridCell>, cx: int, cy: int, i: int)
    ensures
        match find_from(cells, cx, cy, i) {
            Some(j) => i <= j < cells.len() && cells[j].cx as int == cx && cells[j].cy as int == cy,
            None => true,
        },
    decreases cells.len() - i,
{
    if i < 0 || i >= cells.len() {
    } else if cells[i].cx as int == cx && cells[i].cy as int == cy {
    } else {
        lemma_find_from_some(cells, cx, cy, i + 1);
    }
}

/// `find_from` only looks at coordinates, so sequences with equal coordinates
/// agree on it.
proof fn lemma_find_from_same_coords(oldc: Seq<GridCell>, newc: Seq<GridCell>, cx: int, cy: int, i: int)
    requires
        newc.len() == oldc.len(),
        forall|j: int|
            0 <= j < oldc.len() ==> (#[trigger] newc[j]).cx == oldc[j].cx && newc[j].cy == oldc[j].cy,
    ensures
        find_from(newc, cx, cy, i) == find_from(oldc, cx, cy, i),
    decreases oldc.len() - i,
{
    if i < 0 || i >= oldc.len() {
    } else if oldc[i].cx as int == cx && oldc[i].cy as int == cy {
    } else {
        lemma_find_from_same_coords(oldc, newc, cx, cy, i + 1);
    }
}

/// Appending a fresh cell leaves every existing coordinate's contents
/// unchanged, and makes the new cell's parts its contents.
proof fn lemma_find_from_push(oldc: Seq<GridCell>, cell: GridCell)
    requires
        find_from(oldc, cell.cx as int, cell.cy as int, 0) is None,
    ensures
        cell_parts(oldc.push(cell), cell.cx as int, cell.cy as int) == cell.parts@,
        forall|cx: int, cy: int|
            !(cell.cx as int == cx && cell.cy as int == cy) ==> #[trigger] cell_parts(oldc.push(cell), cx, cy)
                == cell_parts(oldc, cx, cy),
{
    lemma_find_from_push_rec(oldc, cell, cell.cx as int, cell.cy as int, 0);
    assert forall|cx: int, cy: int|
        !(cell.cx as int == cx && cell.cy as int == cy) implies #[trigger] cell_parts(oldc.push(cell), cx, cy)
        == cell_parts(oldc, cx, cy) by {
        lemma_find_from_push_rec(oldc, cell, cx, cy, 0);
        lemma_find_from_some(oldc, cx, cy, 0);
        if find_from(oldc, cx, cy, 0) is Some {
            let j = find_from(oldc, cx, cy, 0)->Some_0;
            assert(oldc.push(cell)[j] == oldc[j]);
        }
    }
}

/// How `find_from` behaves on a sequence extended by one cell.
proof fn lemma_find_from_push_rec(oldc: Seq<GridCell>, cell: GridCell, cx: int, cy: int, i: int)
    requires
        0 <= i <= oldc.len(),
    ensures
        find_from(oldc.push(cell), cx, cy, i) == if find_from(oldc, cx, cy, i) is Some {
            find_from(oldc, cx, cy, i)
        } else if cell.cx as int == cx && cell.cy as int == cy {
            Some(oldc.len() as int)
        } else {
            None::<int>
        },
    decreases oldc.len() + 1 - i,
{
    let newc = oldc.push(cell);
    if i == oldc.len() {
        assert(newc[i] == cell);
        if !(cell.cx as int == cx && cell.cy as int == cy) {
            assert(find_from(newc, cx, cy, i + 1) is None);
        }
    } else {
        assert(newc[i] == oldc[i]);
        if newc[i].cx as int == cx && newc[i].cy as int == cy {
        } else {
            lemma_find_from_push_rec(oldc, cell, cx, cy, i + 1);
        }
    }
}

/// The 3x3 block of cells around `(cx, cy)`, flattened in a fixed slot order:
/// slot `t` (for `0 <= t < 9`) is the cell at `(cx + t/3 - 1, cy + t%3 - 1)`.
pub open spec fn neighborhood_upto(g: HGrid, cx: int, cy: int, t: int) -> Seq<Payload>
    decreases t,
{
    if t <= 0 {
        Seq::empty()
    } else {
        neighborhood_upto(g, cx, cy, t - 1) + g.parts_at(cx + (t - 1) / 3 - 1, cy + (t - 1) % 3 - 1)
    }
}

/// Every payload bucketed within one cell of `(cx, cy)`, in slot order then
/// insertion order: the candidate neighbors of a particle in that cell.
pub open spec fn neighborhood(g: HGrid, cx: int, cy: int) -> Seq<Payload> {
    neighborhood_upto(g, cx, cy, 9)
}

impl HGrid {
    /// Every non-empty cell, with its coordinates and its residents in
    /// insertion order.
    pub fn cells(&self) -> (r: &Vec<GridCell>)
        ensures
            r == &self.cells,
    {
        &self.cells
    }

    /// Gathers the bounded candidate set for one cell: the contents of the
    /// 3x3 block of cells around it, in slot order.
    pub fn neighbor_candidates(&self, cx: i64, cy: i64) -> (r: Vec<Payload>)
        requires
            -4_000_000 <= cx <= 4_000_000,
            -4_000_000 <= cy <= 4_000_000,
        ensures
            r@ == neighborhood(*self, cx as int, cy as int),
    {
        let mut out: Vec<Payload> = Vec::new();
        let mut t: usize = 0;
        while t < 9
            invariant
                t <= 9,
                -4_000_000 <= cx <= 4_000_000,
                -4_000_000 <= cy <= 4_000_000,
                out@ == neighborhood_upto(*self, cx as int, cy as int, t as int),
            decreases 9 - t,
        {
            let dx = (t / 3) as i64 - 1;
            let dy = (t % 3) as i64 - 1;
            let ncx = cx + dx;
            let ncy = cy + dy;
            match self.find_cell(ncx, ncy) {
                Some(k) => {
                    let parts = &self.cells[k].parts;
                    let m = parts.len();
                    let mut j: usize = 0;
                    while j < m
                        invariant
                            j <= m,
                            m == parts@.len(),
                            parts@ == self.parts_at(ncx as int, ncy as int),
                            out@ == neighborhood_upto(*self, cx as int, cy as int, t as int) + parts@.take(
                                j as int,
                            ),
                        decreases m - j,
                    {
                        out.push(parts[j]);
                        proof {
                            assert(parts@.take(j as int + 1) =~= parts@.take(j as int).push(parts@[j as int]));
                        }
                        j = j + 1;
                    }
                    proof {
                        assert(parts@.take(m as int) =~= parts@);
                    }
                },
                None => {
                    proof {
                        assert(out@ =~= out@ + Seq::<Payload>::empty());
                    }
                },
            }
            t = t + 1;
        }
        out
    }
}

/// Two points within true distance `h` of each other land in the same cell or
/// in directly adjacent cells.
pub proof fn lemma_cells_adjacent(a: Vect, b: Vect, h: int)
    requires
        h >= 1,
        true_dist2(a, b) <= h * h,
    ensures
        -1 <= cell_of_spec(a, h).0 - cell_of_spec(b, h).0 <= 1,
        -1 <= cell_of_spec(a, h).1 - cell_of_spec(b, h).1 <= 1,
{
    let dx = a.x - b.x;
    let dy = a.y - b.y;
    assert(dx * dx <= h * h && dy * dy <= h * h) by (nonlinear_arith)
        requires
            true_dist2(a, b) <= h * h,
            dx == a.x - b.x,
            dy == a.y - b.y,
    ;
    assert(-h <= dx <= h && -h <= dy <= h) by (nonlinear_arith)
        requires
            dx * dx <= h * h,
            dy * dy <= h * h,
            h >= 1,
    ;
    lemma_coord_adjacent(a.x as int, b.x as int, h);
    lemma_coord_adjacent(a.y as int, b.y as int, h);
}

/// One-dimensional form: coordinates within `h` give cell indices within one.
proof fn lemma_coord_adjacent(x: int, y: int, h: int)
    requires
        h >= 1,
        -h <= x - y <= h,
    ensures
        -1 <= x / h - y / h <= 1,
{
    lemma_div_is_ordered(y - h, x, h);
    lemma_div_is_ordered(x, y + h, h);
    lemma_div_plus_one(y, h);
    assert((y - h) / h == y / h - 1) by {
        lemma_div_plus_one(y - h, h);
        assert(h + (y - h) == y);
    }
    assert((y + h) / h == y / h + 1) by {
        assert(h + y == y + h);
    }
}

} // verus!
