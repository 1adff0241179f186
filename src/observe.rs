//! The spatial index: a uniform grid of buckets that tells each agent which
//! peers it can see.
//!
//! Agents are named by their index in the caller's arrays. Each tick, in this
//! order: every agent's cell is recomputed from its position; every agent's
//! observed list is rebuilt from the buckets of its cell and the adjacent
//! cells, as they stood at the end of the previous tick; then the buckets are
//! cleared and refilled from the new cells.
use vstd::prelude::*;
use crate::fixed::{clamp_int, div_floor};
use crate::vector::Vec3;

verus! {

/// What the spatial index knows of one agent.
#[derive(Debug)]
pub struct Observable {
    /// The grid cell that holds the agent.
    pub cell: usize,
    /// The agents in this cell and the adjacent ones as the buckets stood
    /// when the list was made; the agent itself is among them once it is in
    /// a bucket, so readers skip it.
    pub observed: Vec<usize>,
}

/// The grid of buckets.
pub struct StuffsToObserve {
    stuff: Vec<Vec<usize>>,
    cell_size: i64,
    width: usize,
    depth: usize,
}

/// The cell coordinate along one axis: `floor(p / cs)` clamped into `[0, n)`.
pub open spec fn cell_coord(p: int, cs: int, n: int) -> int {
    clamp_int(p / cs, 0, n - 1)
}

/// The cell of the position `(px, py)` on a `w` by `d` grid with cells of
/// side `cs`; every position falls in cell 0 when `cs <= 0`.
pub open spec fn cell_of(px: int, py: int, cs: int, w: int, d: int) -> int {
    if cs <= 0 {
        0
    } else {
        cell_coord(px, cs, w) + cell_coord(py, cs, d) * w
    }
}

/// `s` with `v` appended when `b` holds.
pub open spec fn push_if(s: Seq<usize>, b: bool, v: int) -> Seq<usize> {
    if b {
        s.push(v as usize)
    } else {
        s
    }
}

/// The cells around cell `c` of a grid `w` wide with `n` cells: `c` itself,
/// then left, right, up, down, up-right, up-left, down-right, down-left,
/// each only where it lies on the grid without wrapping across a row.
pub open spec fn neighbor_cells(c: int, w: int, n: int) -> Seq<usize> {
    let left = c % w > 0;
    let right = c % w < w - 1;
    let up = c + w < n;
    let down = c >= w;
    let s = push_if(seq![c as usize], left, c - 1);
    let s = push_if(s, right, c + 1);
    let s = push_if(s, up, c + w);
    let s = push_if(s, down, c - w);
    let s = push_if(s, up && right, c + w + 1);
    let s = push_if(s, up && left, c + w - 1);
    let s = push_if(s, down && right, c - w + 1);
    push_if(s, down && left, c - w - 1)
}

/// The contents of the buckets `cells`, one after the other.
pub open spec fn gather(buckets: Seq<Seq<usize>>, cells: Seq<usize>) -> Seq<usize>
    decreases cells.len(),
{
    if cells.len() == 0 {
        seq![]
    } else {
        gather(buckets, cells.drop_last()) + buckets[cells.last() as int]
    }
}

/// The indices `i` with `cells[i] == b`, in increasing order.
pub open spec fn members(cells: Seq<usize>, b: int) -> Seq<usize>
    decreases cells.len(),
{
    if cells.len() == 0 {
        seq![]
    } else {
        members(cells.drop_last(), b) + if cells.last() == b {
            seq![(cells.len() - 1) as usize]
        } else {
            seq![]
        }
    }
}

/// The cells that the agents stand in.
pub open spec fn cells_of(obs: Seq<Observable>) -> Seq<usize> {
    obs.map_values(|o: Observable| o.cell)
}

/// What an agent in `cell` observes on `grid`: the contents of the buckets
/// of `cell` and of the cells around it, or nothing for a cell off the grid.
pub open spec fn observed_spec(grid: &StuffsToObserve, cell: int) -> Seq<usize> {
    if 0 <= cell < grid.spec_cells() {
        gather(grid.buckets(), neighbor_cells(cell, grid.spec_width(), grid.spec_cells()))
    } else {
        seq![]
    }
}

impl StuffsToObserve {
    pub closed spec fn spec_width(&self) -> int {
        self.width as int
    }

    pub closed spec fn spec_depth(&self) -> int {
        self.depth as int
    }

    pub closed spec fn spec_cell_size(&self) -> int {
        self.cell_size as int
    }

    /// The number of cells.
    pub open spec fn spec_cells(&self) -> int {
        self.spec_width() * self.spec_depth()
    }

    /// The contents of each bucket.
    pub closed spec fn buckets(&self) -> Seq<Seq<usize>> {
        self.stuff@.map_values(|b: Vec<usize>| b@)
    }

    /// One bucket per cell, on a grid at least one cell wide and deep.
    pub closed spec fn wf(&self) -> bool {
        &&& self.width >= 1
        &&& self.depth >= 1
        &&& self.width * self.depth <= usize::MAX
        &&& self.stuff@.len() == self.width * self.depth
    }

    /// What a well-formed grid promises its callers: at least one cell wide
    /// and deep, a cell count that fits in `usize`, and one bucket per cell.
    pub proof fn lemma_shape(&self)
        requires
            self.wf(),
        ensures
            self.spec_width() >= 1,
            self.spec_depth() >= 1,
            self.spec_cells() <= usize::MAX,
            self.buckets().len() == self.spec_cells(),
    {
    }

    /// An empty grid of `width` by `depth` cells of side `cell_size`.
    pub fn new(width: usize, depth: usize, cell_size: i64) -> (r: StuffsToObserve)
        requires
            width >= 1,
            depth >= 1,
            width * depth <= usize::MAX,
        ensures
            r.wf(),
            r.spec_width() == width,
            r.spec_depth() == depth,
            r.spec_cell_size() == cell_size,
            forall|b: int| 0 <= b < r.spec_cells() ==> (#[trigger] r.buckets()[b]).len() == 0,
    {
        let mut stuff: Vec<Vec<usize>> = Vec::new();
        let size = width * depth;
        let mut i: usize = 0;
        while i < size
            invariant
                i <= size,
                stuff@.len() == i,
                forall|b: int| 0 <= b < i ==> (#[trigger] stuff@[b])@.len() == 0,
            decreases size - i,
        {
            stuff.push(Vec::new());
            i += 1;
        }
        StuffsToObserve { stuff, cell_size, width, depth }
    }

    /// The cell of `pos` on this grid.
    pub fn cell_of(&self, pos: Vec3) -> (r: usize)
        requires
            self.wf(),
        ensures
            r as int == cell_of(
                pos.x as int,
                pos.y as int,
                self.spec_cell_size(),
                self.spec_width(),
                self.spec_depth(),
            ),
            r < self.spec_cells(),
    {
        hash_function(pos, self.cell_size, self.width, self.depth)
    }

    /// The cells around `cell` (see `neighbor_cells`): at most nine, never
    /// wrapping across a row or leaving the grid.
    pub fn collect_cells(&self, cell: usize) -> (r: Vec<usize>)
        requires
            self.wf(),
            cell < self.spec_cells(),
        ensures
            r@ == neighbor_cells(cell as int, self.spec_width(), self.spec_cells()),
            forall|k: int| 0 <= k < r@.len() ==> #[trigger] r@[k] < self.spec_cells(),
    {
        let w = self.width;
        let n = self.stuff.len();
        proof {
            lemma_neighbors_on_grid(cell as int, w as int, self.depth as int);
        }
        let col = cell % w;
        let left = col > 0;
        let right = col < w - 1;
        let up = cell < n - w;
        let down = cell >= w;
        let mut all_cells: Vec<usize> = Vec::new();
        all_cells.push(cell);
        if left {
            all_cells.push(cell - 1);
        }
        if right {
            all_cells.push(cell + 1);
        }
        if up {
            all_cells.push(cell + w);
        }
        if down {
            all_cells.push(cell - w);
        }
        if up && right {
            all_cells.push(cell + w + 1);
        }
        if up && left {
            all_cells.push(cell + w - 1);
        }
        if down && right {
            all_cells.push(cell - w + 1);
        }
        if down && left {
            all_cells.push(cell - w - 1);
        }
        all_cells
    }

    /// The agents in the buckets of `cell` and of the cells around it, bucket
    /// by bucket in the order of `collect_cells`.
    pub fn observed_of(&self, cell: usize) -> (r: Vec<usize>)
        requires
            self.wf(),
            cell < self.spec_cells(),
        ensures
            r@ == gather(
                self.buckets(),
                neighbor_cells(cell as int, self.spec_width(), self.spec_cells()),
            ),
    {
        let near_cells = self.collect_cells(cell);
        let mut observed: Vec<usize> = Vec::new();
        let mut i: usize = 0;
        while i < near_cells.len()
            invariant
                self.wf(),
                i <= near_cells@.len(),
                forall|k: int| 0 <= k < near_cells@.len() ==> #[trigger] near_cells@[k] < self.spec_cells(),
                observed@ == gather(self.buckets(), near_cells@.take(i as int)),
            decreases near_cells@.len() - i,
        {
            let bucket = &self.stuff[near_cells[i]];
            let mut j: usize = 0;
            while j < bucket.len()
                invariant
                    j <= bucket@.len(),
                    observed@ == gather(self.buckets(), near_cells@.take(i as int)) + bucket@.take(j as int),
                decreases bucket@.len() - j,
            {
                observed.push(bucket[j]);
                j += 1;
                assert(bucket@.take(j as int) =~= bucket@.take(j - 1) + seq![bucket@[j - 1]]);
            }
            assert(near_cells@.take(i + 1).drop_last() =~= near_cells@.take(i as int));
            assert(bucket@.take(j as int) =~= bucket@);
            i += 1;
        }
        assert(near_cells@.take(i as int) =~= near_cells@);
        observed
    }

    /// Puts each agent in the cell of its position: agent `i` stands at
    /// `positions[i]`.
    pub fn observation_system_update_cells(
        &self,
        observables: &mut Vec<Observable>,
        positions: &Vec<Vec3>,
    )
        requires
            self.wf(),
            old(observables)@.len() == positions@.len(),
        ensures
            final(observables)@.len() == old(observables)@.len(),
            forall|i: int|
                0 <= i < positions@.len() ==> {
                    &&& (#[trigger] final(observables)@[i]).cell as int == cell_of(
                        positions@[i].x as int,
                        positions@[i].y as int,
                        self.spec_cell_size(),
                        self.spec_width(),
                        self.spec_depth(),
                    )
                    &&& final(observables)@[i].observed == old(observables)@[i].observed
                },
    {
        let mut i: usize = 0;
        while i < observables.len()
            invariant
                self.wf(),
                observables@.len() == positions@.len(),
                old(observables)@.len() == positions@.len(),
                0 <= i <= positions@.len(),
                forall|k: int|
                    0 <= k < i ==> (#[trigger] observables@[k]).cell as int == cell_of(
                        positions@[k].x as int,
                        positions@[k].y as int,
                        self.spec_cell_size(),
                        self.spec_width(),
                        self.spec_depth(),
                    ),
                forall|k: int|
                    0 <= k < positions@.len() ==> (#[trigger] observables@[k]).observed == old(
                        observables,
                    )@[k].observed,
                forall|k: int|
                    i <= k < positions@.len() ==> #[trigger] observables@[k] == old(observables)@[k],
            decreases positions@.len() - i,
        {
            let cell = self.cell_of(positions[i]);
            observables[i].cell = cell;
            i += 1;
        }
    }

    /// Rebuilds every agent's observed list from the buckets as they stand:
    /// the agents of its cell and of the cells around it. An agent whose
    /// cell is off the grid observes nothing.
    pub fn observation_system_update_observed(&self, observables: &mut Vec<Observable>)
        requires
            self.wf(),
        ensures
            final(observables)@.len() == old(observables)@.len(),
            forall|i: int|
                0 <= i < old(observables)@.len() ==> {
                    &&& (#[trigger] final(observables)@[i]).cell == old(observables)@[i].cell
                    &&& final(observables)@[i].observed@ == observed_spec(
                        self,
                        old(observables)@[i].cell as int,
                    )
                },
    {
        let mut i: usize = 0;
        while i < observables.len()
            invariant
                self.wf(),
                observables@.len() == old(observables)@.len(),
                0 <= i <= observables@.len(),
                forall|k: int|
                    0 <= k < observables@.len() ==> (#[trigger] observables@[k]).cell == old(
                        observables,
                    )@[k].cell,
                forall|k: int|
                    0 <= k < i ==> (#[trigger] observables@[k]).observed@ == observed_spec(
                        self,
                        observables@[k].cell as int,
                    ),
            decreases observables@.len() - i,
        {
            let cell = observables[i].cell;
            let observed = if cell < self.stuff.len() {
                self.observed_of(cell)
            } else {
                Vec::new()
            };
            observables[i].observed = observed;
            i += 1;
        }
    }

    /// Empties every bucket, then puts each agent in the bucket of its cell,
    /// in the order of the agents. An agent whose cell is off the grid is in
    /// no bucket.
    pub fn observation_system_update_hashmap(&mut self, observables: &Vec<Observable>)
        requires
            old(self).wf(),
        ensures
            final(self).wf(),
            final(self).spec_width() == old(self).spec_width(),
            final(self).spec_depth() == old(self).spec_depth(),
            final(self).spec_cell_size() == old(self).spec_cell_size(),
            forall|b: int|
                0 <= b < final(self).spec_cells() ==> #[trigger] final(self).buckets()[b] == members(
                    cells_of(observables@),
                    b,
                ),
    {
        let n = self.stuff.len();
        let mut b: usize = 0;
        while b < n
            invariant
                self.wf(),
                n == self.stuff@.len(),
                self.width == old(self).width,
                self.depth == old(self).depth,
                self.cell_size == old(self).cell_size,
                0 <= b <= n,
                forall|k: int| 0 <= k < b ==> (#[trigger] self.stuff@[k])@.len() == 0,
            decreases n - b,
        {
            self.stuff[b].clear();
            b += 1;
        }
        let mut i: usize = 0;
        while i < observables.len()
            invariant
                self.wf(),
                n == self.stuff@.len(),
                self.width == old(self).width,
                self.depth == old(self).depth,
                self.cell_size == old(self).cell_size,
                0 <= i <= observables@.len(),
                forall|k: int|
                    0 <= k < n ==> (#[trigger] self.stuff@[k])@ == members(
                        cells_of(observables@.take(i as int)),
                        k,
                    ),
            decreases observables@.len() - i,
        {
            let cell = observables[i].cell;
            if cell < n {
                self.stuff[cell].push(i);
            }
            proof {
                assert(cells_of(observables@.take(i + 1)).drop_last() =~= cells_of(
                    observables@.take(i as int),
                ));
            }
            i += 1;
        }
        proof {
            assert(observables@.take(i as int) =~= observables@);
        }
    }

    /// One tick of the index: cells from `positions`, then observed lists
    /// from the buckets of the previous tick, then the buckets from the new
    /// cells.
    pub fn update(&mut self, observables: &mut Vec<Observable>, positions: &Vec<Vec3>)
        requires
            old(self).wf(),
            old(observables)@.len() == positions@.len(),
        ensures
            final(self).wf(),
            final(self).spec_width() == old(self).spec_width(),
            final(self).spec_depth() == old(self).spec_depth(),
            final(self).spec_cell_size() == old(self).spec_cell_size(),
            final(observables)@.len() == positions@.len(),
            forall|i: int|
                0 <= i < positions@.len() ==> {
                    &&& (#[trigger] final(observables)@[i]).cell as int == cell_of(
                        positions@[i].x as int,
                        positions@[i].y as int,
                        old(self).spec_cell_size(),
                        old(self).spec_width(),
                        old(self).spec_depth(),
                    )
                    &&& final(observables)@[i].observed@ == observed_spec(
                        old(self),
                        final(observables)@[i].cell as int,
                    )
                },
            forall|b: int|
                0 <= b < final(self).spec_cells() ==> #[trigger] final(self).buckets()[b] == members(
                    cells_of(final(observables)@),
                    b,
                ),
    {
        self.observation_system_update_cells(observables, positions);
        self.observation_system_update_observed(observables);
        self.observation_system_update_hashmap(observables);
    }

    pub fn width(&self) -> (r: usize)
        ensures
            r == self.spec_width(),
    {
        self.width
    }

    pub fn depth(&self) -> (r: usize)
        ensures
            r == self.spec_depth(),
    {
        self.depth
    }

    pub fn cell_size(&self) -> (r: i64)
        ensures
            r == self.spec_cell_size(),
    {
        self.cell_size
    }
}

proof fn lemma_cell_in_grid(x: int, y: int, w: int, d: int)
    requires
        0 <= x < w,
        0 <= y < d,
    ensures
        0 <= x + y * w < w * d,
{
    assert(0 <= x + y * w < w * d) by (nonlinear_arith)
        requires
            0 <= x < w,
            0 <= y < d,
    ;
}

proof fn lemma_neighbors_on_grid(c: int, w: int, d: int)
    requires
        w >= 1,
        d >= 1,
        0 <= c < w * d,
    ensures
        c % w > 0 ==> c >= 1,
        c % w < w - 1 ==> c + 1 < w * d,
        c + w < w * d && c % w < w - 1 ==> c + w + 1 < w * d,
        c >= w && c % w > 0 ==> c - w - 1 >= 0,
        w <= w * d,
{
    vstd::arithmetic::mul::lemma_mul_increases(d, w);
    let q = c / w;
    let r = c % w;
    vstd::arithmetic::div_mod::lemma_fundamental_div_mod(c, w);
    vstd::arithmetic::div_mod::lemma_mod_bound(c, w);
    assert(q < d) by (nonlinear_arith)
        requires
            c == w * q + r,
            0 <= r < w,
            c < w * d,
    ;
    assert(c % w < w - 1 ==> c + 1 < w * d) by (nonlinear_arith)
        requires
            c == w * q + r,
            r == c % w,
            0 <= r,
            q < d,
    ;
    assert(c + w < w * d && c % w < w - 1 ==> c + w + 1 < w * d) by (nonlinear_arith)
        requires
            c == w * q + r,
            r == c % w,
            0 <= r,
    ;
    assert(c >= w && c % w > 0 ==> c - w - 1 >= 0) by (nonlinear_arith)
        requires
            c == w * q + r,
            r == c % w,
            r < w,
    ;
}

/// Every position falls in a cell of the grid, and mapping a cell's lowest
/// corner back through `cell_of` gives that same cell again.
pub proof fn lemma_cell_of_in_grid(px: int, py: int, cs: int, w: int, d: int)
    requires
        w >= 1,
        d >= 1,
    ensures
        0 <= cell_of(px, py, cs, w, d) < w * d,
        cs > 0 ==> ({
            let c = cell_of(px, py, cs, w, d);
            cell_of((c % w) * cs, (c / w) * cs, cs, w, d) == c
        }),
{
    vstd::arithmetic::mul::lemma_mul_increases(w, d);
    if cs > 0 {
        let x = cell_coord(px, cs, w);
        let y = cell_coord(py, cs, d);
        let c = x + y * w;
        lemma_cell_in_grid(x, y, w, d);
        vstd::arithmetic::div_mod::lemma_fundamental_div_mod_converse(c, w, y, x);
        vstd::arithmetic::div_mod::lemma_div_by_multiple(x, cs);
        vstd::arithmetic::div_mod::lemma_div_by_multiple(y, cs);
    }
}

/// The neighbourhood of a cell holds the cell itself and at most nine cells;
/// a cell off every edge of the grid has exactly nine.
pub proof fn lemma_neighbors_of(c: int, w: int, d: int)
    requires
        w >= 1,
        d >= 1,
        w * d <= usize::MAX,
        0 <= c < w * d,
    ensures
        neighbor_cells(c, w, w * d)[0] == c,
        neighbor_cells(c, w, w * d).contains(c as usize),
        neighbor_cells(c, w, w * d).to_set().len() <= 9,
        0 < c % w < w - 1 && 0 < c / w < d - 1 ==> neighbor_cells(c, w, w * d).to_set().len() == 9,
{
    let n = w * d;
    let left = c % w > 0;
    let right = c % w < w - 1;
    let up = c + w < n;
    let down = c >= w;
    let s1 = push_if(seq![c as usize], left, c - 1);
    let s2 = push_if(s1, right, c + 1);
    let s3 = push_if(s2, up, c + w);
    let s4 = push_if(s3, down, c - w);
    let s5 = push_if(s4, up && right, c + w + 1);
    let s6 = push_if(s5, up && left, c + w - 1);
    let s7 = push_if(s6, down && right, c - w + 1);
    let s = push_if(s7, down && left, c - w - 1);
    assert(s == neighbor_cells(c, w, n));
    assert(s1[0] == c && s2[0] == c && s3[0] == c && s4[0] == c);
    assert(s5[0] == c && s6[0] == c && s7[0] == c && s[0] == c);
    assert(s.contains(c as usize));
    assert(s.len() <= 9);
    s.lemma_cardinality_of_set();
    if 0 < c % w < w - 1 && 0 < c / w < d - 1 {
        vstd::arithmetic::div_mod::lemma_fundamental_div_mod(c, w);
        let q = c / w;
        let r = c % w;
        assert(c + w < w * d) by (nonlinear_arith)
            requires
                c == w * q + r,
                r < w,
                q < d - 1,
                w >= 1,
        ;
        assert(c >= w + 1) by (nonlinear_arith)
            requires
                c == w * q + r,
                r >= 1,
                q >= 1,
                w >= 1,
        ;
        let all = seq![
            c as usize,
            (c - 1) as usize,
            (c + 1) as usize,
            (c + w) as usize,
            (c - w) as usize,
            (c + w + 1) as usize,
            (c + w - 1) as usize,
            (c - w + 1) as usize,
            (c - w - 1) as usize,
        ];
        assert(s =~= all);
        assert(all.no_duplicates());
        s.unique_seq_to_set();
    }
}

/// Cells `c` and `m` of a grid `w` wide touch: their columns and their rows
/// each differ by at most one.
pub open spec fn adjacent(c: int, m: int, w: int) -> bool {
    &&& -1 <= m % w - c % w <= 1
    &&& -1 <= m / w - c / w <= 1
}

proof fn lemma_push_if_contains(s: Seq<usize>, b: bool, v: int, x: usize)
    ensures
        push_if(s, b, v).contains(x) <==> s.contains(x) || (b && x == v as usize),
{
    broadcast use vstd::seq_lib::lemma_seq_contains_after_push;

}

/// Column and row of the cell `dx` columns and `dy` rows away from `c`.
proof fn lemma_offset(c: int, w: int, dx: int, dy: int)
    requires
        w >= 1,
        0 <= c % w + dx < w,
    ensures
        (c + dx + dy * w) % w == c % w + dx,
        (c + dx + dy * w) / w == c / w + dy,
{
    vstd::arithmetic::div_mod::lemma_fundamental_div_mod(c, w);
    let q = c / w;
    let r = c % w;
    assert(c + dx + dy * w == (q + dy) * w + (r + dx)) by (nonlinear_arith)
        requires
            c == w * q + r,
    ;
    vstd::arithmetic::div_mod::lemma_fundamental_div_mod_converse(c + dx + dy * w, w, q + dy, r + dx);
}

/// The neighbourhood of a cell is exactly the set of cells of the grid that
/// touch it.
pub proof fn lemma_neighbors_are_adjacent(c: int, w: int, d: int, m: usize)
    requires
        w >= 1,
        d >= 1,
        w * d <= usize::MAX,
        0 <= c < w * d,
        m < w * d,
    ensures
        neighbor_cells(c, w, w * d).contains(m) <==> adjacent(c, m as int, w),
{
    let n = w * d;
    let left = c % w > 0;
    let right = c % w < w - 1;
    let up = c + w < n;
    let down = c >= w;
    let s1 = push_if(seq![c as usize], left, c - 1);
    let s2 = push_if(s1, right, c + 1);
    let s3 = push_if(s2, up, c + w);
    let s4 = push_if(s3, down, c - w);
    let s5 = push_if(s4, up && right, c + w + 1);
    let s6 = push_if(s5, up && left, c + w - 1);
    let s7 = push_if(s6, down && right, c - w + 1);
    let s = push_if(s7, down && left, c - w - 1);
    assert(s == neighbor_cells(c, w, n));
    lemma_neighbors_on_grid(c, w, d);
    lemma_push_if_contains(seq![c as usize], left, c - 1, m);
    lemma_push_if_contains(s1, right, c + 1, m);
    lemma_push_if_contains(s2, up, c + w, m);
    lemma_push_if_contains(s3, down, c - w, m);
    lemma_push_if_contains(s4, up && right, c + w + 1, m);
    lemma_push_if_contains(s5, up && left, c + w - 1, m);
    lemma_push_if_contains(s6, down && right, c - w + 1, m);
    lemma_push_if_contains(s7, down && left, c - w - 1, m);
    assert(seq![c as usize].contains(m) <==> m == c) by {
        if m == c {
            assert(seq![c as usize][0] == m);
        }
    }
    let mi = m as int;
    let q = c / w;
    let r = c % w;
    vstd::arithmetic::div_mod::lemma_fundamental_div_mod(c, w);
    vstd::arithmetic::div_mod::lemma_fundamental_div_mod(mi, w);
    vstd::arithmetic::div_mod::lemma_mod_bound(c, w);
    vstd::arithmetic::div_mod::lemma_mod_bound(mi, w);
    // every listed cell touches c
    lemma_offset(c, w, 0, 0);
    if left {
        lemma_offset(c, w, -1, 0);
        lemma_offset(c, w, -1, 1);
        lemma_offset(c, w, -1, -1);
    }
    if right {
        lemma_offset(c, w, 1, 0);
        lemma_offset(c, w, 1, 1);
        lemma_offset(c, w, 1, -1);
    }
    lemma_offset(c, w, 0, 1);
    lemma_offset(c, w, 0, -1);
    // every touching cell is listed
    if adjacent(c, mi, w) {
        let dx = mi % w - r;
        let dy = mi / w - q;
        assert(mi == c + dx + dy * w) by (nonlinear_arith)
            requires
                c == w * q + r,
                mi == w * (mi / w) + mi % w,
                dx == mi % w - r,
                dy == mi / w - q,
        ;
        if dy == 1 {
            assert(c + w < w * d) by (nonlinear_arith)
                requires
                    mi / w == q + 1,
                    mi == w * (mi / w) + mi % w,
                    mi % w >= 0,
                    mi < w * d,
                    c == w * q + r,
                    r < w,
            ;
        }
        if dy == -1 {
            assert(c >= w) by (nonlinear_arith)
                requires
                    mi / w == q - 1,
                    mi >= 0,
                    mi == w * (mi / w) + mi % w,
                    mi % w < w,
                    c == w * q + r,
                    r >= 0,
                    w >= 1,
            ;
        }
        assert(dx == -1 ==> left);
        assert(dx == 1 ==> right);
    }
}

/// The bucket of cell `b` lists, in increasing order and each once, exactly
/// the agents whose cell is `b`.
pub proof fn lemma_members(cells: Seq<usize>, b: int)
    requires
        cells.len() <= usize::MAX,
    ensures
        forall|k: int|
            0 <= k < members(cells, b).len() ==> {
                &&& (#[trigger] members(cells, b)[k]) < cells.len()
                &&& cells[members(cells, b)[k] as int] == b
            },
        forall|j: int, k: int|
            0 <= j < k < members(cells, b).len() ==> #[trigger] members(cells, b)[j] < #[trigger] members(
                cells,
                b,
            )[k],
        forall|i: usize| i < cells.len() && cells[i as int] == b ==> #[trigger] members(cells, b).contains(i),
    decreases cells.len(),
{
    if cells.len() > 0 {
        let rest = cells.drop_last();
        lemma_members(rest, b);
        let m = members(cells, b);
        let mr = members(rest, b);
        assert forall|i: usize| i < cells.len() && cells[i as int] == b implies #[trigger] m.contains(i) by {
            if i < rest.len() {
                assert(rest[i as int] == cells[i as int]);
                assert(mr.contains(i));
                let k = choose|k: int| 0 <= k < mr.len() && mr[k] == i;
                assert(m[k] == i);
            } else {
                assert(m[m.len() - 1] == i);
            }
        }
    }
}

/// After the buckets are rebuilt, every agent is in the bucket of its cell,
/// once, and in no other bucket.
pub proof fn lemma_one_bucket_per_agent(cells: Seq<usize>, i: usize, b: int)
    requires
        cells.len() <= usize::MAX,
        i < cells.len(),
    ensures
        members(cells, b).contains(i) <==> cells[i as int] == b,
        members(cells, b).no_duplicates(),
{
    lemma_members(cells, b);
    let m = members(cells, b);
    if m.contains(i) {
        let k = choose|k: int| 0 <= k < m.len() && m[k] == i;
        assert(cells[m[k] as int] == b);
    }
    assert forall|j: int, k: int| 0 <= j < m.len() && 0 <= k < m.len() && j != k implies m[j] != m[k] by {
        if j < k {
            assert(m[j] < m[k]);
        } else {
            assert(m[k] < m[j]);
        }
    }
}

/// The cell coordinate of `p` along an axis of `n` cells of side `cs`.
fn axis_cell(p: i64, cs: i64, n: usize) -> (r: usize)
    requires
        cs > 0,
        n >= 1,
    ensures
        r as int == cell_coord(p as int, cs as int, n as int),
        r < n,
{
    let q = div_floor(p as i128, cs as i128);
    if q < 0 {
        0
    } else if q > (n - 1) as i128 {
        n - 1
    } else {
        q as usize
    }
}

/// The cell of `pos` on a `width` by `depth` grid of cells of side
/// `cell_size`, from its first two components. A position off the grid falls
/// in the nearest cell; a `cell_size <= 0` sends every position to cell 0.
pub fn hash_function(pos: Vec3, cell_size: i64, width: usize, depth: usize) -> (r: usize)
    requires
        width >= 1,
        depth >= 1,
        width * depth <= usize::MAX,
    ensures
        r as int == cell_of(pos.x as int, pos.y as int, cell_size as int, width as int, depth as int),
        r < width * depth,
{
    if cell_size <= 0 {
        proof {
            vstd::arithmetic::mul::lemma_mul_increases(width as int, depth as int);
        }
        return 0;
    }
    let x = axis_cell(pos.x, cell_size, width);
    let y = axis_cell(pos.y, cell_size, depth);
    proof {
        lemma_cell_in_grid(x as int, y as int, width as int, depth as int);
    }
    x + y * width
}

} // verus!
