//! The collision grid: pending actors filed under the cell they stand in.

use vstd::prelude::*;
use crate::space::{adjacent, cell_at, cell_of, Cell, Point};
use crate::targets::Player;
use crate::records::{DangerInGrid, DangerType};
use crate::store::{
    store_clear, store_get, store_new, store_put, store_remove, stored, CellStore,
};

verus! {

/// Whether one of `records` belongs to `actor`.
pub open spec fn has_actor(records: Seq<DangerInGrid>, actor: u64) -> bool {
    exists|i: int| 0 <= i < records.len() && (#[trigger] records[i]).actor == actor
}

/// The `k`-th cell, for `k` from 0 to 8, of the three-by-three block around
/// `center`: columns from west to east, and south to north within a column.
pub open spec fn block_cell(center: Cell, k: int) -> Cell {
    Cell { cx: (center.cx - 1 + k / 3) as i32, cy: (center.cy - 1 + k % 3) as i32 }
}

/// The cells of the block around `center` are exactly the cells adjacent to
/// it, each met once.
pub proof fn lemma_block_is_adjacency(center: Cell, c: Cell)
    requires
        i32::MIN < center.cx < i32::MAX,
        i32::MIN < center.cy < i32::MAX,
    ensures
        adjacent(center, c) <==> exists|k: int| 0 <= k < 9 && #[trigger] block_cell(center, k) == c,
        forall|k: int, m: int|
            0 <= k < m < 9 ==> #[trigger] block_cell(center, k) != #[trigger] block_cell(center, m),
{
    if adjacent(center, c) {
        let k = (c.cx - center.cx + 1) * 3 + (c.cy - center.cy + 1);
        assert(block_cell(center, k) == c);
    }
}

/// Those of `records` that stand in cell `c`, in their order.
pub open spec fn filed_under(records: Seq<DangerInGrid>, c: Cell) -> Seq<DangerInGrid>
    decreases records.len(),
{
    if records.len() == 0 {
        Seq::empty()
    } else {
        let rest = filed_under(records.drop_last(), c);
        if cell_at(records.last().position) == c {
            rest.push(records.last())
        } else {
            rest
        }
    }
}

/// Whether cell `c` lies in the block around the cell of some player.
pub open spec fn near_any(players: Seq<Player>, c: Cell) -> bool {
    exists|j: int|
        0 <= j < players.len() && adjacent(cell_at((#[trigger] players[j]).position), c)
}

/// The `t`-th cell of a scan that visits, player after player, the nine
/// cells of the block around each player's cell.
pub open spec fn scan_cell(players: Seq<Player>, t: int) -> Cell {
    block_cell(cell_at(players[t / 9].position), t % 9)
}

/// Whether the first `t` steps of the scan have visited cell `c`.
pub open spec fn scanned(players: Seq<Player>, t: int, c: Cell) -> bool {
    exists|u: int| 0 <= u < t && #[trigger] scan_cell(players, u) == c
}

/// A complete scan visits exactly the cells near some player.
pub proof fn lemma_scan_covers(players: Seq<Player>, c: Cell)
    ensures
        scanned(players, 9 * (players.len() as int), c) <==> near_any(players, c),
{
    if scanned(players, 9 * (players.len() as int), c) {
        let u = choose|u: int| 0 <= u < 9 * players.len() && #[trigger] scan_cell(players, u) == c;
        let j = u / 9;
        lemma_block_is_adjacency(cell_at(players[j].position), c);
        assert(block_cell(cell_at(players[j].position), u % 9) == c);
        assert(adjacent(cell_at(players[j].position), c));
    }
    if near_any(players, c) {
        let j = choose|j: int|
            0 <= j < players.len() && adjacent(cell_at((#[trigger] players[j]).position), c);
        let center = cell_at(players[j].position);
        lemma_block_is_adjacency(center, c);
        let k = choose|k: int| 0 <= k < 9 && #[trigger] block_cell(center, k) == c;
        let u = 9 * j + k;
        assert(u / 9 == j && u % 9 == k);
        assert(scan_cell(players, u) == c);
    }
}

/// A uniform grid of square cells, each holding the pending actors that stand
/// in it.
pub struct CollisionGrid {
    map: CellStore,
}

impl CollisionGrid {
    /// The records filed under cell `c`, oldest first.
    pub closed spec fn records_at(self, c: Cell) -> Seq<DangerInGrid> {
        if stored(self.map).contains_key((c.cx, c.cy)) {
            stored(self.map)[(c.cx, c.cy)]
        } else {
            Seq::empty()
        }
    }

    /// Whether the grid holds record `r`.
    pub open spec fn holds(self, r: DangerInGrid) -> bool {
        self.records_at(cell_at(r.position)).contains(r)
    }

    /// Every record is filed under the cell of its position, and no cell
    /// holds two records of one actor.
    pub open spec fn wf(self) -> bool {
        &&& forall|c: Cell, i: int|
            0 <= i < self.records_at(c).len() ==> cell_at(
                (#[trigger] self.records_at(c)[i]).position,
            ) == c
        &&& forall|c: Cell, i: int, j: int|
            0 <= i < j < self.records_at(c).len() ==> (#[trigger] self.records_at(c)[i]).actor != (
            #[trigger] self.records_at(c)[j]).actor
    }

    /// Whether the grid holds no record at all.
    pub open spec fn is_empty(self) -> bool {
        forall|c: Cell| (#[trigger] self.records_at(c)).len() == 0
    }

    /// An empty grid holds no record.
    pub proof fn lemma_empty_holds_nothing(self)
        requires
            self.is_empty(),
        ensures
            forall|r: DangerInGrid| !self.holds(r),
    {
        assert forall|r: DangerInGrid| !self.holds(r) by {
            assert(self.records_at(cell_at(r.position)).len() == 0);
        }
    }

    /// Where `after` is this grid with record `rec` filed at the end of its
    /// cell, `after` holds what this grid holds, and `rec`.
    pub proof fn lemma_holds_after_push(self, after: CollisionGrid, rec: DangerInGrid)
        requires
            after.records_at(cell_at(rec.position)) == self.records_at(cell_at(rec.position)).push(
                rec,
            ),
            forall|o: Cell|
                o != cell_at(rec.position) ==> #[trigger] after.records_at(o) == self.records_at(o),
        ensures
            forall|r: DangerInGrid| #[trigger] after.holds(r) <==> self.holds(r) || r == rec,
    {
        let c = cell_at(rec.position);
        let before = self.records_at(c);
        assert forall|r: DangerInGrid| #[trigger] after.holds(r) <==> self.holds(r) || r == rec by {
            if cell_at(r.position) == c {
                if before.push(rec).contains(r) {
                    let i = choose|i: int| 0 <= i < before.push(rec).len() && before.push(rec)[i] == r;
                    if i < before.len() {
                        assert(before[i] == r);
                    }
                }
                if before.contains(r) {
                    let i = choose|i: int| 0 <= i < before.len() && before[i] == r;
                    assert(before.push(rec)[i] == r);
                }
                if r == rec {
                    assert(before.push(rec)[before.len() as int] == rec);
                }
            } else {
                assert(after.records_at(cell_at(r.position)) == self.records_at(cell_at(r.position)));
            }
        }
    }

    /// An empty grid.
    pub fn new() -> (g: CollisionGrid)
        ensures
            g.is_empty(),
            g.wf(),
    {
        CollisionGrid { map: store_new() }
    }

    /// Copies out the records filed under cell `c`.
    pub fn cell_records(&self, c: Cell) -> (r: Vec<DangerInGrid>)
        ensures
            r@ == self.records_at(c),
    {
        match store_get(&self.map, (c.cx, c.cy)) {
            Some(v) => v,
            None => Vec::new(),
        }
    }

    /// Files a pending record for `actor` under the cell of `position`.
    /// Where that cell already holds a record of the actor, the grid stays
    /// as it is and the result is `false`.
    pub fn insert(&mut self, actor: u64, position: Point, kind: DangerType) -> (added: bool)
        requires
            old(self).wf(),
        ensures
            final(self).wf(),
            added == !has_actor(old(self).records_at(cell_at(position)), actor),
            forall|o: Cell|
                o != cell_at(position) ==> #[trigger] final(self).records_at(o) == old(
                    self,
                ).records_at(o),
            final(self).records_at(cell_at(position)) == if added {
                old(self).records_at(cell_at(position)).push(
                    DangerInGrid { actor, position, kind },
                )
            } else {
                old(self).records_at(cell_at(position))
            },
    {
        let c: Cell = cell_of(position);
        let mut records: Vec<DangerInGrid> = self.cell_records(c);
        let mut k: usize = 0;
        while k < records.len()
            invariant
                k <= records.len(),
                *self == *old(self),
                self.wf(),
                c == cell_at(position),
                records@ == self.records_at(c),
                forall|i: int| 0 <= i < k ==> (#[trigger] records@[i]).actor != actor,
            decreases records.len() - k,
        {
            if records[k].actor == actor {
                return false;
            }
            k = k + 1;
        }
        records.push(DangerInGrid { actor, position, kind });
        store_put(&mut self.map, (c.cx, c.cy), records);
        proof {
            assert forall|o: Cell| o != c implies #[trigger] self.records_at(o) == old(
                self,
            ).records_at(o) by {
                assert((o.cx, o.cy) != (c.cx, c.cy));
            }
        }
        true
    }

    /// The records of the first `n` cells of the block around `center`, cell
    /// after cell.
    pub open spec fn block_records(self, center: Cell, n: int) -> Seq<DangerInGrid>
        decreases n,
    {
        if n <= 0 {
            Seq::empty()
        } else {
            self.block_records(center, n - 1) + self.records_at(block_cell(center, n - 1))
        }
    }

    /// A record is among those of the first `n` cells of a block exactly when
    /// one of these cells holds it.
    pub proof fn lemma_block_records(self, center: Cell, n: int, r: DangerInGrid)
        requires
            0 <= n <= 9,
        ensures
            self.block_records(center, n).contains(r) <==> exists|k: int|
                0 <= k < n && (#[trigger] self.records_at(block_cell(center, k))).contains(r),
        decreases n,
    {
        if n > 0 {
            self.lemma_block_records(center, n - 1, r);
            let front = self.block_records(center, n - 1);
            let last = self.records_at(block_cell(center, n - 1));
            if (front + last).contains(r) {
                let i = choose|i: int| 0 <= i < (front + last).len() && (front + last)[i] == r;
                if i < front.len() {
                    assert(front[i] == r);
                } else {
                    assert(last[i - front.len()] == r);
                }
            }
            if front.contains(r) {
                let i = choose|i: int| 0 <= i < front.len() && front[i] == r;
                assert((front + last)[i] == r);
            }
            if last.contains(r) {
                let i = choose|i: int| 0 <= i < last.len() && last[i] == r;
                assert((front + last)[front.len() + i] == r);
            }
        }
    }

    /// The adjacency query around a point returns exactly the records the
    /// grid holds in the cell of that point and its eight neighbours; in
    /// particular every record in the point's own cell.
    pub proof fn lemma_query_is_neighbourhood(self, center: Point, r: DangerInGrid)
        requires
            self.wf(),
        ensures
            self.block_records(cell_at(center), 9).contains(r) <==> self.holds(r) && adjacent(
                cell_at(center),
                cell_at(r.position),
            ),
    {
        let c = cell_at(center);
        self.lemma_block_records(c, 9, r);
        lemma_block_is_adjacency(c, cell_at(r.position));
        if self.block_records(c, 9).contains(r) {
            let k = choose|k: int|
                0 <= k < 9 && (#[trigger] self.records_at(block_cell(c, k))).contains(r);
            let held = self.records_at(block_cell(c, k));
            let i = choose|i: int| 0 <= i < held.len() && held[i] == r;
            assert(cell_at(held[i].position) == block_cell(c, k));
        }
        if self.holds(r) && adjacent(c, cell_at(r.position)) {
            let k = choose|k: int| 0 <= k < 9 && #[trigger] block_cell(c, k) == cell_at(r.position);
            assert(self.records_at(block_cell(c, k)).contains(r));
        }
    }

    /// The adjacency query around a point returns every record that the grid
    /// holds in the cell of that point.
    pub proof fn lemma_query_includes_own_cell(self, center: Point, r: DangerInGrid)
        requires
            self.wf(),
            self.holds(r),
            cell_at(r.position) == cell_at(center),
        ensures
            self.block_records(cell_at(center), 9).contains(r),
    {
        self.lemma_query_is_neighbourhood(center, r);
    }

    /// Returns the records of the three-by-three block of cells around
    /// `center`, cell after cell.
    pub fn query_adjacent(&self, center: Point) -> (r: Vec<DangerInGrid>)
        ensures
            r@ == self.block_records(cell_at(center), 9),
    {
        let c: Cell = cell_of(center);
        let mut out: Vec<DangerInGrid> = Vec::new();
        let mut k: i32 = 0;
        while k < 9
            invariant
                0 <= k <= 9,
                c == cell_at(center),
                out@ == self.block_records(c, k as int),
            decreases 9 - k,
        {
            let cell: Cell = Cell { cx: c.cx - 1 + k / 3, cy: c.cy - 1 + k % 3 };
            let mut found: Vec<DangerInGrid> = self.cell_records(cell);
            out.append(&mut found);
            k = k + 1;
        }
        out
    }

    /// Takes every record out of cell `c` and returns them.
    pub fn take_cell(&mut self, c: Cell) -> (r: Vec<DangerInGrid>)
        requires
            old(self).wf(),
        ensures
            final(self).wf(),
            r@ == old(self).records_at(c),
            final(self).records_at(c).len() == 0,
            forall|o: Cell| o != c ==> #[trigger] final(self).records_at(o) == old(self).records_at(o),
    {
        let found: Vec<DangerInGrid> = self.cell_records(c);
        store_remove(&mut self.map, (c.cx, c.cy));
        proof {
            assert forall|o: Cell| o != c implies #[trigger] self.records_at(o) == old(
                self,
            ).records_at(o) by {
                assert((o.cx, o.cy) != (c.cx, c.cy));
            }
        }
        found
    }

    /// Removes the record of `actor` from the cell of `position` and returns
    /// it; `None`, with the grid unchanged, where that cell holds none.
    pub fn remove(&mut self, actor: u64, position: Point) -> (r: Option<DangerInGrid>)
        requires
            old(self).wf(),
        ensures
            final(self).wf(),
            forall|o: Cell|
                o != cell_at(position) ==> #[trigger] final(self).records_at(o) == old(
                    self,
                ).records_at(o),
            match r {
                Some(rec) => exists|i: int|
                    {
                        &&& 0 <= i < old(self).records_at(cell_at(position)).len()
                        &&& #[trigger] old(self).records_at(cell_at(position))[i] == rec
                        &&& rec.actor == actor
                        &&& final(self).records_at(cell_at(position)) == old(self).records_at(
                            cell_at(position),
                        ).remove(i)
                    },
                None => {
                    &&& !has_actor(old(self).records_at(cell_at(position)), actor)
                    &&& final(self).records_at(cell_at(position)) == old(self).records_at(
                        cell_at(position),
                    )
                },
            },
    {
        let c: Cell = cell_of(position);
        let mut records: Vec<DangerInGrid> = self.cell_records(c);
        let mut k: usize = 0;
        while k < records.len()
            invariant
                k <= records.len(),
                *self == *old(self),
                self.wf(),
                c == cell_at(position),
                records@ == self.records_at(c),
                forall|i: int| 0 <= i < k ==> (#[trigger] records@[i]).actor != actor,
            decreases records.len() - k,
        {
            if records[k].actor == actor {
                let rec: DangerInGrid = records.remove(k);
                store_put(&mut self.map, (c.cx, c.cy), records);
                proof {
                    assert forall|o: Cell| o != c implies #[trigger] self.records_at(o) == old(
                        self,
                    ).records_at(o) by {
                        assert((o.cx, o.cy) != (c.cx, c.cy));
                    }
                    let before = old(self).records_at(c);
                    assert(self.records_at(c) == before.remove(k as int));
                    assert(before[k as int] == rec);
                    assert forall|i: int| 0 <= i < self.records_at(c).len() implies cell_at(
                        (#[trigger] self.records_at(c)[i]).position,
                    ) == c by {
                        if i < k {
                            assert(self.records_at(c)[i] == before[i]);
                        } else {
                            assert(self.records_at(c)[i] == before[i + 1]);
                        }
                    }
                    assert forall|i: int, j: int|
                        0 <= i < j < self.records_at(c).len() implies (
                    #[trigger] self.records_at(c)[i]).actor != (
                    #[trigger] self.records_at(c)[j]).actor by {
                        let a = if i < k { i } else { i + 1 };
                        let b = if j < k { j } else { j + 1 };
                        assert(self.records_at(c)[i] == before[a]);
                        assert(self.records_at(c)[j] == before[b]);
                    }
                }
                return Some(rec);
            }
            k = k + 1;
        }
        None
    }

    /// Takes out of the grid every record that stands in the block of cells
    /// around some player, and returns them in the order of the scan: player
    /// after player, and for each the nine cells around it. With no player
    /// nothing is taken.
    pub fn take_near(&mut self, players: &Vec<Player>) -> (r: Vec<DangerInGrid>)
        requires
            old(self).wf(),
        ensures
            final(self).wf(),
            forall|c: Cell|
                #[trigger] final(self).records_at(c) == if near_any(players@, c) {
                    Seq::<DangerInGrid>::empty()
                } else {
                    old(self).records_at(c)
                },
            forall|rec: DangerInGrid|
                #[trigger] r@.contains(rec) <==> old(self).holds(rec) && near_any(
                    players@,
                    cell_at(rec.position),
                ),
            forall|i: int, j: int|
                0 <= i < j < r@.len() ==> !((#[trigger] r@[i]).actor == (#[trigger] r@[j]).actor
                    && cell_at(r@[i].position) == cell_at(r@[j].position)),
            r@ == old(self).scan_records(players@, 9 * (players@.len() as int)),
    {
        let mut out: Vec<DangerInGrid> = Vec::new();
        let mut p: usize = 0;
        while p < players.len()
            invariant
                p <= players.len(),
                old(self).wf(),
                self.wf(),
                self.keeps_unscanned(*old(self), players@, 9 * p),
                old(self).gave_scanned(out@, players@, 9 * p),
                out@ == old(self).scan_records(players@, 9 * p),
            decreases players.len() - p,
        {
            let center: Cell = cell_of(players[p].position);
            let mut k: i32 = 0;
            while k < 9
                invariant
                    0 <= k <= 9,
                    p < players.len(),
                    center == cell_at(players@[p as int].position),
                    old(self).wf(),
                    self.wf(),
                    self.keeps_unscanned(*old(self), players@, 9 * p + k),
                    old(self).gave_scanned(out@, players@, 9 * p + k),
                    out@ == old(self).scan_records(players@, 9 * p + k),
                decreases 9 - k,
            {
                let cell: Cell = Cell { cx: center.cx - 1 + k / 3, cy: center.cy - 1 + k % 3 };
                let ghost t = 9 * p + k;
                let ghost before = *self;
                let ghost had = out@;
                proof {
                    assert(t / 9 == p && t % 9 == k);
                    assert(cell == scan_cell(players@, t));
                }
                let mut found: Vec<DangerInGrid> = self.take_cell(cell);
                let ghost got = found@;
                out.append(&mut found);
                proof {
                    old(self).lemma_scan_step(before, *self, had, got, players@, t);
                    assert(got == if scanned(players@, t, cell) {
                        Seq::<DangerInGrid>::empty()
                    } else {
                        old(self).records_at(cell)
                    });
                    assert(had + Seq::<DangerInGrid>::empty() =~= had);
                    assert(out@ == old(self).scan_records(players@, t + 1));
                }
                k = k + 1;
            }
            p = p + 1;
        }
        proof {
            assert forall|c: Cell| #[trigger]
                self.records_at(c) == if near_any(players@, c) {
                    Seq::<DangerInGrid>::empty()
                } else {
                    old(self).records_at(c)
                } by {
                lemma_scan_covers(players@, c);
            }
            assert forall|rec: DangerInGrid| #[trigger]
                out@.contains(rec) <==> old(self).holds(rec) && near_any(
                    players@,
                    cell_at(rec.position),
                ) by {
                lemma_scan_covers(players@, cell_at(rec.position));
            }
        }
        out
    }

    /// What the first `t` steps of a scan take out of this grid, in the order
    /// taken: each cell gives up its records when the scan first visits it.
    pub open spec fn scan_records(self, players: Seq<Player>, t: int) -> Seq<DangerInGrid>
        decreases t,
    {
        if t <= 0 {
            Seq::empty()
        } else {
            let before = self.scan_records(players, t - 1);
            let c = scan_cell(players, t - 1);
            if scanned(players, t - 1, c) {
                before
            } else {
                before + self.records_at(c)
            }
        }
    }

    /// After `t` steps of a scan over `start`, this grid has lost the cells
    /// visited and kept the others.
    pub open spec fn keeps_unscanned(self, start: CollisionGrid, players: Seq<Player>, t: int) -> bool {
        forall|c: Cell|
            #[trigger] self.records_at(c) == if scanned(players, t, c) {
                Seq::<DangerInGrid>::empty()
            } else {
                start.records_at(c)
            }
    }

    /// After `t` steps of a scan over this grid, `out` lists the records of
    /// the cells visited, none of them twice.
    pub open spec fn gave_scanned(self, out: Seq<DangerInGrid>, players: Seq<Player>, t: int) -> bool {
        &&& forall|rec: DangerInGrid|
            #[trigger] out.contains(rec) <==> self.holds(rec) && scanned(
                players,
                t,
                cell_at(rec.position),
            )
        &&& forall|i: int, j: int|
            0 <= i < j < out.len() ==> !((#[trigger] out[i]).actor == (#[trigger] out[j]).actor
                && cell_at(out[i].position) == cell_at(out[j].position))
    }

    /// One step of the scan keeps what the scan maintains: `before` is the
    /// grid and `had` the output before step `t`, `after` the grid once the
    /// cell of that step was emptied, and `got` what the cell held.
    proof fn lemma_scan_step(
        self,
        before: CollisionGrid,
        after: CollisionGrid,
        had: Seq<DangerInGrid>,
        got: Seq<DangerInGrid>,
        players: Seq<Player>,
        t: int,
    )
        requires
            0 <= t,
            self.wf(),
            before.keeps_unscanned(self, players, t),
            self.gave_scanned(had, players, t),
            got == before.records_at(scan_cell(players, t)),
            after.records_at(scan_cell(players, t)).len() == 0,
            forall|o: Cell|
                o != scan_cell(players, t) ==> #[trigger] after.records_at(o) == before.records_at(o),
        ensures
            after.keeps_unscanned(self, players, t + 1),
            self.gave_scanned(had + got, players, t + 1),
    {
        let sc = scan_cell(players, t);
        let out = had + got;
        assert(scanned(players, t + 1, sc));
        assert forall|c: Cell| scanned(players, t + 1, c) <==> (scanned(players, t, c) || c == sc) by {
            if scanned(players, t + 1, c) && c != sc {
                let u = choose|u: int| 0 <= u < t + 1 && #[trigger] scan_cell(players, u) == c;
                assert(u < t);
            }
            if scanned(players, t, c) {
                let u = choose|u: int| 0 <= u < t && #[trigger] scan_cell(players, u) == c;
                assert(0 <= u < t + 1);
            }
        }
        assert forall|c: Cell| #[trigger]
            after.records_at(c) == if scanned(players, t + 1, c) {
                Seq::<DangerInGrid>::empty()
            } else {
                self.records_at(c)
            } by {
            if c == sc {
                assert(after.records_at(c) =~= Seq::<DangerInGrid>::empty());
            } else {
                assert(after.records_at(c) == before.records_at(c));
            }
        }
        assert forall|i: int| 0 <= i < got.len() implies {
            &&& self.holds(#[trigger] got[i])
            &&& cell_at(got[i].position) == sc
            &&& !scanned(players, t, sc)
            &&& self.records_at(sc)[i] == got[i]
        } by {
            assert(before.records_at(sc).len() > 0);
            assert(got == self.records_at(sc));
            assert(cell_at(self.records_at(sc)[i].position) == sc);
        }
        assert forall|rec: DangerInGrid| #[trigger]
            out.contains(rec) <==> self.holds(rec) && scanned(
                players,
                t + 1,
                cell_at(rec.position),
            ) by {
            if out.contains(rec) {
                let i = choose|i: int| 0 <= i < out.len() && out[i] == rec;
                if i < had.len() {
                    assert(had[i] == rec);
                    assert(had.contains(rec));
                } else {
                    assert(got[i - had.len()] == rec);
                }
            }
            if self.holds(rec) && scanned(players, t + 1, cell_at(rec.position)) {
                if scanned(players, t, cell_at(rec.position)) {
                    assert(had.contains(rec));
                    let i = choose|i: int| 0 <= i < had.len() && had[i] == rec;
                    assert(out[i] == rec);
                } else {
                    assert(cell_at(rec.position) == sc);
                    assert(got == self.records_at(sc));
                    let i = choose|i: int| 0 <= i < got.len() && got[i] == rec;
                    assert(out[had.len() + i] == rec);
                }
            }
        }
        assert forall|i: int, j: int| 0 <= i < j < out.len() implies !((#[trigger] out[i]).actor == (
        #[trigger] out[j]).actor && cell_at(out[i].position) == cell_at(out[j].position)) by {
            if j < had.len() {
                assert(out[i] == had[i] && out[j] == had[j]);
            } else if i < had.len() {
                assert(out[i] == had[i]);
                assert(out[j] == got[j - had.len()]);
                assert(had.contains(had[i]));
            } else {
                assert(out[i] == got[i - had.len()]);
                assert(out[j] == got[j - had.len()]);
                assert(self.records_at(sc)[i - had.len()] == got[i - had.len()]);
                assert(self.records_at(sc)[j - had.len()] == got[j - had.len()]);
            }
        }
    }

    /// Forgets every record.
    pub fn clear(&mut self)
        ensures
            final(self).is_empty(),
            final(self).wf(),
    {
        store_clear(&mut self.map);
    }
}

impl Default for CollisionGrid {
    /// An empty grid.
    fn default() -> (g: CollisionGrid)
        ensures
            g.is_empty(),
            g.wf(),
    {
        CollisionGrid::new()
    }
}

/// Empties the grid, as when a level is torn down.
pub fn clear_grid(grid: &mut CollisionGrid)
    ensures
        final(grid).is_empty(),
        final(grid).wf(),
{
    grid.clear();
}

} // verus!
