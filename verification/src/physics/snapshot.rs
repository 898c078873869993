//! The neighbourhood of one column at one elevation, copied out of the map,
//! and the patches a flow rule answers with.

use crate::geometry::{
    lemma_strict_adjacent_shape, strict_adjacent, strict_adjacent_spec, Point2D,
};
use crate::terrain::{Grid, Kind, TerrainMap, Tile};
use vstd::prelude::*;

verus! {

/// A tile together with the position of its column.
#[derive(Clone, Copy, Debug, PartialEq, Eq)]
pub struct Cell {
    pub at: Point2D,
    pub tile: Tile,
}

/// A neighbourhood as a mathematical value: the centre and the cells
/// around it that exist, in the order east, west, north, south.
pub struct Neighborhood {
    pub center: Cell,
    pub neighbors: Seq<Cell>,
}

/// A copy of the tiles of a column and of the columns around it at one
/// elevation. It is taken before anything is changed, and the rules read
/// nothing else.
#[derive(Debug, PartialEq, Eq)]
pub struct Snapshot {
    pub center: Cell,
    pub neighbors: Vec<Cell>,
}

impl View for Snapshot {
    type V = Neighborhood;

    open spec fn view(&self) -> Neighborhood {
        Neighborhood { center: self.center, neighbors: self.neighbors@ }
    }
}

/// The cells at elevation `h` of those positions in `around` that lie on the
/// grid and are not `p` itself. A position on the edge of the grid has
/// fewer than four neighbours: what `strict_adjacent_spec` repeats of `p`, or
/// lists beyond the grid, is left out.
pub open spec fn neighbor_cells(g: Grid, p: Point2D, h: int, around: Seq<Point2D>) -> Seq<Cell>
    decreases around.len(),
{
    if around.len() == 0 {
        Seq::empty()
    } else {
        let rest = neighbor_cells(g, p, h, around.drop_last());
        let q = around.last();
        if q != p && g.contains(q) {
            rest.push(Cell { at: q, tile: g.tile(q, h) })
        } else {
            rest
        }
    }
}

/// The neighbourhood of `p` at elevation `h`.
pub open spec fn neighborhood(g: Grid, p: Point2D, h: int) -> Neighborhood {
    Neighborhood {
        center: Cell { at: p, tile: g.tile(p, h) },
        neighbors: neighbor_cells(g, p, h, strict_adjacent_spec(p)),
    }
}

/// The number of cells whose tile is of the given kind.
pub open spec fn count_kind(cells: Seq<Cell>, kind: Kind) -> nat
    decreases cells.len(),
{
    if cells.len() == 0 {
        0
    } else {
        count_kind(cells.drop_last(), kind) + if cells.last().tile.kind_spec() == kind {
            1nat
        } else {
            0nat
        }
    }
}

/// The number of cells that hold matter: the support a tile finds around
/// it.
pub open spec fn support_spec(cells: Seq<Cell>) -> nat {
    (cells.len() - count_kind(cells, Kind::Empty)) as nat
}

/// No kind is counted more often than there are cells.
pub proof fn lemma_count_kind_bound(cells: Seq<Cell>, kind: Kind)
    ensures
        count_kind(cells, kind) <= cells.len(),
    decreases cells.len(),
{
    if cells.len() > 0 {
        lemma_count_kind_bound(cells.drop_last(), kind);
    }
}

/// A position has at most four neighbours, each of them on the grid and
/// next to it, with the tile that the grid holds there.
pub proof fn lemma_neighbor_cells(g: Grid, p: Point2D, h: int, around: Seq<Point2D>)
    ensures
        neighbor_cells(g, p, h, around).len() <= around.len(),
        forall|k: int|
            0 <= k < neighbor_cells(g, p, h, around).len() ==> {
                let c = #[trigger] neighbor_cells(g, p, h, around)[k];
                &&& around.contains(c.at)
                &&& c.at != p
                &&& g.contains(c.at)
                &&& c.tile == g.tile(c.at, h)
            },
    decreases around.len(),
{
    if around.len() > 0 {
        lemma_neighbor_cells(g, p, h, around.drop_last());
        let rest = neighbor_cells(g, p, h, around.drop_last());
        assert forall|k: int| 0 <= k < neighbor_cells(g, p, h, around).len() implies {
            let c = #[trigger] neighbor_cells(g, p, h, around)[k];
            &&& around.contains(c.at)
            &&& c.at != p
            &&& g.contains(c.at)
            &&& c.tile == g.tile(c.at, h)
        } by {
            let c = neighbor_cells(g, p, h, around)[k];
            if k < rest.len() {
                assert(c == rest[k]);
                let j = choose|j: int| 0 <= j < around.drop_last().len() && around.drop_last()[j] == c.at;
                assert(around[j] == c.at);
            } else {
                assert(around[around.len() - 1] == c.at);
            }
        }
    }
}

/// Whether no two of the cells lie at the same position.
pub open spec fn distinct_places(cells: Seq<Cell>) -> bool {
    forall|a: int, b: int|
        0 <= a < b < cells.len() ==> (#[trigger] cells[a]).at != (#[trigger] cells[b]).at
}

/// Where the positions around `p` repeat only `p` itself, no two of the
/// cells taken from them lie at the same position.
pub proof fn lemma_neighbor_cells_distinct(g: Grid, p: Point2D, h: int, around: Seq<Point2D>)
    requires
        forall|i: int, j: int|
            0 <= i < j < around.len() && #[trigger] around[i] == #[trigger] around[j]
                ==> around[i] == p,
    ensures
        distinct_places(neighbor_cells(g, p, h, around)),
    decreases around.len(),
{
    if around.len() > 0 {
        let front = around.drop_last();
        assert forall|i: int, j: int|
            0 <= i < j < front.len() && #[trigger] front[i] == #[trigger] front[j] implies front[i]
            == p by {
            assert(around[i] == front[i] && around[j] == front[j]);
        }
        lemma_neighbor_cells_distinct(g, p, h, front);
        lemma_neighbor_cells(g, p, h, front);
        let rest = neighbor_cells(g, p, h, front);
        let all = neighbor_cells(g, p, h, around);
        let q = around.last();
        assert forall|a: int, b: int| 0 <= a < b < all.len() implies (#[trigger] all[a]).at != (
        #[trigger] all[b]).at by {
            if b < rest.len() {
                assert(all[a] == rest[a] && all[b] == rest[b]);
            } else {
                assert(all[a] == rest[a]);
                assert(all[b].at == q);
                let i = choose|i: int| 0 <= i < front.len() && front[i] == rest[a].at;
                assert(around[i] == rest[a].at);
                assert(around[around.len() - 1] == q);
            }
        }
    }
}

/// The neighbours in a neighbourhood taken from a grid lie at positions
/// that differ from one another.
pub proof fn lemma_neighborhood_distinct(g: Grid, p: Point2D, h: int)
    requires
        p.0 < usize::MAX,
        p.1 < usize::MAX,
    ensures
        distinct_places(neighborhood(g, p, h).neighbors),
{
    let around = strict_adjacent_spec(p);
    assert forall|i: int, j: int|
        0 <= i < j < around.len() && #[trigger] around[i] == #[trigger] around[j] implies around[i]
        == p by {
        lemma_strict_adjacent_shape(p, i);
    }
    lemma_neighbor_cells_distinct(g, p, h, around);
}

impl Snapshot {
    /// Copies the neighbourhood of `p` at elevation `h` out of the map.
    pub fn take(map: &TerrainMap, p: Point2D, h: usize) -> (s: Snapshot)
        requires
            map.wf(),
            map@.contains(p),
        ensures
            s@ == neighborhood(map@, p, h as int),
    {
        let around = strict_adjacent(p);
        let mut neighbors: Vec<Cell> = Vec::new();
        let mut k: usize = 0;
        assert(around@.take(0) =~= Seq::<Point2D>::empty());
        while k < around.len()
            invariant
                k <= around.len(),
                map.wf(),
                neighbors@ == neighbor_cells(map@, p, h as int, around@.take(k as int)),
            decreases around.len() - k,
        {
            let q: Point2D = around[k];
            assert(around@.take(k + 1).drop_last() =~= around@.take(k as int));
            if (q.0 != p.0 || q.1 != p.1) && map.contains(q) {
                let tile = map.tile(q, h);
                neighbors.push(Cell { at: q, tile });
            }
            k = k + 1;
        }
        assert(around@.take(around@.len() as int) =~= around@);
        Snapshot { center: Cell { at: p, tile: map.tile(p, h) }, neighbors }
    }

    /// The number of neighbours whose tile is of the given kind.
    pub fn count(&self, kind: Kind) -> (n: usize)
        ensures
            n == count_kind(self@.neighbors, kind),
    {
        let mut n: usize = 0;
        let mut k: usize = 0;
        assert(self.neighbors@.take(0) =~= Seq::<Cell>::empty());
        while k < self.neighbors.len()
            invariant
                k <= self.neighbors.len(),
                n <= k,
                n == count_kind(self.neighbors@.take(k as int), kind),
            decreases self.neighbors.len() - k,
        {
            assert(self.neighbors@.take(k + 1).drop_last() =~= self.neighbors@.take(k as int));
            if self.neighbors[k].tile.kind() == kind {
                n = n + 1;
            }
            k = k + 1;
        }
        assert(self.neighbors@.take(self.neighbors@.len() as int) =~= self.neighbors@);
        n
    }

    /// The number of neighbours that hold matter.
    pub fn support(&self) -> (n: usize)
        ensures
            n == support_spec(self@.neighbors),
    {
        let empty: usize = self.count(Kind::Empty);
        proof {
            lemma_count_kind_bound(self@.neighbors, Kind::Empty);
        }
        self.neighbors.len() - empty
    }
}

/// A replacement tile for the ground level of the column at `at`.
#[derive(Clone, Copy, Debug, PartialEq, Eq)]
pub struct Patch {
    pub at: Point2D,
    pub tile: Tile,
}

/// The replacements a flow rule asks for, in the order in which they are
/// to be made. It stands for a map from positions to tiles: a position that
/// is not named keeps its tile, and of two patches for one position the
/// later one counts.
#[derive(Debug, PartialEq, Eq)]
pub struct PatchSet {
    pub entries: Vec<Patch>,
}

impl View for PatchSet {
    type V = Seq<Patch>;

    open spec fn view(&self) -> Seq<Patch> {
        self.entries@
    }
}

/// The patches of a rule's answer: none where the rule answered nothing.
pub open spec fn patches_of(answer: Option<PatchSet>) -> Seq<Patch> {
    match answer {
        Some(set) => set@,
        None => Seq::empty(),
    }
}

/// The patches that put `tile` into every empty cell, in the order of the
/// cells.
pub open spec fn spread_into(cells: Seq<Cell>, tile: Tile) -> Seq<Patch>
    decreases cells.len(),
{
    if cells.len() == 0 {
        Seq::empty()
    } else {
        let rest = spread_into(cells.drop_last(), tile);
        if cells.last().tile is Empty {
            rest.push(Patch { at: cells.last().at, tile })
        } else {
            rest
        }
    }
}

/// Spreading reaches every empty cell and no other: there is one patch for
/// each empty cell, and each patch puts the tile at an empty cell.
pub proof fn lemma_spread_into(cells: Seq<Cell>, tile: Tile)
    ensures
        spread_into(cells, tile).len() == count_kind(cells, Kind::Empty),
        forall|k: int|
            0 <= k < cells.len() && (#[trigger] cells[k]).tile is Empty ==> spread_into(
                cells,
                tile,
            ).contains(Patch { at: cells[k].at, tile }),
        forall|j: int|
            0 <= j < spread_into(cells, tile).len() ==> {
                let patch = #[trigger] spread_into(cells, tile)[j];
                &&& patch.tile == tile
                &&& exists|k: int|
                    0 <= k < cells.len() && (#[trigger] cells[k]).tile is Empty && cells[k].at
                        == patch.at
            },
    decreases cells.len(),
{
    if cells.len() > 0 {
        let front = cells.drop_last();
        let rest = spread_into(front, tile);
        let all = spread_into(cells, tile);
        lemma_spread_into(front, tile);
        assert forall|k: int| 0 <= k < cells.len() && (#[trigger] cells[k]).tile is Empty implies all.contains(
            Patch { at: cells[k].at, tile },
        ) by {
            if k < front.len() {
                assert(front[k] == cells[k]);
                let j = choose|j: int| 0 <= j < rest.len() && rest[j] == (Patch { at: cells[k].at, tile });
                assert(all[j] == rest[j]);
            } else {
                assert(all[all.len() - 1] == (Patch { at: cells[k].at, tile }));
            }
        }
        assert forall|j: int| 0 <= j < all.len() implies {
            let patch = #[trigger] all[j];
            &&& patch.tile == tile
            &&& exists|k: int|
                0 <= k < cells.len() && (#[trigger] cells[k]).tile is Empty && cells[k].at
                    == patch.at
        } by {
            if j < rest.len() {
                assert(all[j] == rest[j]);
                let k = choose|k: int|
                    0 <= k < front.len() && (#[trigger] front[k]).tile is Empty && front[k].at
                        == rest[j].at;
                assert(cells[k] == front[k]);
            } else {
                let k = cells.len() - 1;
                assert(cells[k].tile is Empty && cells[k].at == all[j].at);
            }
        }
    }
}

/// Whether no two of the patches name the same position.
pub open spec fn names_no_position_twice(patches: Seq<Patch>) -> bool {
    forall|a: int, b: int|
        0 <= a < b < patches.len() ==> (#[trigger] patches[a]).at != (#[trigger] patches[b]).at
}

/// Spreading into cells at positions that differ from one another names no
/// position twice.
pub proof fn lemma_spread_names_no_position_twice(cells: Seq<Cell>, tile: Tile)
    requires
        distinct_places(cells),
    ensures
        names_no_position_twice(spread_into(cells, tile)),
    decreases cells.len(),
{
    if cells.len() > 0 {
        let front = cells.drop_last();
        assert(distinct_places(front)) by {
            assert forall|a: int, b: int| 0 <= a < b < front.len() implies (#[trigger] front[a]).at
                != (#[trigger] front[b]).at by {
                assert(front[a] == cells[a] && front[b] == cells[b]);
            }
        }
        lemma_spread_names_no_position_twice(front, tile);
        lemma_spread_into(front, tile);
        let rest = spread_into(front, tile);
        let all = spread_into(cells, tile);
        assert forall|a: int, b: int| 0 <= a < b < all.len() implies (#[trigger] all[a]).at != (
        #[trigger] all[b]).at by {
            if b < rest.len() {
                assert(all[a] == rest[a] && all[b] == rest[b]);
            } else {
                assert(all[a] == rest[a]);
                assert(all[b].at == cells[cells.len() - 1].at);
                let k = choose|k: int|
                    0 <= k < front.len() && (#[trigger] front[k]).tile is Empty && front[k].at
                        == rest[a].at;
                assert(front[k] == cells[k]);
            }
        }
    }
}

impl PatchSet {
    /// The patches that put `tile` into every empty neighbour of the
    /// snapshot, or `None` where no neighbour is empty.
    pub fn spread(snapshot: &Snapshot, tile: Tile) -> (out: Option<PatchSet>)
        ensures
            patches_of(out) == spread_into(snapshot@.neighbors, tile),
            out is Some <==> spread_into(snapshot@.neighbors, tile).len() > 0,
    {
        let mut entries: Vec<Patch> = Vec::new();
        let mut k: usize = 0;
        assert(snapshot.neighbors@.take(0) =~= Seq::<Cell>::empty());
        while k < snapshot.neighbors.len()
            invariant
                k <= snapshot.neighbors.len(),
                entries@ == spread_into(snapshot.neighbors@.take(k as int), tile),
            decreases snapshot.neighbors.len() - k,
        {
            assert(snapshot.neighbors@.take(k + 1).drop_last() =~= snapshot.neighbors@.take(
                k as int,
            ));
            let cell: Cell = snapshot.neighbors[k];
            if cell.tile.is_empty() {
                entries.push(Patch { at: cell.at, tile });
            }
            k = k + 1;
        }
        assert(snapshot.neighbors@.take(snapshot.neighbors@.len() as int) =~= snapshot.neighbors@);
        if entries.len() == 0 {
            None
        } else {
            Some(PatchSet { entries })
        }
    }

    /// The patch set that replaces the one tile at `at`.
    pub fn single(at: Point2D, tile: Tile) -> (out: PatchSet)
        ensures
            out@ == seq![Patch { at, tile }],
    {
        let entries = vec![Patch { at, tile }];
        assert(entries@ =~= seq![Patch { at, tile }]);
        PatchSet { entries }
    }
}

} // verus!
