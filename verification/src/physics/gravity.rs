//! The gravity rule: a tile that finds too little matter around it and
//! nothing directly below or above it falls one level.

use crate::geometry::Point2D;
use crate::physics::snapshot::{neighborhood, support_spec, Snapshot};
use crate::terrain::{column_views, tile_or_empty, Column, Grid, TerrainMap, Tile};
use vstd::multiset::Multiset;
use vstd::prelude::*;

verus! {

/// A tile with fewer supporting neighbours than this may fall.
pub const SUPPORT_NEEDED: usize = 2;

/// Whether the rule moves the tile at elevation `h`: fewer than
/// `SUPPORT_NEEDED` of the surrounding columns hold matter at `h`, the tile
/// below is empty and so is the tile above. Nothing falls from elevation 0,
/// and above the top of the column there is empty space.
pub open spec fn can_fall(col: Seq<Tile>, h: int, support: nat) -> bool {
    &&& 0 < h < col.len()
    &&& support < SUPPORT_NEEDED
    &&& col[h - 1] is Empty
    &&& tile_or_empty(col, h + 1) is Empty
}

/// The column after the rule has looked at elevation `h`.
pub open spec fn gravity_rule(col: Seq<Tile>, h: int, support: nat) -> Seq<Tile> {
    if can_fall(col, h, support) {
        col.update(h - 1, col[h]).update(h, Tile::Empty)
    } else {
        col
    }
}

/// Applies the gravity rule to one elevation of a column. `support` is the
/// number of surrounding columns that hold matter at that elevation.
pub fn apply_gravity(col: &mut Column, h: usize, support: usize)
    ensures
        final(col)@ == gravity_rule(old(col)@, h as int, support as nat),
{
    if h == 0 || h >= col.tiles.len() || support >= SUPPORT_NEEDED {
        return ;
    }
    let above: Tile = col.tile_or_empty(h + 1);
    if col.tiles[h - 1].is_empty() && above.is_empty() {
        let tile: Tile = col.tiles[h];
        col.tiles[h - 1] = tile;
        col.tiles[h] = Tile::Empty;
    }
}

/// Whether a sweep moves the tile at elevation `h` one level down.
/// `supports[h]` is the support at elevation `h`; the sweep looks at the
/// elevations below `supports.len()`. The question is put to the column as
/// the sweep found it.
pub open spec fn falls(col: Seq<Tile>, supports: Seq<nat>, h: int) -> bool {
    &&& 0 <= h < supports.len()
    &&& can_fall(col, h, supports[h])
    &&& !(col[h] is Empty)
}

/// The column after one sweep: every tile that falls stands one level
/// lower, and every other tile stands where it stood.
pub open spec fn settle(col: Seq<Tile>, supports: Seq<nat>) -> Seq<Tile> {
    Seq::new(
        col.len(),
        |i: int|
            if falls(col, supports, i + 1) {
                col[i + 1]
            } else if falls(col, supports, i) {
                Tile::Empty
            } else {
                col[i]
            },
    )
}

/// The column after the rule has looked at the elevations below `n`, lowest
/// first.
pub open spec fn settle_steps(col: Seq<Tile>, supports: Seq<nat>, n: int) -> Seq<Tile>
    decreases n,
{
    if n <= 0 {
        col
    } else {
        gravity_rule(settle_steps(col, supports, n - 1), n - 1, supports[n - 1])
    }
}

/// The tiles of a column that hold matter, counted with repetition.
pub open spec fn matter(col: Seq<Tile>) -> Multiset<Tile> {
    col.to_multiset().update(Tile::Empty, 0)
}

/// The sum of the elevations of the tiles below `n` that hold matter.
pub open spec fn potential_below(col: Seq<Tile>, n: int) -> nat
    decreases n,
{
    if n <= 0 {
        0
    } else {
        potential_below(col, n - 1) + if col[n - 1] is Empty {
            0nat
        } else {
            (n - 1) as nat
        }
    }
}

/// The sum of the elevations of the tiles that hold matter: how far the
/// column can still sink.
pub open spec fn potential(col: Seq<Tile>) -> nat {
    potential_below(col, col.len() as int)
}

/// While the rule works its way up, the column agrees with the swept column
/// below the elevation it looked at last, has lost the tile there if that
/// tile falls, and is untouched above.
proof fn lemma_settle_steps_shape(col: Seq<Tile>, supports: Seq<nat>, n: int)
    requires
        0 <= n <= supports.len(),
    ensures
        settle_steps(col, supports, n).len() == col.len(),
        forall|i: int|
            0 <= i < col.len() ==> #[trigger] settle_steps(col, supports, n)[i] == (if i < n - 1 {
                settle(col, supports)[i]
            } else if i == n - 1 && falls(col, supports, i) {
                Tile::Empty
            } else {
                col[i]
            }),
    decreases n,
{
    if n > 0 {
        lemma_settle_steps_shape(col, supports, n - 1);
        let k = n - 1;
        let prev = settle_steps(col, supports, k);
        let cur = settle_steps(col, supports, n);
        assert(cur == gravity_rule(prev, k, supports[k]));
        if 0 < k < col.len() {
            assert(prev[k] == col[k]);
            assert(prev[k - 1] == if falls(col, supports, k - 1) {
                Tile::Empty
            } else {
                col[k - 1]
            });
            assert(tile_or_empty(prev, k + 1) == tile_or_empty(col, k + 1));
            if col[k] is Empty {
                assert(cur =~= prev);
            } else {
                assert(!falls(col, supports, k - 1));
                assert(can_fall(prev, k, supports[k]) == falls(col, supports, k));
            }
        }
    }
}

/// A sweep is the gravity rule applied to each elevation in turn, lowest
/// first.
pub proof fn lemma_settle_is_stepwise(col: Seq<Tile>, supports: Seq<nat>)
    ensures
        settle_steps(col, supports, supports.len() as int) == settle(col, supports),
{
    lemma_settle_steps_shape(col, supports, supports.len() as int);
    assert(settle_steps(col, supports, supports.len() as int) =~= settle(col, supports));
}

/// Gravity non-destruction, for one application of the rule: the column
/// keeps its length and its tiles, only their places change.
pub proof fn lemma_rule_keeps_tiles(col: Seq<Tile>, h: int, support: nat)
    ensures
        gravity_rule(col, h, support).len() == col.len(),
        gravity_rule(col, h, support).to_multiset() == col.to_multiset(),
{
    broadcast use vstd::seq_lib::to_multiset_update;
    broadcast use vstd::multiset::group_multiset_axioms;

    if can_fall(col, h, support) {
        let mid = col.update(h - 1, col[h]);
        let out = mid.update(h, Tile::Empty);
        col.to_multiset_ensures();
        mid.to_multiset_ensures();
        assert(col.contains(col[h - 1]));
        assert(mid.contains(mid[h]));
        assert(mid.to_multiset() == col.to_multiset().insert(col[h]).remove(col[h - 1]));
        assert(out.to_multiset() == mid.to_multiset().insert(Tile::Empty).remove(mid[h]));
        assert(out.to_multiset() =~= col.to_multiset());
    }
}

/// Gravity non-destruction: a sweep neither makes nor destroys a tile. The
/// swept column has the length of the column before, the same tiles, and so
/// the same matter; only places change.
pub proof fn lemma_gravity_keeps_tiles(col: Seq<Tile>, supports: Seq<nat>)
    ensures
        settle(col, supports).len() == col.len(),
        settle(col, supports).to_multiset() == col.to_multiset(),
        matter(settle(col, supports)) == matter(col),
{
    lemma_steps_keep_tiles(col, supports, supports.len() as int);
    lemma_settle_is_stepwise(col, supports);
}

proof fn lemma_steps_keep_tiles(col: Seq<Tile>, supports: Seq<nat>, n: int)
    ensures
        settle_steps(col, supports, n).len() == col.len(),
        settle_steps(col, supports, n).to_multiset() == col.to_multiset(),
    decreases n,
{
    if n > 0 {
        lemma_steps_keep_tiles(col, supports, n - 1);
        lemma_rule_keeps_tiles(settle_steps(col, supports, n - 1), n - 1, supports[n - 1]);
    }
}

/// A column in which no tile can fall is left as it is: once settled, a
/// further sweep changes nothing.
pub proof fn lemma_settled_is_fixed(col: Seq<Tile>, supports: Seq<nat>)
    requires
        forall|h: int| 0 <= h < col.len() ==> !falls(col, supports, h),
    ensures
        settle(col, supports) == col,
{
    assert(settle(col, supports) =~= col);
}

/// A column that holds the tiles of `base` from the ground up, `tile` at
/// elevation `h` and empty space everywhere else.
pub open spec fn tile_over_base(len: nat, base: Seq<Tile>, h: int, tile: Tile) -> Seq<Tile> {
    Seq::new(
        len,
        |i: int|
            if i < base.len() {
                base[i]
            } else if i == h {
                tile
            } else {
                Tile::Empty
            },
    )
}

/// Whether every tile of `base` holds matter, so that none of them has
/// room to fall.
pub open spec fn is_packed(base: Seq<Tile>) -> bool {
    forall|j: int| 0 <= j < base.len() ==> !((#[trigger] base[j]) is Empty)
}

/// Gravity convergence, one sweep: a tile with empty space above and below
/// it, and too little support, stands exactly one level lower after the
/// sweep, and the packed base below it stays. Where the tile lies on the
/// base or on the ground, or at an elevation the sweep does not look at, or
/// has support enough, the column stays as it is.
pub proof fn lemma_tile_falls_one_level(
    len: nat,
    base: Seq<Tile>,
    h: int,
    tile: Tile,
    supports: Seq<nat>,
)
    requires
        base.len() <= h < len,
        is_packed(base),
        !(tile is Empty),
    ensures
        base.len() < h < supports.len() && supports[h] < SUPPORT_NEEDED ==> settle(
            tile_over_base(len, base, h, tile),
            supports,
        ) == tile_over_base(len, base, h - 1, tile),
        !(base.len() < h < supports.len() && supports[h] < SUPPORT_NEEDED) ==> settle(
            tile_over_base(len, base, h, tile),
            supports,
        ) == tile_over_base(len, base, h, tile),
{
    let col = tile_over_base(len, base, h, tile);
    assert forall|j: int| 0 <= j < len && j != h implies !falls(col, supports, j) by {
        if 0 < j < base.len() {
            assert(!(base[j - 1] is Empty));
        }
    }
    if base.len() < h < supports.len() && supports[h] < SUPPORT_NEEDED {
        assert(falls(col, supports, h));
        assert(settle(col, supports) =~= tile_over_base(len, base, h - 1, tile));
    } else {
        if h > 0 && h == base.len() {
            assert(!(base[h - 1] is Empty));
        }
        assert(!falls(col, supports, h));
        assert(settle(col, supports) =~= col);
    }
}

/// The column after one sweep for each entry of `passes`, each with its own
/// supports.
pub open spec fn settle_repeatedly(col: Seq<Tile>, passes: Seq<Seq<nat>>) -> Seq<Tile>
    decreases passes.len(),
{
    if passes.len() == 0 {
        col
    } else {
        settle(settle_repeatedly(col, passes.drop_last()), passes.last())
    }
}

/// Whether a sweep with these supports looks at every elevation from 1 to
/// `h` and finds too little support at each.
pub open spec fn unsupported_up_to(supports: Seq<nat>, h: int) -> bool {
    forall|i: int| 0 < i <= h ==> i < supports.len() && #[trigger] supports[i] < SUPPORT_NEEDED
}

/// Gravity convergence: under sweeps that look at its elevation and find
/// too little support, a tile sinks one level with each sweep until it lies
/// on the packed base below it, or on the ground where there is no base.
/// There every further sweep leaves it.
pub proof fn lemma_tile_settles_on_support(
    len: nat,
    base: Seq<Tile>,
    h: int,
    tile: Tile,
    passes: Seq<Seq<nat>>,
)
    requires
        base.len() <= h < len,
        is_packed(base),
        !(tile is Empty),
        forall|k: int| 0 <= k < passes.len() ==> unsupported_up_to(#[trigger] passes[k], h),
    ensures
        settle_repeatedly(tile_over_base(len, base, h, tile), passes) == tile_over_base(
            len,
            base,
            if passes.len() <= h - base.len() {
                h - passes.len()
            } else {
                base.len() as int
            },
            tile,
        ),
    decreases passes.len(),
{
    if passes.len() > 0 {
        let before = passes.drop_last();
        assert forall|k: int| 0 <= k < before.len() implies unsupported_up_to(
            #[trigger] before[k],
            h,
        ) by {
            assert(before[k] == passes[k]);
        }
        lemma_tile_settles_on_support(len, base, h, tile, before);
        let at: int = if before.len() <= h - base.len() {
            h - before.len()
        } else {
            base.len() as int
        };
        let last = passes.last();
        assert(unsupported_up_to(passes[passes.len() - 1], h));
        if at > 0 {
            assert(last[at] < SUPPORT_NEEDED);
        }
        lemma_tile_falls_one_level(len, base, at, tile, last);
    }
}

/// Putting a tile at a place below `n` changes the potential below `n` by
/// the difference of what the new and the old tile weigh there.
proof fn lemma_potential_update(col: Seq<Tile>, j: int, tile: Tile, n: int)
    requires
        0 <= j < col.len(),
        0 <= n <= col.len(),
    ensures
        potential_below(col.update(j, tile), n) + (if j < n && !(col[j] is Empty) {
            j
        } else {
            0
        }) == potential_below(col, n) + (if j < n && !(tile is Empty) {
            j
        } else {
            0
        }),
    decreases n,
{
    if n > 0 {
        lemma_potential_update(col, j, tile, n - 1);
    }
}

/// One application of the rule never raises the potential, and lowers it by
/// one where it moves matter.
proof fn lemma_rule_lowers_potential(col: Seq<Tile>, h: int, support: nat)
    ensures
        potential(gravity_rule(col, h, support)) == potential(col) - (if can_fall(col, h, support)
            && !(col[h] is Empty) {
            1int
        } else {
            0int
        }),
{
    if can_fall(col, h, support) {
        let mid = col.update(h - 1, col[h]);
        lemma_potential_update(col, h - 1, col[h], col.len() as int);
        lemma_potential_update(mid, h, Tile::Empty, col.len() as int);
    }
}

/// The number of elevations below `n` from which a sweep moves a tile.
pub open spec fn falling_below(col: Seq<Tile>, supports: Seq<nat>, n: int) -> nat
    decreases n,
{
    if n <= 0 {
        0
    } else {
        falling_below(col, supports, n - 1) + if falls(col, supports, n - 1) {
            1nat
        } else {
            0nat
        }
    }
}

proof fn lemma_steps_lower_potential(col: Seq<Tile>, supports: Seq<nat>, n: int)
    requires
        0 <= n <= supports.len(),
    ensures
        potential(settle_steps(col, supports, n)) + falling_below(col, supports, n) == potential(
            col,
        ),
    decreases n,
{
    if n > 0 {
        lemma_steps_lower_potential(col, supports, n - 1);
        lemma_settle_steps_shape(col, supports, n - 1);
        let k = n - 1;
        let prev = settle_steps(col, supports, k);
        lemma_rule_lowers_potential(prev, k, supports[k]);
        if 0 < k < col.len() {
            assert(prev[k] == col[k]);
            assert(tile_or_empty(prev, k + 1) == tile_or_empty(col, k + 1));
            if !(col[k] is Empty) {
                assert(!falls(col, supports, k - 1));
                assert(can_fall(prev, k, supports[k]) == falls(col, supports, k));
            }
        }
    }
}

proof fn lemma_falling_counts(col: Seq<Tile>, supports: Seq<nat>, n: int, h: int)
    requires
        0 <= h < n,
        falls(col, supports, h),
    ensures
        falling_below(col, supports, n) >= 1,
    decreases n,
{
    if h < n - 1 {
        lemma_falling_counts(col, supports, n - 1, h);
    }
}

/// Gravity convergence: each sweep lowers the potential of a column by the
/// number of tiles it moves. The potential is never negative, so a column
/// cannot be moved by more sweeps than its potential counts, whatever the
/// support around it: it settles.
pub proof fn lemma_gravity_lowers_potential(col: Seq<Tile>, supports: Seq<nat>)
    ensures
        potential(settle(col, supports)) + falling_below(col, supports, supports.len() as int)
            == potential(col),
        forall|h: int|
            falls(col, supports, h) ==> potential(settle(col, supports)) < potential(col),
{
    lemma_steps_lower_potential(col, supports, supports.len() as int);
    lemma_settle_is_stepwise(col, supports);
    assert forall|h: int| falls(col, supports, h) implies potential(settle(col, supports))
        < potential(col) by {
        lemma_falling_counts(col, supports, supports.len() as int, h);
    }
}

/// The support that the tiles of the column at `p` find, for each elevation
/// below the highest level.
pub open spec fn supports_at(g: Grid, p: Point2D) -> Seq<nat> {
    Seq::new(g.highest_level, |h: int| support_spec(neighborhood(g, p, h).neighbors))
}

/// The column at `p` after a sweep of the grid.
pub open spec fn settled_column(g: Grid, p: Point2D) -> Seq<Tile> {
    settle(g.column(p), supports_at(g, p))
}

/// The grid after a gravity sweep. Every column is swept on its own; the
/// support of its tiles is read from the grid as it was before the sweep, so
/// the order in which the columns are visited does not matter.
pub open spec fn gravity_pass_spec(g: Grid) -> Grid {
    g.with_columns(
        Seq::new(g.columns.len(), |i: int| settle(g.columns[i], supports_at(g, g.point_of(i)))),
    )
}

/// Gravity non-destruction, for the grid: a sweep keeps the dimensions, the
/// length of every column and the tiles of every column.
pub proof fn lemma_gravity_pass_keeps_tiles(g: Grid, i: int)
    requires
        0 <= i < g.columns.len(),
    ensures
        gravity_pass_spec(g).width == g.width,
        gravity_pass_spec(g).height == g.height,
        gravity_pass_spec(g).highest_level == g.highest_level,
        gravity_pass_spec(g).columns.len() == g.columns.len(),
        gravity_pass_spec(g).columns[i].len() == g.columns[i].len(),
        gravity_pass_spec(g).columns[i].to_multiset() == g.columns[i].to_multiset(),
        matter(gravity_pass_spec(g).columns[i]) == matter(g.columns[i]),
        g.wf() ==> gravity_pass_spec(g).wf(),
{
    lemma_gravity_keeps_tiles(g.columns[i], supports_at(g, g.point_of(i)));
    assert forall|j: int| 0 <= j < g.columns.len() implies (#[trigger] gravity_pass_spec(
        g,
    ).columns[j]).len() == g.columns[j].len() by {}
}

/// The column at `p` after a sweep of the map.
pub fn settle_column(map: &TerrainMap, p: Point2D) -> (out: Column)
    requires
        map.wf(),
        map@.contains(p),
    ensures
        out@ == settled_column(map@, p),
{
    let mut col: Column = map.column(p).duplicate();
    let limit: usize = map.highest_level();
    let ghost start = col@;
    let ghost supports = supports_at(map@, p);
    let mut h: usize = 0;
    while h < limit
        invariant
            h <= limit,
            limit == map@.highest_level,
            map.wf(),
            map@.contains(p),
            start == map@.column(p),
            supports == supports_at(map@, p),
            col@ == settle_steps(start, supports, h as int),
        decreases limit - h,
    {
        let around = Snapshot::take(map, p, h);
        let support: usize = around.support();
        apply_gravity(&mut col, h, support);
        h = h + 1;
    }
    proof {
        lemma_settle_is_stepwise(start, supports);
    }
    col
}

/// Sweeps the whole map once: the gravity rule at every elevation below the
/// highest level of every column.
pub fn gravity_pass(map: &mut TerrainMap)
    requires
        old(map).wf(),
    ensures
        final(map).wf(),
        final(map)@ == gravity_pass_spec(old(map)@),
{
    let count: usize = map.column_count();
    let mut next: Vec<Column> = Vec::new();
    let mut i: usize = 0;
    while i < count
        invariant
            i <= count,
            count == map@.columns.len(),
            map.wf(),
            next@.len() == i,
            forall|j: int|
                0 <= j < i ==> (#[trigger] next@[j])@ == settle(
                    map@.columns[j],
                    supports_at(map@, map@.point_of(j)),
                ),
        decreases count - i,
    {
        let p: Point2D = map.point_at(i);
        let col: Column = settle_column(&*map, p);
        next.push(col);
        i = i + 1;
    }
    proof {
        let g = map@;
        assert(column_views(next@) =~= gravity_pass_spec(g).columns);
        assert forall|j: int| 0 <= j < g.columns.len() implies (#[trigger] gravity_pass_spec(
            g,
        ).columns[j]).len() >= g.highest_level by {
            assert(g.columns[j].len() >= g.highest_level);
        }
    }
    map.set_columns(next);
}

} // verus!
