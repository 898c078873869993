//! The terrain physics: the scheduler that decides whether a pass is due,
//! the gravity sweep, the dispatch of the flow rules and the commit of their
//! patches.

use crate::geometry::Point2D;
use crate::physics::gravity::{gravity_pass, gravity_pass_spec};
use crate::physics::snapshot::{
    count_kind, distinct_places, lemma_neighborhood_distinct, lemma_spread_into,
    lemma_spread_names_no_position_twice, names_no_position_twice, neighborhood, patches_of,
    Neighborhood, Patch, PatchSet, Snapshot,
};
use crate::terrain::{
    lemma_index_of, lemma_point_of, Grid, Kind, State, TerrainMap, Tile, WorldState,
};
use vstd::prelude::*;

pub mod gravity;
pub mod liquid;
pub mod snapshot;
pub mod stone;

verus! {

/// The elapsed time from which a pass is due.
pub const THROTTLE_THRESHOLD: usize = 600;

/// What the scheduler does with one call.
#[derive(Clone, Copy, Debug, PartialEq, Eq, Structural)]
pub enum SchedulerState {
    /// The elapsed time is below the threshold: nothing is done.
    Idle,
    /// The threshold is reached: one full pass runs.
    Running,
}

/// The state that a call with elapsed time `dt` puts the scheduler in.
pub open spec fn gate_spec(dt: usize) -> SchedulerState {
    if dt >= THROTTLE_THRESHOLD {
        SchedulerState::Running
    } else {
        SchedulerState::Idle
    }
}

/// Decides whether a call with elapsed time `dt` runs a pass.
pub fn gate(dt: usize) -> (state: SchedulerState)
    ensures
        state == gate_spec(dt),
{
    if dt >= THROTTLE_THRESHOLD {
        SchedulerState::Running
    } else {
        SchedulerState::Idle
    }
}

/// The patches that the flow rules ask for in a neighbourhood. The rule is
/// chosen by the kind of the tile in the centre: solid stone, liquid stone,
/// solid water, liquid water. For any other tile no rule runs.
pub open spec fn flow_spec(n: Neighborhood) -> Seq<Patch> {
    match n.center.tile.kind_spec() {
        Kind::Rock => stone::solid_physics_spec(n),
        Kind::Molten => stone::liquid_physics_spec(n),
        Kind::Ice => liquid::solid_physics_spec(n),
        Kind::Water => liquid::liquid_physics_spec(n),
        _ => Seq::empty(),
    }
}

/// Runs the flow rule that belongs to the tile in the centre of the
/// snapshot. The answer depends on the snapshot alone; `None` stands for no
/// change.
pub fn dispatch(snapshot: &Snapshot) -> (out: Option<PatchSet>)
    ensures
        patches_of(out) == flow_spec(snapshot@),
        out is Some <==> flow_spec(snapshot@).len() > 0,
{
    match snapshot.center.tile.kind() {
        Kind::Rock => stone::solid_physics(snapshot),
        Kind::Molten => stone::liquid_physics(snapshot),
        Kind::Ice => liquid::solid_physics(snapshot),
        Kind::Water => liquid::liquid_physics(snapshot),
        _ => None,
    }
}

/// Flow purity: where the tile in the centre is neither stone nor water, no
/// rule asks for a patch, whatever surrounds it.
pub proof fn lemma_no_flow_without_stone_or_water(n: Neighborhood)
    requires
        !(n.center.tile is Stone),
        !(n.center.tile is Water),
    ensures
        flow_spec(n) == Seq::<Patch>::empty(),
        stone::solid_physics_spec(n) == Seq::<Patch>::empty(),
        stone::liquid_physics_spec(n) == Seq::<Patch>::empty(),
        liquid::solid_physics_spec(n) == Seq::<Patch>::empty(),
        liquid::liquid_physics_spec(n) == Seq::<Patch>::empty(),
{
}

/// Every patch of a flow rule lies in the neighbourhood that was sampled:
/// at the centre or at one of its neighbours.
pub proof fn lemma_flow_stays_in_neighborhood(n: Neighborhood, j: int)
    requires
        0 <= j < flow_spec(n).len(),
    ensures
        flow_spec(n)[j].at == n.center.at || exists|k: int|
            0 <= k < n.neighbors.len() && (#[trigger] n.neighbors[k]).at == flow_spec(n)[j].at,
{
    let patch = flow_spec(n)[j];
    if patch.at != n.center.at {
        match n.center.tile {
            Tile::Stone(material, _) => {
                lemma_spread_into(
                    n.neighbors,
                    Tile::Stone(material, State::Liquid),
                );
            },
            Tile::Water(material, _, amount) => {
                lemma_spread_into(
                    n.neighbors,
                    Tile::Water(material, State::Liquid, liquid::thinned(amount)),
                );
            },
            _ => {},
        }
    }
}

/// A rule's answer is a map from positions to tiles: where the neighbours
/// lie at positions that differ from one another, no position is named
/// twice.
pub proof fn lemma_flow_names_no_position_twice(n: Neighborhood)
    requires
        distinct_places(n.neighbors),
    ensures
        names_no_position_twice(flow_spec(n)),
{
    match n.center.tile {
        Tile::Stone(material, _) => {
            lemma_spread_names_no_position_twice(
                n.neighbors,
                Tile::Stone(material, State::Liquid),
            );
        },
        Tile::Water(material, _, amount) => {
            lemma_spread_names_no_position_twice(
                n.neighbors,
                Tile::Water(material, State::Liquid, liquid::thinned(amount)),
            );
        },
        _ => {},
    }
}

/// The answer of the rule for a column of a grid names no position twice.
pub proof fn lemma_flow_on_grid_names_no_position_twice(g: Grid, p: Point2D)
    requires
        p.0 < usize::MAX,
        p.1 < usize::MAX,
    ensures
        names_no_position_twice(flow_spec(neighborhood(g, p, 0))),
{
    lemma_neighborhood_distinct(g, p, 0);
    lemma_flow_names_no_position_twice(neighborhood(g, p, 0));
}

/// Liquid water that does not freeze flows into every empty neighbour.
pub proof fn lemma_water_spreads(n: Neighborhood, k: int)
    requires
        n.center.tile.kind_spec() == Kind::Water,
        count_kind(n.neighbors, Kind::Ice) < liquid::FREEZE_CONTACTS,
        0 <= k < n.neighbors.len(),
        n.neighbors[k].tile is Empty,
    ensures
        flow_spec(n).len() > 0,
        exists|j: int|
            0 <= j < flow_spec(n).len() && (#[trigger] flow_spec(n)[j]).at == n.neighbors[k].at
                && flow_spec(n)[j].tile.kind_spec() == Kind::Water,
{
    match n.center.tile {
        Tile::Water(material, _, amount) => {
            let tile = Tile::Water(material, State::Liquid, liquid::thinned(amount));
            lemma_spread_into(n.neighbors, tile);
            let patch = Patch { at: n.neighbors[k].at, tile };
            assert(flow_spec(n).contains(patch));
            let j = choose|j: int| 0 <= j < flow_spec(n).len() && flow_spec(n)[j] == patch;
            assert(flow_spec(n)[j].at == n.neighbors[k].at);
        },
        _ => {},
    }
}

/// The patches that the columns at the first `n` places ask for, in
/// row-major order. Each column's rule reads the ground level of the same
/// grid.
pub open spec fn patches_upto(g: Grid, n: int) -> Seq<Patch>
    decreases n,
{
    if n <= 0 {
        Seq::empty()
    } else {
        patches_upto(g, n - 1) + flow_spec(neighborhood(g, g.point_of(n - 1), 0))
    }
}

/// The tile that the patches leave at `q`: that of the last patch for `q`,
/// if there is one.
pub open spec fn last_patch_for(patches: Seq<Patch>, q: Point2D) -> Option<Tile>
    decreases patches.len(),
{
    if patches.len() == 0 {
        None
    } else if patches.last().at == q {
        Some(patches.last().tile)
    } else {
        last_patch_for(patches.drop_last(), q)
    }
}

/// A column whose ground tile is replaced by `tile`, if there is a
/// replacement and the column has a ground level. The elevations above keep
/// their tiles.
pub open spec fn patched_column(col: Seq<Tile>, tile: Option<Tile>) -> Seq<Tile> {
    match tile {
        Some(t) => if col.len() > 0 {
            col.update(0, t)
        } else {
            col
        },
        None => col,
    }
}

/// The grid after the patches are made in their order: at each position
/// the last patch wins, and a patch for a position outside the grid does
/// nothing.
pub open spec fn apply_patches_spec(g: Grid, patches: Seq<Patch>) -> Grid {
    g.with_columns(
        Seq::new(
            g.columns.len(),
            |i: int| patched_column(g.columns[i], last_patch_for(patches, g.point_of(i))),
        ),
    )
}

/// The grid after one pass: the gravity sweep, then the flow rules of every
/// column on the swept grid, then their patches.
pub open spec fn pass_spec(g: Grid) -> Grid {
    let swept = gravity_pass_spec(g);
    apply_patches_spec(swept, patches_upto(swept, swept.columns.len() as int))
}

/// The world after a call of the scheduler with elapsed time `dt`.
pub open spec fn run_spec(world: Option<Grid>, dt: usize) -> Option<Grid> {
    match world {
        Some(g) => if gate_spec(dt) == SchedulerState::Running {
            Some(pass_spec(g))
        } else {
            world
        },
        None => None,
    }
}

/// The world after one call for each elapsed time in `dts`.
pub open spec fn run_all(world: Option<Grid>, dts: Seq<usize>) -> Option<Grid>
    decreases dts.len(),
{
    if dts.len() == 0 {
        world
    } else {
        run_spec(run_all(world, dts.drop_last()), dts.last())
    }
}

/// Throttle gate: any number of calls whose elapsed times each stay below
/// the threshold leave the world as it was.
pub proof fn lemma_throttled_calls_change_nothing(world: Option<Grid>, dts: Seq<usize>)
    requires
        forall|k: int| 0 <= k < dts.len() ==> #[trigger] dts[k] < THROTTLE_THRESHOLD,
    ensures
        run_all(world, dts) == world,
    decreases dts.len(),
{
    if dts.len() > 0 {
        let before = dts.drop_last();
        assert forall|k: int| 0 <= k < before.len() implies #[trigger] before[k]
            < THROTTLE_THRESHOLD by {
            assert(before[k] == dts[k]);
        }
        lemma_throttled_calls_change_nothing(world, before);
        assert(dts[dts.len() - 1] < THROTTLE_THRESHOLD);
    }
}

/// A world without a map stays without one, whatever time has elapsed.
pub proof fn lemma_absent_map_stays_absent(dt: usize)
    ensures
        run_spec(None, dt) == None::<Grid>,
{
}

/// Later patches win: of two runs of patches put one after the other, the
/// second decides wherever it names the position.
pub proof fn lemma_later_patch_wins(first: Seq<Patch>, second: Seq<Patch>, q: Point2D)
    ensures
        last_patch_for(first + second, q) == match last_patch_for(second, q) {
            Some(t) => Some(t),
            None => last_patch_for(first, q),
        },
    decreases second.len(),
{
    if second.len() == 0 {
        assert(first + second =~= first);
    } else {
        assert((first + second).drop_last() =~= first + second.drop_last());
        lemma_later_patch_wins(first, second.drop_last(), q);
    }
}

/// No patches, no change: a rule that answers nothing leaves the grid as an
/// empty patch set does.
pub proof fn lemma_no_patches_no_change(g: Grid)
    ensures
        apply_patches_spec(g, patches_of(None)) == g,
        apply_patches_spec(g, Seq::empty()) == g,
{
    assert(apply_patches_spec(g, Seq::empty()).columns =~= g.columns);
}

/// Patches replace ground tiles only: they keep the dimensions of the grid
/// and the length of every column, and above the ground every tile stays.
pub proof fn lemma_patches_touch_ground_only(g: Grid, patches: Seq<Patch>, i: int, h: int)
    requires
        0 <= i < g.columns.len(),
    ensures
        apply_patches_spec(g, patches).width == g.width,
        apply_patches_spec(g, patches).height == g.height,
        apply_patches_spec(g, patches).highest_level == g.highest_level,
        apply_patches_spec(g, patches).columns.len() == g.columns.len(),
        apply_patches_spec(g, patches).columns[i].len() == g.columns[i].len(),
        0 < h < g.columns[i].len() ==> apply_patches_spec(g, patches).columns[i][h]
            == g.columns[i][h],
        g.wf() ==> apply_patches_spec(g, patches).wf(),
{
    assert forall|j: int| 0 <= j < g.columns.len() implies (#[trigger] apply_patches_spec(
        g,
        patches,
    ).columns[j]).len() == g.columns[j].len() by {}
}

/// The patches that the flow rules of all columns ask for, in row-major
/// order. The map is only read.
pub fn collect_patches(map: &TerrainMap) -> (out: Vec<Patch>)
    requires
        map.wf(),
    ensures
        out@ == patches_upto(map@, map@.columns.len() as int),
{
    let count: usize = map.column_count();
    let mut out: Vec<Patch> = Vec::new();
    let mut i: usize = 0;
    while i < count
        invariant
            i <= count,
            count == map@.columns.len(),
            map.wf(),
            out@ == patches_upto(map@, i as int),
        decreases count - i,
    {
        let p: Point2D = map.point_at(i);
        let around = Snapshot::take(map, p, 0);
        match dispatch(&around) {
            Some(set) => {
                let mut set = set;
                out.append(&mut set.entries);
            },
            None => {
                assert(out@ + Seq::<Patch>::empty() =~= out@);
            },
        }
        i = i + 1;
    }
    out
}

/// Makes the patches in their order. Each replaces the ground tile of its
/// column; one for a position outside the map, or for a column without a
/// ground level, does nothing.
pub fn apply_patches(map: &mut TerrainMap, patches: &Vec<Patch>)
    requires
        old(map).wf(),
    ensures
        final(map).wf(),
        final(map)@ == apply_patches_spec(old(map)@, patches@),
{
    let ghost start = map@;
    let mut k: usize = 0;
    proof {
        assert(patches@.take(0) =~= Seq::<Patch>::empty());
        lemma_no_patches_no_change(start);
    }
    while k < patches.len()
        invariant
            k <= patches.len(),
            map.wf(),
            start.wf(),
            start.columns.len() <= usize::MAX,
            map@ == apply_patches_spec(start, patches@.take(k as int)),
        decreases patches.len() - k,
    {
        let patch: Patch = patches[k];
        let ghost done = patches@.take(k as int);
        let ghost next = patches@.take(k + 1);
        assert(next.drop_last() =~= done);
        assert(next.last() == patch);
        if map.contains(patch.at) && map.column(patch.at).len() > 0 {
            let ghost before = map@;
            map.set_tile(patch.at, 0, patch.tile);
            proof {
                let target = start.index_of(patch.at);
                lemma_index_of(start, patch.at);
                assert forall|i: int| 0 <= i < start.columns.len() implies #[trigger] map@.columns[i]
                    == apply_patches_spec(start, next).columns[i] by {
                    lemma_point_of(start, i);
                    if i == target {
                        assert(map@.columns[i] =~= patched_column(
                            start.columns[i],
                            Some(patch.tile),
                        ));
                    } else {
                        assert(start.point_of(i) != patch.at);
                    }
                }
                assert(map@.columns =~= apply_patches_spec(start, next).columns);
            }
        } else {
            proof {
                assert forall|i: int| 0 <= i < start.columns.len() implies #[trigger] map@.columns[i]
                    == apply_patches_spec(start, next).columns[i] by {
                    lemma_point_of(start, i);
                    if start.point_of(i) == patch.at {
                        assert(map@.columns[i].len() == 0);
                        assert(start.columns[i].len() == 0);
                    }
                }
                assert(map@.columns =~= apply_patches_spec(start, next).columns);
            }
        }
        k = k + 1;
    }
    assert(patches@.take(patches@.len() as int) =~= patches@);
}

/// Runs one full pass over the map: the gravity sweep, then the flow rules
/// of every column, then their patches.
pub fn pass(map: &mut TerrainMap)
    requires
        old(map).wf(),
    ensures
        final(map).wf(),
        final(map)@ == pass_spec(old(map)@),
{
    gravity_pass(map);
    let patches: Vec<Patch> = collect_patches(&*map);
    apply_patches(map, &patches);
}

/// The entry point of the physics, called once per tick with the time that
/// has elapsed. Below the threshold nothing is done; from the threshold on
/// the map, if the world has one, goes through exactly one pass.
pub fn run(ws: &mut WorldState, dt: usize)
    requires
        old(ws).wf(),
    ensures
        final(ws).wf(),
        final(ws)@ == run_spec(old(ws)@, dt),
        dt < THROTTLE_THRESHOLD ==> *final(ws) == *old(ws),
        old(ws).map is None ==> *final(ws) == *old(ws),
{
    match gate(dt) {
        SchedulerState::Running => {
            match &mut ws.map {
                Some(map) => {
                    pass(map);
                },
                None => {},
            }
        },
        SchedulerState::Idle => {},
    }
}

} // verus!
