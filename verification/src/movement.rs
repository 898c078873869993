//! Whether a creature may step from one column onto another, as path
//! planning asks it.

use crate::geometry::Point2D;
use crate::terrain::{
    first_open_spec, lemma_first_open, Grid, Slope, TerrainMap, Tile, WorldState,
};
use vstd::prelude::*;

verus! {

/// An upward ramp can be climbed if it starts at most this many levels above
/// the standing level.
pub const RAMP_REACH: usize = 3;

/// A drop of at least this many levels is taken as a jump.
pub const JUMP_DEPTH: usize = 4;

/// The elevation at which something stands in a stack: that of the lowest
/// tile that is not solid, or the top of the stack where every tile is
/// solid.
pub open spec fn standing_level(tiles: Seq<Tile>) -> int {
    match first_open_spec(tiles, tiles.len() as int) {
        Some(i) => i,
        None => tiles.len() as int,
    }
}

/// The grid position that signed coordinates name, if they name one.
pub open spec fn grid_point(g: Grid, at: (i32, i32)) -> Option<Point2D> {
    if 0 <= at.0 && 0 <= at.1 && g.contains((at.0 as usize, at.1 as usize)) {
        Some((at.0 as usize, at.1 as usize))
    } else {
        None
    }
}

/// Whether the tile is a ramp that leads up.
pub open spec fn is_up_ramp(tile: Tile) -> bool {
    match tile {
        Tile::Ramp(_, Slope::Up) => true,
        _ => false,
    }
}

/// Whether a step from standing level `from_level` leads onto a column
/// whose lowest open tile is `tile`, at elevation `to_level`: on the level,
/// one level up, up a ramp within reach, or down a drop deep enough to
/// jump.
pub open spec fn can_step(from_level: int, to_level: int, tile: Tile) -> bool {
    ||| to_level == from_level
    ||| to_level == from_level + 1
    ||| (is_up_ramp(tile) && to_level <= from_level + RAMP_REACH)
    ||| from_level - to_level >= JUMP_DEPTH
}

/// Whether the step from `from` to `to` can be made. It cannot where the
/// world has no map, where an end lies off the map, or where the column at
/// `to` is solid throughout.
pub open spec fn can_move_spec(world: Option<Grid>, from: (i32, i32), to: (i32, i32)) -> bool {
    match world {
        Some(g) => match (grid_point(g, from), grid_point(g, to)) {
            (Some(a), Some(b)) => match first_open_spec(g.column(b), g.column(b).len() as int) {
                Some(i) => can_step(standing_level(g.column(a)), i, g.column(b)[i]),
                None => false,
            },
            _ => false,
        },
        None => false,
    }
}

impl TerrainMap {
    /// The elevation at which something stands at `p`.
    pub fn location_z(&self, p: Point2D) -> (z: usize)
        requires
            self.wf(),
            self@.contains(p),
        ensures
            z == standing_level(self@.column(p)),
    {
        let col = self.column(p);
        match col.first_open() {
            Some(i) => i,
            None => col.len(),
        }
    }

    /// The position of the map that signed coordinates name, if they name
    /// one.
    pub fn point_of_signed(&self, at: (i32, i32)) -> (p: Option<Point2D>)
        ensures
            p == grid_point(self@, at),
    {
        if at.0 < 0 || at.1 < 0 {
            return None;
        }
        let q: Point2D = (at.0 as usize, at.1 as usize);
        if self.contains(q) {
            Some(q)
        } else {
            None
        }
    }
}

/// Decides from the two levels and the tile whether a step can be made.
pub fn step_allowed(from_level: usize, to_level: usize, tile: Tile) -> (ok: bool)
    ensures
        ok == can_step(from_level as int, to_level as int, tile),
{
    let up_ramp: bool = match tile {
        Tile::Ramp(_, Slope::Up) => true,
        _ => false,
    };
    if to_level >= from_level {
        let rise: usize = to_level - from_level;
        rise <= 1 || (up_ramp && rise <= RAMP_REACH)
    } else {
        up_ramp || from_level - to_level >= JUMP_DEPTH
    }
}

/// Whether a creature at `from` may step onto `to`.
pub fn can_move(ws: &WorldState, from: (i32, i32), to: (i32, i32)) -> (ok: bool)
    requires
        ws.wf(),
    ensures
        ok == can_move_spec(ws@, from, to),
{
    match &ws.map {
        Some(map) => {
            let a = match map.point_of_signed(from) {
                Some(a) => a,
                None => {
                    return false;
                },
            };
            let b = match map.point_of_signed(to) {
                Some(b) => b,
                None => {
                    return false;
                },
            };
            let target = map.column(b);
            match target.first_open() {
                Some(i) => {
                    proof {
                        lemma_first_open(target@, target@.len() as int);
                    }
                    let z: usize = map.location_z(a);
                    step_allowed(z, i, target.tiles[i])
                },
                None => false,
            }
        },
        None => false,
    }
}

} // verus!
