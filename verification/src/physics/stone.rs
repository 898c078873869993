//! The flow rules of stone: solid rock melts between molten neighbours,
//! molten rock spreads into empty space and hardens where it meets water.

use crate::physics::snapshot::{
    count_kind, patches_of, spread_into, Neighborhood, Patch, PatchSet, Snapshot,
};
use crate::terrain::{Kind, State, Tile};
use vstd::prelude::*;

verus! {

/// Rock melts when at least this many of its neighbours are molten.
pub const MELT_CONTACTS: usize = 2;

/// Molten rock hardens when at least this many of its neighbours are water
/// or ice.
pub const QUENCH_CONTACTS: usize = 1;

/// What the rule for solid stone asks for. The number of molten neighbours
/// stands for the heat that reaches the rock: with `MELT_CONTACTS` of them
/// the rock itself becomes molten, with fewer nothing changes. A centre that
/// is not solid stone gets no patch.
pub open spec fn solid_physics_spec(n: Neighborhood) -> Seq<Patch> {
    match n.center.tile {
        Tile::Stone(material, State::Solid) => if count_kind(n.neighbors, Kind::Molten)
            >= MELT_CONTACTS {
            seq![Patch { at: n.center.at, tile: Tile::Stone(material, State::Liquid) }]
        } else {
            Seq::empty()
        },
        _ => Seq::empty(),
    }
}

/// What the rule for liquid stone asks for. Next to `QUENCH_CONTACTS`
/// neighbours of water or ice the molten rock hardens and does not spread.
/// Otherwise it flows into every empty neighbour. A centre that is not
/// liquid stone gets no patch.
pub open spec fn liquid_physics_spec(n: Neighborhood) -> Seq<Patch> {
    match n.center.tile {
        Tile::Stone(material, State::Liquid) => if count_kind(n.neighbors, Kind::Water)
            + count_kind(n.neighbors, Kind::Ice) >= QUENCH_CONTACTS {
            seq![Patch { at: n.center.at, tile: Tile::Stone(material, State::Solid) }]
        } else {
            spread_into(n.neighbors, Tile::Stone(material, State::Liquid))
        },
        _ => Seq::empty(),
    }
}

/// The flow rule for solid stone. The answer depends on the snapshot alone;
/// `None` stands for no change.
pub fn solid_physics(snapshot: &Snapshot) -> (out: Option<PatchSet>)
    ensures
        patches_of(out) == solid_physics_spec(snapshot@),
        out is Some <==> solid_physics_spec(snapshot@).len() > 0,
{
    match snapshot.center.tile {
        Tile::Stone(material, State::Solid) => {
            if snapshot.count(Kind::Molten) >= MELT_CONTACTS {
                Some(PatchSet::single(snapshot.center.at, Tile::Stone(material, State::Liquid)))
            } else {
                None
            }
        },
        _ => None,
    }
}

/// The flow rule for liquid stone. The answer depends on the snapshot alone;
/// `None` stands for no change.
pub fn liquid_physics(snapshot: &Snapshot) -> (out: Option<PatchSet>)
    ensures
        patches_of(out) == liquid_physics_spec(snapshot@),
        out is Some <==> liquid_physics_spec(snapshot@).len() > 0,
{
    match snapshot.center.tile {
        Tile::Stone(material, State::Liquid) => {
            let water: usize = snapshot.count(Kind::Water);
            let ice: usize = snapshot.count(Kind::Ice);
            if water >= QUENCH_CONTACTS || ice >= QUENCH_CONTACTS {
                Some(PatchSet::single(snapshot.center.at, Tile::Stone(material, State::Solid)))
            } else {
                PatchSet::spread(snapshot, Tile::Stone(material, State::Liquid))
            }
        },
        _ => None,
    }
}

} // verus!
