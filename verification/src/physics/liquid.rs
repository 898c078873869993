//! The flow rules of water: ice thaws next to heat, water freezes between
//! ice and otherwise spreads into empty space.

use crate::physics::snapshot::{
    count_kind, patches_of, spread_into, Neighborhood, Patch, PatchSet, Snapshot,
};
use crate::terrain::{Kind, State, Tile};
use vstd::prelude::*;

verus! {

/// Ice thaws when at least this many of its neighbours are liquid water.
pub const THAW_CONTACTS: usize = 2;

/// Ice thaws when at least this many of its neighbours are molten stone.
pub const SCALD_CONTACTS: usize = 1;

/// Water freezes when at least this many of its neighbours are ice.
pub const FREEZE_CONTACTS: usize = 2;

/// The flow amount of the water that spreads out of water of flow amount
/// `amount`: one less, and never less than nothing.
pub open spec fn thinned(amount: u32) -> u32 {
    if amount == 0 {
        0
    } else {
        (amount - 1) as u32
    }
}

/// What the rule for solid water asks for. Liquid water and molten stone
/// around the ice stand for the heat that reaches it: with `SCALD_CONTACTS`
/// molten neighbours or `THAW_CONTACTS` neighbours of liquid water the ice
/// becomes liquid, keeping its material and flow amount. A centre that is not
/// ice gets no patch.
pub open spec fn solid_physics_spec(n: Neighborhood) -> Seq<Patch> {
    match n.center.tile {
        Tile::Water(material, State::Solid, amount) => if count_kind(n.neighbors, Kind::Molten)
            >= SCALD_CONTACTS || count_kind(n.neighbors, Kind::Water) >= THAW_CONTACTS {
            seq![Patch { at: n.center.at, tile: Tile::Water(material, State::Liquid, amount) }]
        } else {
            Seq::empty()
        },
        _ => Seq::empty(),
    }
}

/// What the rule for liquid water asks for. Between `FREEZE_CONTACTS`
/// neighbours of ice the water freezes and does not spread. Otherwise it
/// flows into every empty neighbour, as water of the same material and a
/// thinned flow amount. A centre that is not liquid water gets no patch.
pub open spec fn liquid_physics_spec(n: Neighborhood) -> Seq<Patch> {
    match n.center.tile {
        Tile::Water(material, State::Liquid, amount) => if count_kind(n.neighbors, Kind::Ice)
            >= FREEZE_CONTACTS {
            seq![Patch { at: n.center.at, tile: Tile::Water(material, State::Solid, amount) }]
        } else {
            spread_into(n.neighbors, Tile::Water(material, State::Liquid, thinned(amount)))
        },
        _ => Seq::empty(),
    }
}

/// The flow rule for solid water. The answer depends on the snapshot alone;
/// `None` stands for no change.
pub fn solid_physics(snapshot: &Snapshot) -> (out: Option<PatchSet>)
    ensures
        patches_of(out) == solid_physics_spec(snapshot@),
        out is Some <==> solid_physics_spec(snapshot@).len() > 0,
{
    match snapshot.center.tile {
        Tile::Water(material, State::Solid, amount) => {
            if snapshot.count(Kind::Molten) >= SCALD_CONTACTS || snapshot.count(Kind::Water)
                >= THAW_CONTACTS {
                Some(
                    PatchSet::single(
                        snapshot.center.at,
                        Tile::Water(material, State::Liquid, amount),
                    ),
                )
            } else {
                None
            }
        },
        _ => None,
    }
}

/// The flow rule for liquid water. The answer depends on the snapshot alone;
/// `None` stands for no change.
pub fn liquid_physics(snapshot: &Snapshot) -> (out: Option<PatchSet>)
    ensures
        patches_of(out) == liquid_physics_spec(snapshot@),
        out is Some <==> liquid_physics_spec(snapshot@).len() > 0,
{
    match snapshot.center.tile {
        Tile::Water(material, State::Liquid, amount) => {
            if snapshot.count(Kind::Ice) >= FREEZE_CONTACTS {
                Some(
                    PatchSet::single(
                        snapshot.center.at,
                        Tile::Water(material, State::Solid, amount),
                    ),
                )
            } else {
                PatchSet::spread(
                    snapshot,
                    Tile::Water(material, State::Liquid, amount.saturating_sub(1)),
                )
            }
        },
        _ => None,
    }
}

} // verus!
