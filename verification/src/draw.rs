//! What the renderer shows: the tile of a column at the viewing level, the
//! words for a tile, and where the heads-up frame lies on the screen.

use crate::geometry::Point2D;
use crate::movement::grid_point;
use crate::terrain::{visible_tile_spec, Column, Slope, State, TerrainMap, Tile};
use vstd::prelude::*;

verus! {

/// Something that can say in words what it is.
pub trait Describe {
    fn describe(&self) -> String;
}

/// The words for a tile.
pub open spec fn description(tile: Tile) -> Seq<char> {
    match tile {
        Tile::Empty => "Empty space"@,
        Tile::Stone(_, State::Solid) => "Solid stone"@,
        Tile::Stone(_, State::Liquid) => "Molten stone"@,
        Tile::Water(_, State::Solid, _) => "Ice"@,
        Tile::Water(_, State::Liquid, _) => "Water"@,
        Tile::Ramp(_, Slope::Up) => "Ramp leading up"@,
        Tile::Ramp(_, Slope::Down) => "Ramp leading down"@,
    }
}

impl Describe for Tile {
    fn describe(&self) -> (words: String)
        ensures
            words@ == description(*self),
    {
        match self {
            Tile::Empty => "Empty space".to_owned(),
            Tile::Stone(_, State::Solid) => "Solid stone".to_owned(),
            Tile::Stone(_, State::Liquid) => "Molten stone".to_owned(),
            Tile::Water(_, State::Solid, _) => "Ice".to_owned(),
            Tile::Water(_, State::Liquid, _) => "Water".to_owned(),
            Tile::Ramp(_, Slope::Up) => "Ramp leading up".to_owned(),
            Tile::Ramp(_, Slope::Down) => "Ramp leading down".to_owned(),
        }
    }
}

/// The tile of a stack that is shown at a signed viewing level: a level
/// below the ground shows what a level above the top shows, the topmost tile.
pub open spec fn shown_tile_spec(tiles: Seq<Tile>, level: i32) -> Option<Tile> {
    if level < 0 {
        visible_tile_spec(tiles, tiles.len() as int)
    } else {
        visible_tile_spec(tiles, level as int)
    }
}

/// The tile of the column that is drawn and described at viewing level
/// `level`, if the column has any tile.
pub fn shown_tile(col: &Column, level: i32) -> (tile: Option<Tile>)
    ensures
        tile == shown_tile_spec(col@, level),
{
    if level < 0 {
        col.visible_tile(col.len())
    } else {
        col.visible_tile(level as usize)
    }
}

/// Where the heads-up frame lies on a screen: the column it starts at, its
/// width and its height.
#[derive(Clone, Copy, Debug, PartialEq, Eq, Structural)]
pub struct HudFrame {
    pub start: i32,
    pub width: i32,
    pub height: i32,
}

/// The frame on a screen of `wid` by `hig` cells: it starts ten cells left
/// of two thirds of the width and reaches to the right edge, over the whole
/// height.
pub open spec fn hud_frame_spec(wid: usize, hig: usize) -> HudFrame {
    let start = (wid as int / 3) * 2 - 10;
    HudFrame { start: start as i32, width: (wid - start) as i32, height: hig as i32 }
}

/// Lays out the heads-up frame on a screen of `wid` by `hig` cells.
pub fn hud_frame(wid: usize, hig: usize) -> (frame: HudFrame)
    requires
        wid <= i32::MAX - 10,
        hig <= i32::MAX,
    ensures
        frame == hud_frame_spec(wid, hig),
        frame.start + frame.width == wid,
{
    let w: i32 = wid as i32;
    let start: i32 = (w / 3) * 2 - 10;
    HudFrame { start, width: w - start, height: hig as i32 }
}

/// The position under the cursor, if the cursor is on the map.
pub fn cursor_on_map(map: &TerrainMap, cursor: (i32, i32)) -> (p: Option<Point2D>)
    ensures
        p == grid_point(map@, cursor),
{
    map.point_of_signed(cursor)
}

} // verus!
