use voxel_terrain::draw::{cursor_on_map, hud_frame, shown_tile, Describe, HudFrame};
use voxel_terrain::terrain::{Column, Slope, State, TerrainMap, Tile};

#[test]
fn tiles_describe_themselves() {
    assert_eq!(Tile::Empty.describe(), "Empty space");
    assert_eq!(Tile::Stone(1, State::Solid).describe(), "Solid stone");
    assert_eq!(Tile::Stone(1, State::Liquid).describe(), "Molten stone");
    assert_eq!(Tile::Water(1, State::Solid, 2).describe(), "Ice");
    assert_eq!(Tile::Water(1, State::Liquid, 2).describe(), "Water");
    assert_eq!(Tile::Ramp(1, Slope::Up).describe(), "Ramp leading up");
    assert_eq!(Tile::Ramp(1, Slope::Down).describe(), "Ramp leading down");
}

#[test]
fn shown_tile_falls_back_to_the_topmost() {
    let rock = Tile::Stone(1, State::Solid);
    let ramp = Tile::Ramp(1, Slope::Up);
    let col = Column::new(vec![rock, Tile::Empty, ramp]);
    assert_eq!(shown_tile(&col, 0), Some(rock));
    assert_eq!(shown_tile(&col, 1), Some(Tile::Empty));
    assert_eq!(shown_tile(&col, 2), Some(ramp));
    assert_eq!(shown_tile(&col, 3), Some(ramp));
    assert_eq!(shown_tile(&col, i32::MAX), Some(ramp));
    assert_eq!(shown_tile(&col, -1), Some(ramp));
    assert_eq!(shown_tile(&Column::new(vec![]), 0), None);
}

#[test]
fn hud_frame_lies_in_the_right_third() {
    assert_eq!(hud_frame(80, 50), HudFrame { start: 42, width: 38, height: 50 });
    assert_eq!(hud_frame(100, 40), HudFrame { start: 56, width: 44, height: 40 });
    assert_eq!(hud_frame(0, 0), HudFrame { start: -10, width: 10, height: 0 });
}

#[test]
fn cursor_on_and_off_the_map() {
    let map = TerrainMap::new(3, 2, 0, (0..6).map(|_| Column::empty(0)).collect()).unwrap();
    assert_eq!(cursor_on_map(&map, (0, 0)), Some((0, 0)));
    assert_eq!(cursor_on_map(&map, (2, 1)), Some((2, 1)));
    assert_eq!(cursor_on_map(&map, (3, 1)), None);
    assert_eq!(cursor_on_map(&map, (2, 2)), None);
    assert_eq!(cursor_on_map(&map, (-1, 0)), None);
    assert_eq!(cursor_on_map(&map, (0, -1)), None);
}
