use voxel_terrain::physics::gravity::{apply_gravity, gravity_pass, settle_column, SUPPORT_NEEDED};
use voxel_terrain::physics::snapshot::Snapshot;
use voxel_terrain::terrain::{Column, State, TerrainMap, Tile};

const E: Tile = Tile::Empty;
const S: Tile = Tile::Stone(1, State::Solid);
const T: Tile = Tile::Stone(2, State::Solid);

fn single(tiles: Vec<Tile>, highest_level: usize) -> TerrainMap {
    TerrainMap::new(1, 1, highest_level, vec![Column::new(tiles)]).unwrap()
}

fn row(columns: Vec<Vec<Tile>>, highest_level: usize) -> TerrainMap {
    let width = columns.len();
    TerrainMap::new(width, 1, highest_level, columns.into_iter().map(Column::new).collect())
        .unwrap()
}

fn matter(tiles: &[Tile]) -> Vec<Tile> {
    let mut kept: Vec<Tile> = tiles.iter().copied().filter(|t| *t != E).collect();
    kept.sort_by_key(|t| format!("{:?}", t));
    kept
}

#[test]
fn support_threshold_is_two() {
    assert_eq!(SUPPORT_NEEDED, 2);
}

#[test]
fn rule_moves_an_unsupported_tile_one_level() {
    let mut col = Column::new(vec![E, E, S, E]);
    apply_gravity(&mut col, 2, 0);
    assert_eq!(col.tiles, vec![E, S, E, E]);
    let mut col = Column::new(vec![E, E, S, E]);
    apply_gravity(&mut col, 2, 1);
    assert_eq!(col.tiles, vec![E, S, E, E]);
}

#[test]
fn rule_leaves_a_supported_tile() {
    let mut col = Column::new(vec![E, E, S, E]);
    apply_gravity(&mut col, 2, 2);
    assert_eq!(col.tiles, vec![E, E, S, E]);
    apply_gravity(&mut col, 2, 4);
    assert_eq!(col.tiles, vec![E, E, S, E]);
}

#[test]
fn rule_needs_empty_space_below_and_above() {
    let mut col = Column::new(vec![T, S, E]);
    apply_gravity(&mut col, 1, 0);
    assert_eq!(col.tiles, vec![T, S, E]);
    let mut col = Column::new(vec![E, S, T]);
    apply_gravity(&mut col, 1, 0);
    assert_eq!(col.tiles, vec![E, S, T]);
}

#[test]
fn rule_never_applies_at_elevation_zero() {
    let mut col = Column::new(vec![S, E]);
    apply_gravity(&mut col, 0, 0);
    assert_eq!(col.tiles, vec![S, E]);
    let mut col = Column::new(vec![]);
    apply_gravity(&mut col, 0, 0);
    assert_eq!(col.tiles, vec![]);
}

#[test]
fn rule_treats_the_space_above_the_top_as_empty() {
    let mut col = Column::new(vec![E, S]);
    apply_gravity(&mut col, 1, 0);
    assert_eq!(col.tiles, vec![S, E]);
}

#[test]
fn rule_ignores_elevations_beyond_the_column() {
    let mut col = Column::new(vec![E, S]);
    apply_gravity(&mut col, 2, 0);
    assert_eq!(col.tiles, vec![E, S]);
    apply_gravity(&mut col, usize::MAX, 0);
    assert_eq!(col.tiles, vec![E, S]);
}

#[test]
fn sweep_moves_an_isolated_tile_exactly_one_level() {
    let mut map = single(vec![E, E, E, S, E], 5);
    gravity_pass(&mut map);
    assert_eq!(map.column((0, 0)).tiles, vec![E, E, S, E, E]);
}

#[test]
fn repeated_sweeps_settle_the_tile_on_the_ground() {
    let mut map = single(vec![E, E, E, S, E], 5);
    for _ in 0..3 {
        gravity_pass(&mut map);
    }
    assert_eq!(map.column((0, 0)).tiles, vec![S, E, E, E, E]);
    for _ in 0..4 {
        gravity_pass(&mut map);
        assert_eq!(map.column((0, 0)).tiles, vec![S, E, E, E, E]);
    }
}

#[test]
fn repeated_sweeps_settle_the_tile_on_its_support() {
    let mut map = single(vec![T, E, E, S, E], 5);
    gravity_pass(&mut map);
    assert_eq!(map.column((0, 0)).tiles, vec![T, E, S, E, E]);
    gravity_pass(&mut map);
    assert_eq!(map.column((0, 0)).tiles, vec![T, S, E, E, E]);
    gravity_pass(&mut map);
    assert_eq!(map.column((0, 0)).tiles, vec![T, S, E, E, E]);
}

#[test]
fn sweep_keeps_the_matter_of_every_column() {
    let start = vec![
        vec![E, S, E, T, E, E, S],
        vec![S, E, E, E, T, T, E],
        vec![E, E, E, E, E, E, T],
    ];
    let mut map = row(start.clone(), 7);
    for _ in 0..8 {
        gravity_pass(&mut map);
        for (x, before) in start.iter().enumerate() {
            let after = &map.column((x, 0)).tiles;
            assert_eq!(after.len(), before.len());
            assert_eq!(matter(after), matter(before));
        }
    }
}

#[test]
fn sweep_moves_two_tiles_of_one_column_at_once() {
    let mut map = single(vec![E, S, E, T, E], 5);
    gravity_pass(&mut map);
    assert_eq!(map.column((0, 0)).tiles, vec![S, E, T, E, E]);
}

#[test]
fn tile_below_another_cannot_fall() {
    let mut map = single(vec![E, S, T, E], 4);
    gravity_pass(&mut map);
    assert_eq!(map.column((0, 0)).tiles, vec![E, S, T, E]);
}

#[test]
fn sweep_on_a_column_without_padding_stays_in_bounds() {
    let mut map = single(vec![E, E, S], 3);
    gravity_pass(&mut map);
    assert_eq!(map.column((0, 0)).tiles, vec![E, S, E]);
    let mut map = single(vec![S, E, E], 3);
    gravity_pass(&mut map);
    assert_eq!(map.column((0, 0)).tiles, vec![S, E, E]);
    let mut map = single(vec![S], 1);
    gravity_pass(&mut map);
    assert_eq!(map.column((0, 0)).tiles, vec![S]);
}

#[test]
fn sweep_looks_only_below_the_highest_level() {
    let mut map = single(vec![E, E, E, S], 3);
    gravity_pass(&mut map);
    assert_eq!(map.column((0, 0)).tiles, vec![E, E, E, S]);
    let mut map = single(vec![E, S, E, E], 0);
    gravity_pass(&mut map);
    assert_eq!(map.column((0, 0)).tiles, vec![E, S, E, E]);
}

#[test]
fn two_neighbours_hold_a_tile() {
    let mut map = row(vec![vec![E, S], vec![E, T], vec![E, S]], 2);
    gravity_pass(&mut map);
    assert_eq!(map.column((1, 0)).tiles, vec![E, T]);
    assert_eq!(map.column((0, 0)).tiles, vec![S, E]);
    assert_eq!(map.column((2, 0)).tiles, vec![S, E]);
}

#[test]
fn one_neighbour_does_not_hold_a_tile() {
    let mut map = row(vec![vec![E, S], vec![E, T], vec![E, E]], 2);
    gravity_pass(&mut map);
    assert_eq!(map.column((1, 0)).tiles, vec![T, E]);
}

#[test]
fn support_is_read_from_the_grid_before_the_sweep() {
    let mut map = row(vec![vec![E, S], vec![E, T], vec![E, S]], 2);
    assert_eq!(settle_column(&map, (1, 0)).tiles, vec![E, T]);
    map.set_tile((0, 0), 1, E);
    assert_eq!(settle_column(&map, (1, 0)).tiles, vec![T, E]);
}

#[test]
fn a_column_on_the_edge_does_not_support_itself() {
    let columns = vec![vec![E, S], vec![E, E], vec![E, E], vec![E, E]];
    let mut map =
        TerrainMap::new(2, 2, 2, columns.into_iter().map(Column::new).collect()).unwrap();
    let around = Snapshot::take(&map, (0, 0), 1);
    assert_eq!(around.neighbors.len(), 2);
    assert_eq!(around.support(), 0);
    gravity_pass(&mut map);
    assert_eq!(map.column((0, 0)).tiles, vec![S, E]);
}
