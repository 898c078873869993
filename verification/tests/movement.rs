use voxel_terrain::movement::{can_move, step_allowed, JUMP_DEPTH, RAMP_REACH};
use voxel_terrain::terrain::{Column, Slope, State, TerrainMap, Tile, WorldState};

const E: Tile = Tile::Empty;
const S: Tile = Tile::Stone(1, State::Solid);
const UP: Tile = Tile::Ramp(1, Slope::Up);
const DOWN: Tile = Tile::Ramp(1, Slope::Down);

fn world(columns: Vec<Vec<Tile>>) -> WorldState {
    let width = columns.len();
    let map = TerrainMap::new(width, 1, 0, columns.into_iter().map(Column::new).collect());
    WorldState::with_map(map.unwrap())
}

#[test]
fn reach_and_depth() {
    assert_eq!(RAMP_REACH, 3);
    assert_eq!(JUMP_DEPTH, 4);
}

#[test]
fn steps_on_the_level_and_one_up() {
    assert!(step_allowed(2, 2, E));
    assert!(step_allowed(2, 3, E));
    assert!(!step_allowed(2, 4, E));
    assert!(!step_allowed(2, 4, DOWN));
}

#[test]
fn ramps_reach_three_levels() {
    assert!(step_allowed(2, 4, UP));
    assert!(step_allowed(2, 5, UP));
    assert!(!step_allowed(2, 6, UP));
    assert!(step_allowed(5, 3, UP));
}

#[test]
fn drops_must_be_deep() {
    assert!(!step_allowed(5, 4, E));
    assert!(!step_allowed(5, 2, E));
    assert!(step_allowed(5, 1, E));
    assert!(step_allowed(9, 0, E));
}

#[test]
fn standing_level_is_the_lowest_open_tile() {
    let ws = world(vec![vec![S, S, E, S], vec![S, S], vec![E]]);
    let map = ws.map.as_ref().unwrap();
    assert_eq!(map.location_z((0, 0)), 2);
    assert_eq!(map.location_z((1, 0)), 2);
    assert_eq!(map.location_z((2, 0)), 0);
}

#[test]
fn moves_between_columns() {
    let ws = world(vec![vec![S, S, E], vec![S, S, E], vec![S, S, S, E], vec![S, S, S, S, UP], vec![S, E]]);
    assert!(can_move(&ws, (0, 0), (1, 0)));
    assert!(can_move(&ws, (0, 0), (2, 0)));
    assert!(can_move(&ws, (0, 0), (3, 0)));
    assert!(!can_move(&ws, (4, 0), (2, 0)));
    assert!(!can_move(&ws, (0, 0), (4, 0)));
}

#[test]
fn no_move_onto_a_solid_column_or_off_the_map() {
    let ws = world(vec![vec![S, E], vec![S, S]]);
    assert!(!can_move(&ws, (0, 0), (1, 0)));
    assert!(!can_move(&ws, (0, 0), (2, 0)));
    assert!(!can_move(&ws, (0, 0), (0, 1)));
    assert!(!can_move(&ws, (0, 0), (-1, 0)));
    assert!(!can_move(&ws, (-1, 0), (0, 0)));
    assert!(!can_move(&ws, (0, -3), (0, 0)));
    assert!(can_move(&ws, (0, 0), (0, 0)));
}

#[test]
fn no_move_without_a_map() {
    assert!(!can_move(&WorldState::new(), (0, 0), (0, 0)));
}
