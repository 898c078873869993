use voxel_terrain::physics::snapshot::{Cell, Patch, PatchSet, Snapshot};
use voxel_terrain::physics::{apply_patches, collect_patches, dispatch, liquid, pass, stone};
use voxel_terrain::terrain::{Column, Kind, Slope, State, TerrainMap, Tile};

const E: Tile = Tile::Empty;
const ROCK: Tile = Tile::Stone(1, State::Solid);
const LAVA: Tile = Tile::Stone(2, State::Liquid);
const ICE: Tile = Tile::Water(3, State::Solid, 5);
const WATER: Tile = Tile::Water(4, State::Liquid, 5);
const RAMP: Tile = Tile::Ramp(6, Slope::Up);

fn around(center: Tile, neighbors: [Tile; 4]) -> Snapshot {
    let places = [(2, 1), (0, 1), (1, 0), (1, 2)];
    Snapshot {
        center: Cell { at: (1, 1), tile: center },
        neighbors: places
            .iter()
            .zip(neighbors.iter())
            .map(|(at, tile)| Cell { at: *at, tile: *tile })
            .collect(),
    }
}

fn one(at: (usize, usize), tile: Tile) -> Option<PatchSet> {
    Some(PatchSet { entries: vec![Patch { at, tile }] })
}

fn ground_map(width: usize, height: usize, ground: Vec<Tile>) -> TerrainMap {
    let columns = ground.into_iter().map(|t| Column::new(vec![t, E])).collect();
    TerrainMap::new(width, height, 2, columns).unwrap()
}

fn ground_of(map: &TerrainMap) -> Vec<Tile> {
    (0..map.column_count()).map(|i| map.column(map.point_at(i)).ground()).collect()
}

#[test]
fn snapshot_counts_kinds() {
    let s = around(ROCK, [LAVA, E, LAVA, WATER]);
    assert_eq!(s.count(Kind::Molten), 2);
    assert_eq!(s.count(Kind::Empty), 1);
    assert_eq!(s.count(Kind::Water), 1);
    assert_eq!(s.count(Kind::Rock), 0);
    assert_eq!(s.support(), 3);
}

#[test]
fn snapshot_copies_the_neighbourhood() {
    let map = ground_map(3, 3, vec![E, ROCK, E, LAVA, WATER, ICE, E, RAMP, E]);
    let s = Snapshot::take(&map, (1, 1), 0);
    assert_eq!(s.center, Cell { at: (1, 1), tile: WATER });
    assert_eq!(
        s.neighbors,
        vec![
            Cell { at: (2, 1), tile: ICE },
            Cell { at: (0, 1), tile: LAVA },
            Cell { at: (1, 0), tile: ROCK },
            Cell { at: (1, 2), tile: RAMP },
        ]
    );
    let above = Snapshot::take(&map, (1, 1), 1);
    assert_eq!(above.center.tile, E);
    assert_eq!(above.support(), 0);
}

#[test]
fn snapshot_on_the_edge_leaves_out_what_is_not_there() {
    let map = ground_map(3, 3, vec![E, ROCK, E, LAVA, WATER, ICE, E, RAMP, E]);
    let corner = Snapshot::take(&map, (0, 0), 0);
    assert_eq!(
        corner.neighbors,
        vec![Cell { at: (1, 0), tile: ROCK }, Cell { at: (0, 1), tile: LAVA }]
    );
    let far = Snapshot::take(&map, (2, 2), 0);
    assert_eq!(
        far.neighbors,
        vec![Cell { at: (1, 2), tile: RAMP }, Cell { at: (2, 1), tile: ICE }]
    );
}

#[test]
fn rock_melts_between_two_molten_neighbours() {
    let s = around(ROCK, [LAVA, E, LAVA, E]);
    assert_eq!(stone::solid_physics(&s), one((1, 1), Tile::Stone(1, State::Liquid)));
    assert_eq!(dispatch(&s), one((1, 1), Tile::Stone(1, State::Liquid)));
}

#[test]
fn rock_next_to_one_molten_neighbour_stays() {
    assert_eq!(stone::solid_physics(&around(ROCK, [LAVA, E, ROCK, WATER])), None);
    assert_eq!(stone::solid_physics(&around(ROCK, [E, E, E, E])), None);
}

#[test]
fn molten_rock_spreads_into_empty_neighbours() {
    let s = around(LAVA, [E, ROCK, E, LAVA]);
    let expected = Some(PatchSet {
        entries: vec![Patch { at: (2, 1), tile: LAVA }, Patch { at: (1, 0), tile: LAVA }],
    });
    assert_eq!(stone::liquid_physics(&s), expected);
    assert_eq!(dispatch(&s), expected);
}

#[test]
fn molten_rock_hardens_next_to_water_or_ice() {
    let hard = Tile::Stone(2, State::Solid);
    assert_eq!(stone::liquid_physics(&around(LAVA, [E, WATER, E, E])), one((1, 1), hard));
    assert_eq!(stone::liquid_physics(&around(LAVA, [E, E, E, ICE])), one((1, 1), hard));
}

#[test]
fn enclosed_molten_rock_does_nothing() {
    assert_eq!(stone::liquid_physics(&around(LAVA, [ROCK, ROCK, LAVA, RAMP])), None);
}

#[test]
fn ice_thaws_next_to_heat() {
    let thawed = Tile::Water(3, State::Liquid, 5);
    assert_eq!(liquid::solid_physics(&around(ICE, [LAVA, E, E, E])), one((1, 1), thawed));
    assert_eq!(liquid::solid_physics(&around(ICE, [WATER, E, WATER, E])), one((1, 1), thawed));
    assert_eq!(dispatch(&around(ICE, [WATER, E, WATER, E])), one((1, 1), thawed));
}

#[test]
fn ice_next_to_little_water_stays() {
    assert_eq!(liquid::solid_physics(&around(ICE, [WATER, E, ICE, ROCK])), None);
}

#[test]
fn water_freezes_between_two_neighbours_of_ice() {
    let frozen = Tile::Water(4, State::Solid, 5);
    assert_eq!(liquid::liquid_physics(&around(WATER, [ICE, E, ICE, E])), one((1, 1), frozen));
}

#[test]
fn water_spreads_into_empty_neighbours_with_a_thinned_flow() {
    let thin = Tile::Water(4, State::Liquid, 4);
    let s = around(WATER, [E, ICE, ROCK, E]);
    let expected = Some(PatchSet {
        entries: vec![Patch { at: (2, 1), tile: thin }, Patch { at: (1, 2), tile: thin }],
    });
    assert_eq!(liquid::liquid_physics(&s), expected);
    assert_eq!(dispatch(&s), expected);
}

#[test]
fn water_without_flow_still_spreads() {
    let s = around(Tile::Water(4, State::Liquid, 0), [E, ROCK, ROCK, ROCK]);
    assert_eq!(liquid::liquid_physics(&s), one((2, 1), Tile::Water(4, State::Liquid, 0)));
}

#[test]
fn enclosed_water_does_nothing() {
    assert_eq!(liquid::liquid_physics(&around(WATER, [ROCK, WATER, ICE, RAMP])), None);
}

#[test]
fn a_rule_for_another_kind_answers_nothing() {
    let s = around(WATER, [E, E, E, E]);
    assert_eq!(stone::solid_physics(&s), None);
    assert_eq!(stone::liquid_physics(&s), None);
    assert_eq!(liquid::solid_physics(&s), None);
    let s = around(LAVA, [E, E, E, E]);
    assert_eq!(liquid::liquid_physics(&s), None);
}

#[test]
fn no_stone_and_no_water_no_patch() {
    for center in [E, RAMP, Tile::Ramp(1, Slope::Down)] {
        for ring in [[E, E, E, E], [RAMP, E, RAMP, E], [LAVA, WATER, ICE, ROCK]] {
            let s = around(center, ring);
            assert_eq!(dispatch(&s), None);
            assert_eq!(stone::solid_physics(&s), None);
            assert_eq!(stone::liquid_physics(&s), None);
            assert_eq!(liquid::solid_physics(&s), None);
            assert_eq!(liquid::liquid_physics(&s), None);
        }
    }
}

#[test]
fn flow_rules_answer_the_same_twice() {
    let rings = [[E, E, E, E], [LAVA, E, LAVA, WATER], [ICE, ICE, E, ROCK], [WATER, WATER, E, E]];
    for center in [E, ROCK, LAVA, ICE, WATER, RAMP] {
        for ring in rings {
            let first = around(center, ring);
            let second = around(center, ring);
            assert_eq!(dispatch(&first), dispatch(&first));
            assert_eq!(dispatch(&first), dispatch(&second));
            assert_eq!(stone::solid_physics(&first), stone::solid_physics(&second));
            assert_eq!(stone::liquid_physics(&first), stone::liquid_physics(&second));
            assert_eq!(liquid::solid_physics(&first), liquid::solid_physics(&second));
            assert_eq!(liquid::liquid_physics(&first), liquid::liquid_physics(&second));
        }
    }
}

#[test]
fn patches_stay_in_the_neighbourhood() {
    let s = around(WATER, [E, E, E, E]);
    let set = dispatch(&s).unwrap();
    assert_eq!(set.entries.len(), 4);
    for patch in set.entries {
        assert!(s.neighbors.iter().any(|c| c.at == patch.at));
    }
}

#[test]
fn patches_replace_ground_tiles_in_their_order() {
    let mut map = ground_map(2, 1, vec![E, ROCK]);
    map.set_tile((0, 0), 1, RAMP);
    let patches = vec![
        Patch { at: (0, 0), tile: WATER },
        Patch { at: (1, 0), tile: LAVA },
        Patch { at: (0, 0), tile: ICE },
    ];
    apply_patches(&mut map, &patches);
    assert_eq!(map.column((0, 0)).tiles, vec![ICE, RAMP]);
    assert_eq!(map.column((1, 0)).tiles, vec![LAVA, E]);
}

#[test]
fn patches_off_the_map_do_nothing() {
    let mut map = ground_map(2, 1, vec![E, ROCK]);
    let patches = vec![Patch { at: (2, 0), tile: WATER }, Patch { at: (0, 1), tile: WATER }];
    apply_patches(&mut map, &patches);
    assert_eq!(ground_of(&map), vec![E, ROCK]);
    apply_patches(&mut map, &vec![]);
    assert_eq!(ground_of(&map), vec![E, ROCK]);
}

#[test]
fn patches_for_a_column_without_ground_do_nothing() {
    let mut map = TerrainMap::new(1, 1, 0, vec![Column::new(vec![])]).unwrap();
    apply_patches(&mut map, &vec![Patch { at: (0, 0), tile: WATER }]);
    assert_eq!(map.column((0, 0)).tiles, vec![]);
}

#[test]
fn patches_are_collected_in_row_major_order() {
    let map = ground_map(3, 1, vec![Tile::Water(1, State::Liquid, 2), E, Tile::Water(2, State::Liquid, 9)]);
    assert_eq!(
        collect_patches(&map),
        vec![
            Patch { at: (1, 0), tile: Tile::Water(1, State::Liquid, 1) },
            Patch { at: (1, 0), tile: Tile::Water(2, State::Liquid, 8) },
        ]
    );
}

#[test]
fn the_later_column_wins_a_collision() {
    let mut map = ground_map(3, 1, vec![Tile::Water(1, State::Liquid, 2), E, Tile::Water(2, State::Liquid, 9)]);
    pass(&mut map);
    assert_eq!(
        ground_of(&map),
        vec![
            Tile::Water(1, State::Liquid, 2),
            Tile::Water(2, State::Liquid, 8),
            Tile::Water(2, State::Liquid, 9)
        ]
    );
}

#[test]
fn rules_read_the_grid_as_the_sweep_left_it() {
    let mut map = ground_map(3, 1, vec![LAVA, ROCK, LAVA]);
    pass(&mut map);
    assert_eq!(ground_of(&map), vec![LAVA, Tile::Stone(1, State::Liquid), LAVA]);
    let columns = vec![vec![E, WATER], vec![E, E]];
    let mut map =
        TerrainMap::new(2, 1, 2, columns.into_iter().map(Column::new).collect()).unwrap();
    pass(&mut map);
    assert_eq!(map.column((0, 0)).tiles, vec![WATER, E]);
    assert_eq!(map.column((1, 0)).tiles, vec![Tile::Water(4, State::Liquid, 4), E]);
}

#[test]
fn a_rule_names_no_position_twice() {
    let map = ground_map(3, 3, vec![E, E, E, E, WATER, E, E, E, E]);
    for i in 0..map.column_count() {
        let at = map.point_at(i);
        if let Some(set) = dispatch(&Snapshot::take(&map, at, 0)) {
            let mut places: Vec<(usize, usize)> = set.entries.iter().map(|p| p.at).collect();
            let count = places.len();
            places.sort();
            places.dedup();
            assert_eq!(places.len(), count);
        }
    }
    let corner = ground_map(2, 2, vec![LAVA, E, E, E]);
    let set = dispatch(&Snapshot::take(&corner, (0, 0), 0)).unwrap();
    assert_eq!(
        set.entries,
        vec![Patch { at: (1, 0), tile: LAVA }, Patch { at: (0, 1), tile: LAVA }]
    );
}
