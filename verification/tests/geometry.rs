use voxel_terrain::geometry::{
    axis_gap, clamp, nearest_perimeter_point, squared_distance, squared_distance_3d,
    strict_adjacent, weak_adjacent,
};

#[test]
fn strict_adjacent_lists_four_neighbours() {
    assert_eq!(strict_adjacent((3, 4)), vec![(4, 4), (2, 4), (3, 3), (3, 5)]);
}

#[test]
fn strict_adjacent_holds_at_zero() {
    assert_eq!(strict_adjacent((0, 0)), vec![(1, 0), (0, 0), (0, 0), (0, 1)]);
    assert_eq!(strict_adjacent((0, 7)), vec![(1, 7), (0, 7), (0, 6), (0, 8)]);
}

#[test]
fn weak_adjacent_ends_with_the_point() {
    let around = weak_adjacent((3, 4));
    assert_eq!(around.len(), 5);
    assert_eq!(around[4], (3, 4));
    assert_eq!(around[..4].to_vec(), strict_adjacent((3, 4)));
}

#[test]
fn clamp_takes_the_upper_bound_first() {
    assert_eq!(clamp(5, 10, 0), 5);
    assert_eq!(clamp(15, 10, 0), 10);
    assert_eq!(clamp(5, 10, 7), 7);
    assert_eq!(clamp(10, 10, 10), 10);
    assert_eq!(clamp('m', 'z', 'a'), 'm');
}

#[test]
fn clamp_with_crossed_bounds_gives_the_first_bound() {
    assert_eq!(clamp(5, 0, 10), 0);
    assert_eq!(clamp(50, 0, 10), 0);
}

#[test]
fn axis_gap_is_symmetric() {
    assert_eq!(axis_gap(3, 10), 7);
    assert_eq!(axis_gap(10, 3), 7);
    assert_eq!(axis_gap(4, 4), 0);
}

#[test]
fn squared_distance_of_a_three_four_five_triangle() {
    assert_eq!(squared_distance((0, 0), (3, 4)), Some(25));
    assert_eq!(squared_distance((3, 4), (0, 0)), Some(25));
    assert_eq!(squared_distance((6, 6), (6, 6)), Some(0));
}

#[test]
fn squared_distance_reports_what_does_not_fit() {
    assert_eq!(squared_distance((0, 0), (usize::MAX, 0)), None);
    assert_eq!(squared_distance_3d((0, 0, 0), (1, 1, usize::MAX)), None);
}

#[test]
fn squared_distance_in_three_dimensions() {
    assert_eq!(squared_distance_3d((1, 2, 3), (4, 6, 3)), Some(25));
    assert_eq!(squared_distance_3d((4, 6, 5), (1, 2, 3)), Some(29));
}

#[test]
fn nearest_perimeter_point_moves_to_the_nearest_edge() {
    let rect = ((10, 10), (0, 0), 0);
    assert_eq!(nearest_perimeter_point(rect, (3, 5, 9)), (0, 5, 9));
    assert_eq!(nearest_perimeter_point(rect, (5, 9, 1)), (5, 10, 1));
    assert_eq!(nearest_perimeter_point(rect, (5, 2, 1)), (5, 0, 1));
    assert_eq!(nearest_perimeter_point(rect, (8, 5, 1)), (10, 5, 1));
}

#[test]
fn nearest_perimeter_point_clamps_first() {
    let rect = ((10, 10), (0, 0), 0);
    assert_eq!(nearest_perimeter_point(rect, (20, 5, 2)), (10, 5, 2));
    assert_eq!(nearest_perimeter_point(rect, (4, 40, 2)), (4, 10, 2));
}

#[test]
fn nearest_perimeter_point_prefers_the_first_corner_row_on_a_tie() {
    let rect = ((10, 10), (0, 0), 0);
    assert_eq!(nearest_perimeter_point(rect, (5, 5, 0)), (5, 10, 0));
}
