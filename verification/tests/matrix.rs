use minifb_tile_base::tools::dual_trait::Algebra;
use minifb_tile_base::tools::matrix::Matrix;
use minifb_tile_base::tools::transform::{Dimensions, Position, Rotation};

fn grid(width: usize, height: usize, values: Vec<u32>, wrapping: bool) -> Matrix<u32> {
    assert_eq!(values.len(), width * height);
    Matrix { values, dimensions: Dimensions::new(width, height), wrapping }
}

fn counted(width: usize, height: usize) -> Matrix<u32> {
    grid(width, height, (0..(width * height) as u32).collect(), false)
}

fn values_of<'a>(cells: impl Iterator<Item = &'a u32>) -> Vec<u32> {
    cells.copied().collect()
}

#[test]
fn new_fills_with_the_default_value() {
    let m: Matrix<u32> = Matrix::new(Dimensions::new(3, 2), true);
    assert_eq!(m.values, vec![0; 6]);
    assert_eq!(m.dimensions.width, 3);
    assert_eq!(m.dimensions.height, 2);
    assert!(m.wrapping);
}

#[test]
fn new_of_no_extent_holds_nothing() {
    let m: Matrix<u32> = Matrix::new(Dimensions::new(0, 5), false);
    assert!(m.values.is_empty());
    assert_eq!(m.some_bound(Position::new(0, 0)), None);
    let w: Matrix<u32> = Matrix::new(Dimensions::new(0, 5), true);
    assert_eq!(w.some_bound(Position::new(0, 0)), None);
    assert_eq!(w.get(Position::new(3, 3)), None);
}

#[test]
fn some_bound_without_wrapping_is_defined_inside_only() {
    let m = counted(3, 2);
    for y in 0..5 {
        for x in 0..5 {
            let found = m.some_bound(Position::new(x, y));
            if x < 3 && y < 2 {
                assert_eq!(found, Some(x + y * 3));
            } else {
                assert_eq!(found, None);
            }
        }
    }
}

#[test]
fn some_bound_with_wrapping_is_always_defined() {
    let mut m = counted(3, 2);
    m.wrapping = true;
    for y in 0..7 {
        for x in 0..7 {
            assert_eq!(m.some_bound(Position::new(x, y)), Some((x % 3) + (y % 2) * 3));
        }
    }
    assert_eq!(m.some_bound(Position::new(usize::MAX, usize::MAX)), Some((usize::MAX % 3) + (usize::MAX % 2) * 3));
}

#[test]
fn get_and_set_follow_the_addressing_mode() {
    let mut m = counted(3, 2);
    assert_eq!(m.get(Position::new(2, 1)), Some(&5));
    assert_eq!(m.get(Position::new(3, 1)), None);
    m.set(Position::new(1, 1), 40);
    assert_eq!(m.values, vec![0, 1, 2, 3, 40, 5]);
    m.set(Position::new(1, 2), 99);
    assert_eq!(m.values, vec![0, 1, 2, 3, 40, 5]);
    m.wrapping = true;
    m.set(Position::new(4, 2), 77);
    assert_eq!(m.values, vec![0, 77, 2, 3, 40, 5]);
    assert_eq!(m.get(Position::new(4, 3)), Some(&40));
}

#[test]
fn get_mut_writes_through() {
    let mut m = counted(2, 2);
    if let Some(cell) = m.get_mut(Position::new(1, 0)) {
        *cell = 9;
    }
    assert_eq!(m.values, vec![0, 9, 2, 3]);
    assert!(m.get_mut(Position::new(2, 0)).is_none());
}

#[test]
fn get_wrap_cycles_in_both_directions() {
    let mut m = counted(3, 2);
    assert_eq!(*m.get_wrap(Position::new(4, 3)), 4);
    *m.get_wrap_mut(Position::new(5, 2)) = 50;
    assert_eq!(m.values, vec![0, 1, 50, 3, 4, 5]);
}

#[test]
fn apply_replaces_by_the_function_of_the_value() {
    let mut m = counted(2, 2);
    m.apply(Position::new(1, 1), |v| v * 10);
    assert_eq!(m.values, vec![0, 1, 2, 30]);
    m.apply(Position::new(5, 5), |v| v + 1);
    assert_eq!(m.values, vec![0, 1, 2, 30]);
}

#[test]
fn enumerate_goes_row_by_row() {
    let m = counted(2, 3);
    let listed: Vec<(usize, usize, u32)> = m.enumerate().map(|(p, v)| (p.x, p.y, *v)).collect();
    assert_eq!(listed, vec![(0, 0, 0), (1, 0, 1), (0, 1, 2), (1, 1, 3), (0, 2, 4), (1, 2, 5)]);
}

#[test]
fn enumerate_mut_gives_the_cell_at_a_place() {
    let mut m = counted(2, 2);
    match m.enumerate_mut(2) {
        Some((position, cell)) => {
            assert_eq!((position.x, position.y), (0, 1));
            *cell = 8;
        }
        None => panic!("the grid has a cell at place 2"),
    }
    assert_eq!(m.values, vec![0, 1, 8, 3]);
    assert!(m.enumerate_mut(4).is_none());
}

#[test]
fn clamp_lists_what_lies_inside() {
    let m = counted(4, 3);
    assert_eq!(values_of(m.clamp(Position::new(1, 1), Dimensions::new(2, 2))), vec![5, 6, 9, 10]);
    assert_eq!(values_of(m.clamp(Position::new(3, 2), Dimensions::new(2, 2))), vec![11]);
    assert_eq!(values_of(m.clamp(Position::new(2, 1), Dimensions::new(5, 5))), vec![6, 7, 10, 11]);
    assert_eq!(m.clamp(Position::new(4, 0), Dimensions::new(2, 2)).count(), 0);
    assert_eq!(m.clamp(Position::new(0, 3), Dimensions::new(2, 2)).count(), 0);
    assert_eq!(m.clamp(Position::new(0, 0), Dimensions::new(usize::MAX, usize::MAX)).count(), 12);
    let mut twice = m.clamp(Position::new(1, 1), Dimensions::new(2, 2));
    assert_eq!(twice.next(), Some(&5));
    assert_eq!(values_of(m.clamp(Position::new(1, 1), Dimensions::new(2, 2))), vec![5, 6, 9, 10]);
}

#[test]
fn clamp_mut_gives_the_cell_at_a_place_of_the_rectangle() {
    let mut m = counted(4, 3);
    if let Some(cell) = m.clamp_mut(Position::new(1, 1), Dimensions::new(2, 2), 3) {
        *cell = 100;
    }
    assert_eq!(m.values[10], 100);
    assert!(m.clamp_mut(Position::new(1, 1), Dimensions::new(2, 2), 4).is_none());
    assert!(m.clamp_mut(Position::new(3, 2), Dimensions::new(2, 2), 1).is_none());
}

#[test]
fn clamp_wrap_always_lists_the_whole_rectangle() {
    let m = counted(3, 2);
    assert_eq!(
        values_of(m.clamp_wrap(Position::new(2, 1), Dimensions::new(3, 3))),
        vec![5, 3, 4, 2, 0, 1, 5, 3, 4]
    );
    assert_eq!(values_of(m.clamp_wrap(Position::new(7, 5), Dimensions::new(2, 1))), vec![4, 5]);
    let empty: Matrix<u32> = Matrix::new(Dimensions::new(0, 0), true);
    assert_eq!(empty.clamp_wrap(Position::new(0, 0), Dimensions::new(2, 2)).count(), 0);
}

#[test]
fn clamp_to_matrix_copies_the_part_inside() {
    let m = counted(4, 3);
    let part = m.clamp_to_matrix(Position::new(2, 1), Dimensions::new(3, 3));
    assert_eq!(part.values, vec![6, 7, 10, 11]);
    assert_eq!(part.dimensions.width, 2);
    assert_eq!(part.dimensions.height, 2);
    assert!(!part.wrapping);
    let none = m.clamp_to_matrix(Position::new(9, 9), Dimensions::new(3, 3));
    assert!(none.values.is_empty());
    assert_eq!(none.dimensions.area(), 0);
}

#[test]
fn enumerate_clamp_numbers_by_the_width_of_the_grid() {
    let m = counted(4, 3);
    let listed: Vec<(usize, usize, u32)> = m
        .enumerate_clamp(Position::new(1, 1), Dimensions::new(3, 2))
        .map(|(p, v)| (p.x, p.y, *v))
        .collect();
    assert_eq!(
        listed,
        vec![(1, 1, 5), (2, 1, 6), (3, 1, 7), (4, 1, 9), (1, 2, 10), (2, 2, 11)]
    );
}

#[test]
fn enumerate_clamp_wrap_numbers_by_the_width_of_the_grid() {
    let m = counted(2, 2);
    let listed: Vec<(usize, usize, u32)> = m
        .enumerate_clamp_wrap(Position::new(1, 0), Dimensions::new(3, 1))
        .map(|(p, v)| (p.x, p.y, *v))
        .collect();
    assert_eq!(listed, vec![(1, 0, 1), (2, 0, 0), (1, 1, 1)]);
}

#[test]
fn reflections_of_a_three_by_two_grid() {
    // 0 1 2
    // 3 4 5
    let mut v = counted(3, 2);
    v.reflect_vertical();
    assert_eq!(v.values, vec![3, 4, 5, 0, 1, 2]);
    assert_eq!((v.dimensions.width, v.dimensions.height), (3, 2));

    let mut h = counted(3, 2);
    h.reflect_horizontal();
    assert_eq!(h.values, vec![2, 1, 0, 5, 4, 3]);
    assert_eq!((h.dimensions.width, h.dimensions.height), (3, 2));

    let mut d = counted(3, 2);
    d.reflect_diagonal();
    assert_eq!(d.values, vec![0, 3, 1, 4, 2, 5]);
    assert_eq!((d.dimensions.width, d.dimensions.height), (2, 3));

    let mut n = counted(3, 2);
    n.reflect_negative_diagonal();
    assert_eq!(n.values, vec![5, 2, 4, 1, 3, 0]);
    assert_eq!((n.dimensions.width, n.dimensions.height), (2, 3));
}

#[test]
fn listed_reflections_match_the_reflections_in_place() {
    let m = counted(3, 4);
    let mut v = m.clone();
    v.reflect_vertical();
    assert_eq!(values_of(m.iter_reflect_vertical()), v.values);
    let mut h = m.clone();
    h.reflect_horizontal();
    assert_eq!(values_of(m.iter_reflect_horizontal()), h.values);
    let mut d = m.clone();
    d.reflect_diagonal();
    assert_eq!(values_of(m.iter_reflect_diagonal()), d.values);
    let mut n = m.clone();
    n.reflect_negative_diagonal();
    assert_eq!(values_of(m.iter_reflect_negative_diagonal()), n.values);
    assert_eq!(m.values, counted(3, 4).values);
}

#[test]
fn reflected_cells_can_be_written_by_place() {
    let mut m = counted(3, 2);
    *m.iter_reflect_vertical_mut(0).unwrap() = 30;
    assert_eq!(m.values, vec![0, 1, 2, 30, 4, 5]);
    *m.iter_reflect_horizontal_mut(0).unwrap() = 20;
    assert_eq!(m.values, vec![0, 1, 20, 30, 4, 5]);
    assert!(m.iter_reflect_vertical_mut(6).is_none());
    assert!(m.iter_reflect_horizontal_mut(6).is_none());
}

#[test]
fn rotate_right_is_diagonal_then_vertical() {
    let mut r = counted(3, 2);
    r.rotate_right();
    let mut by_parts = counted(3, 2);
    by_parts.reflect_diagonal();
    by_parts.reflect_vertical();
    assert_eq!(r.values, by_parts.values);
    assert_eq!(r.values, vec![2, 5, 1, 4, 0, 3]);
    assert_eq!((r.dimensions.width, r.dimensions.height), (2, 3));
}

#[test]
fn rotate_left_undoes_rotate_right() {
    let mut l = counted(3, 2);
    l.rotate_left();
    assert_eq!(l.values, vec![3, 0, 4, 1, 5, 2]);
    assert_eq!((l.dimensions.width, l.dimensions.height), (2, 3));
    l.rotate_right();
    assert_eq!(l.values, counted(3, 2).values);
    assert_eq!((l.dimensions.width, l.dimensions.height), (3, 2));
    l.rotate_right();
    l.rotate_left();
    assert_eq!(l.values, counted(3, 2).values);
    assert_eq!((l.dimensions.width, l.dimensions.height), (3, 2));
}

#[test]
fn rotate_180_reverses_the_values() {
    let mut m = counted(3, 2);
    m.rotate_180();
    assert_eq!(m.values, vec![5, 4, 3, 2, 1, 0]);
    assert_eq!((m.dimensions.width, m.dimensions.height), (3, 2));
    let mut twice = counted(3, 2);
    twice.rotate_right();
    twice.rotate_right();
    assert_eq!(twice.values, m.values);
    m.rotate_180();
    assert_eq!(m.values, counted(3, 2).values);
}

#[test]
fn reflect_vertical_twice_is_the_identity() {
    let mut m = counted(5, 3);
    m.reflect_vertical();
    m.reflect_vertical();
    assert_eq!(m.values, counted(5, 3).values);
}

#[test]
fn rotate_follows_the_facing() {
    let start = counted(3, 2);
    let mut up = start.clone();
    up.rotate(Rotation::UP);
    assert_eq!(up.values, start.values);
    let mut down = start.clone();
    down.rotate(Rotation::DOWN);
    assert_eq!(down.values, vec![5, 4, 3, 2, 1, 0]);
    let mut left = start.clone();
    left.rotate(Rotation::LEFT);
    let mut expected_left = start.clone();
    expected_left.rotate_left();
    assert_eq!(left.values, expected_left.values);
    assert_eq!(left.dimensions.width, 2);
    let mut right = start.clone();
    right.rotate(Rotation::RIGHT);
    let mut expected_right = start.clone();
    expected_right.rotate_right();
    assert_eq!(right.values, expected_right.values);
}

#[test]
fn listed_rotations_match_the_rotations_in_place() {
    let m = counted(4, 3);
    for rotation in [Rotation::UP, Rotation::DOWN, Rotation::LEFT, Rotation::RIGHT] {
        let mut turned = m.clone();
        turned.rotate(rotation);
        assert_eq!(values_of(m.iter_rotate(rotation)), turned.values);
    }
    let mut r = m.clone();
    r.rotate_right();
    assert_eq!(values_of(m.iter_rotate_right()), r.values);
    let mut l = m.clone();
    l.rotate_left();
    assert_eq!(values_of(m.iter_rotate_left()), l.values);
    let mut h = m.clone();
    h.rotate_180();
    assert_eq!(values_of(m.iter_rotate_180()), h.values);
}

#[test]
fn transforms_of_a_grid_without_cells() {
    let mut m: Matrix<u32> = Matrix::new(Dimensions::new(0, 3), false);
    m.rotate_right();
    assert!(m.values.is_empty());
    assert_eq!((m.dimensions.width, m.dimensions.height), (3, 0));
    m.reflect_vertical();
    m.reflect_horizontal();
    m.rotate_180();
    assert_eq!(m.iter_rotate_left().count(), 0);
}

#[test]
fn subdivide_a_four_by_four_grid_into_quarters() {
    let m = counted(4, 4);
    let parts = m.subdivide_matrix(Dimensions::new(2, 2));
    assert_eq!((parts.dimensions.width, parts.dimensions.height), (2, 2));
    assert_eq!(parts.values.len(), 4);
    for part in parts.values.iter() {
        assert_eq!((part.dimensions.width, part.dimensions.height), (2, 2));
        assert!(!part.wrapping);
    }
    assert_eq!(parts.values[0].values, vec![0, 1, 4, 5]);
    assert_eq!(parts.values[1].values, vec![2, 3, 6, 7]);
    assert_eq!(parts.values[2].values, vec![8, 9, 12, 13]);
    assert_eq!(parts.values[3].values, vec![10, 11, 14, 15]);
    let mut again: Matrix<u32> = Matrix::new(Dimensions::new(4, 4), false);
    for (position, part) in parts.enumerate() {
        again.overlay(part, Position::new(position.x * 2, position.y * 2));
    }
    assert_eq!(again.values, m.values);
}

#[test]
fn subdivide_drops_what_is_left_over() {
    let m = counted(5, 3);
    let parts = m.subdivide_matrix(Dimensions::new(2, 2));
    assert_eq!(parts.values.len(), 4);
    assert_eq!(parts.values[0].values, vec![0, 1]);
    assert_eq!(parts.values[1].values, vec![2, 3]);
    assert_eq!(parts.values[2].values, vec![5, 6]);
    assert_eq!(parts.values[3].values, vec![7, 8]);
    for part in parts.values.iter() {
        assert_eq!((part.dimensions.width, part.dimensions.height), (2, 1));
    }
}

#[test]
fn subdivide_into_no_parts() {
    let m = counted(4, 4);
    let parts = m.subdivide_matrix(Dimensions::new(0, 3));
    assert!(parts.values.is_empty());
    assert_eq!((parts.dimensions.width, parts.dimensions.height), (0, 3));
    let many = m.subdivide_matrix(Dimensions::new(8, 1));
    assert_eq!(many.values.len(), 8);
    assert!(many.values.iter().all(|p| p.values.is_empty()));
}

#[test]
fn overlay_clips_at_the_border() {
    let mut m: Matrix<u32> = Matrix::new(Dimensions::new(4, 4), false);
    let ones = grid(2, 2, vec![1; 4], false);
    m.overlay(&ones, Position::new(3, 3));
    let mut expected = vec![0; 16];
    expected[15] = 1;
    assert_eq!(m.values, expected);
}

#[test]
fn overlay_keeps_source_rows_in_line_when_clipped() {
    let mut m: Matrix<u32> = Matrix::new(Dimensions::new(3, 3), false);
    let source = grid(2, 2, vec![1, 2, 3, 4], false);
    m.overlay(&source, Position::new(2, 1));
    assert_eq!(m.values, vec![0, 0, 0, 0, 0, 1, 0, 0, 3]);
}

#[test]
fn overlay_of_the_same_extent_replaces_everything() {
    let mut m = grid(3, 2, vec![9, 8, 7, 6, 5, 4], true);
    let source = counted(3, 2);
    m.overlay(&source, Position::new(0, 0));
    assert_eq!(m.values, source.values);
    assert!(m.wrapping);
}

#[test]
fn overlay_of_a_larger_source_or_far_outside() {
    let mut m: Matrix<u32> = Matrix::new(Dimensions::new(2, 2), true);
    let source = counted(5, 5);
    m.overlay(&source, Position::new(1, 0));
    assert_eq!(m.values, vec![0, 0, 0, 5]);
    let before = m.values.clone();
    m.overlay(&source, Position::new(usize::MAX, usize::MAX));
    assert_eq!(m.values, before);
    m.overlay(&source, Position::new(2, 0));
    assert_eq!(m.values, before);
}

#[test]
fn overlay_iter_lays_a_listed_rectangle() {
    let mut m: Matrix<u32> = Matrix::new(Dimensions::new(3, 3), false);
    let source = counted(2, 3);
    m.overlay_iter(source.iter_rotate_right(), Position::new(0, 1), Dimensions::new(3, 2));
    assert_eq!(m.values, vec![0, 0, 0, 1, 3, 5, 0, 2, 4]);
    let short = [7u32, 8, 9];
    m.overlay_iter(short.iter(), Position::new(1, 0), Dimensions::new(2, 2));
    assert_eq!(m.values, vec![0, 7, 8, 1, 9, 5, 0, 2, 4]);
}

#[test]
fn overlay_iter_keeps_rows_in_line_when_clipped() {
    let mut m: Matrix<u32> = Matrix::new(Dimensions::new(3, 3), false);
    let items = [1u32, 2, 3, 4, 5, 6];
    m.overlay_iter(items.iter(), Position::new(2, 1), Dimensions::new(3, 2));
    assert_eq!(m.values, vec![0, 0, 0, 0, 0, 1, 0, 0, 4]);
}

#[test]
fn overlay_iter_takes_no_more_than_the_rows_that_reach_the_grid() {
    let mut m: Matrix<u32> = Matrix::new(Dimensions::new(2, 2), false);
    let items = [1u32, 2, 3, 4, 5, 6, 7, 8, 9];
    let mut source = items.iter();
    m.overlay_iter(&mut source, Position::new(0, 1), Dimensions::new(3, 3));
    assert_eq!(m.values, vec![0, 0, 1, 2]);
    assert_eq!(source.next(), Some(&4));
    let mut endless = std::iter::repeat(&7u32);
    m.overlay_iter(&mut endless, Position::new(1, 0), Dimensions::new(5, usize::MAX));
    assert_eq!(m.values, vec![0, 7, 1, 7]);
    let mut outside = items.iter();
    m.overlay_iter(&mut outside, Position::new(2, 0), Dimensions::new(2, 2));
    assert_eq!(m.values, vec![0, 7, 1, 7]);
    assert_eq!(outside.next(), Some(&1));
    let mut below = items.iter();
    m.overlay_iter(&mut below, Position::new(0, 2), Dimensions::new(2, 2));
    assert_eq!(m.values, vec![0, 7, 1, 7]);
    assert_eq!(below.next(), Some(&1));
}

#[test]
fn transparent_overlay_writes_only_what_is_present() {
    let mut m = counted(3, 3);
    let sprite: Matrix<Option<u32>> = Matrix {
        values: vec![Some(100), None, None, Some(200)],
        dimensions: Dimensions::new(2, 2),
        wrapping: false,
    };
    m.transparent_overlay(&sprite, Position::new(1, 1));
    assert_eq!(m.values, vec![0, 1, 2, 3, 100, 5, 6, 7, 200]);
    m.transparent_overlay(&sprite, Position::new(2, 2));
    assert_eq!(m.values, vec![0, 1, 2, 3, 100, 5, 6, 7, 100]);
}

#[test]
fn transparent_overlay_of_nothing_changes_nothing() {
    let mut m = counted(3, 3);
    let absent: Matrix<Option<u32>> = Matrix::new(Dimensions::new(2, 2), false);
    for y in 0..4 {
        for x in 0..4 {
            m.transparent_overlay(&absent, Position::new(x, y));
            assert_eq!(m.values, counted(3, 3).values);
        }
    }
}

#[test]
fn transparent_overlay_iter_lays_a_listed_rectangle() {
    let mut m = counted(3, 2);
    let items = [Some(10), None, Some(30), Some(40)];
    m.transparent_overlay_iter(items.into_iter(), Position::new(1, 0), Dimensions::new(2, 2));
    assert_eq!(m.values, vec![0, 10, 2, 3, 30, 40]);
    m.transparent_overlay_iter(items.into_iter(), Position::new(2, 1), Dimensions::new(2, 2));
    assert_eq!(m.values, vec![0, 10, 2, 3, 30, 10]);
    m.transparent_overlay_iter(
        vec![None, Some(1)].into_iter(),
        Position::new(0, 0),
        Dimensions::new(3, 2),
    );
    assert_eq!(m.values, vec![0, 1, 2, 3, 30, 10]);
    m.transparent_overlay_iter(
        std::iter::repeat(None),
        Position::new(0, 0),
        Dimensions::new(3, 2),
    );
    assert_eq!(m.values, vec![0, 1, 2, 3, 30, 10]);
}

#[test]
fn clone_and_default() {
    let m = counted(2, 2);
    let c = m.clone();
    assert_eq!(c.values, m.values);
    assert_eq!(c.dimensions.width, 2);
    let d: Matrix<u32> = Matrix::default();
    assert!(d.values.is_empty());
    assert_eq!(d.dimensions.area(), 0);
    assert!(!d.wrapping);
}
