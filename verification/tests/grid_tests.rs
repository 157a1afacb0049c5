use tiling_gallery::{Grid, TilingError};

#[test]
fn dimension_below_two_is_refused() {
    assert_eq!(Grid::new(0, 3), Err(TilingError::InvalidDimension));
    assert_eq!(Grid::new(1, 3), Err(TilingError::InvalidDimension));
}

#[test]
fn dimension_two_and_up_is_accepted() {
    let grid = Grid::new(2, 0).unwrap();
    assert_eq!(grid.dimension, 2);
    assert_eq!(grid.num_lines, 0);
    let grid = Grid::new(5, 12).unwrap();
    assert_eq!(grid.dimension, 5);
    assert_eq!(grid.num_lines, 12);
}

#[test]
fn even_grids_spread_over_a_half_turn() {
    let grid = Grid::new(4, 1).unwrap();
    let steps: Vec<u128> = (0..4).map(|i| grid.angle_steps(i)).collect();
    assert_eq!(steps, vec![0, 1, 2, 3]);
}

#[test]
fn odd_grids_spread_over_a_full_turn() {
    let grid = Grid::new(5, 1).unwrap();
    let steps: Vec<u128> = (0..5).map(|i| grid.angle_steps(i)).collect();
    assert_eq!(steps, vec![0, 2, 4, 6, 8]);
}

#[test]
fn no_two_families_are_parallel() {
    for n in 2..13usize {
        let grid = Grid::new(n, 1).unwrap();
        for i in 0..n {
            for j in (i + 1)..n {
                let gap = grid.angle_steps(j) - grid.angle_steps(i);
                assert_ne!(gap % (n as u128), 0, "families {} and {} of {}", i, j, n);
            }
        }
    }
}

#[test]
fn angle_steps_of_a_huge_grid_do_not_overflow() {
    let grid = Grid::new(usize::MAX, 0).unwrap();
    assert_eq!(grid.angle_steps(usize::MAX - 1), 2 * (usize::MAX as u128 - 1));
}

#[test]
fn the_error_has_a_message() {
    assert_eq!(TilingError::InvalidDimension.message(), "dimension must be at least 2");
}
