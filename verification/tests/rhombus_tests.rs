use tiling_gallery::{build_rhombus, corner_index, Category, Cell, Grid};

#[test]
fn corners_in_drawing_order() {
    let cell = Cell { r: 0, s: 2, kr: -1, ks: 4 };
    let base = vec![7, 8, 9];
    assert_eq!(corner_index(&cell, &base, 0), vec![-1, 8, 4]);
    assert_eq!(corner_index(&cell, &base, 1), vec![0, 8, 4]);
    assert_eq!(corner_index(&cell, &base, 2), vec![0, 8, 5]);
    assert_eq!(corner_index(&cell, &base, 3), vec![-1, 8, 5]);
}

#[test]
fn the_base_is_left_as_it_was() {
    let cell = Cell { r: 1, s: 2, kr: 0, ks: 0 };
    let base = vec![5, 6, 7, 8];
    let corner = corner_index(&cell, &base, 2);
    assert_eq!(corner, vec![5, 1, 1, 8]);
    assert_eq!(base, vec![5, 6, 7, 8]);
}

#[test]
fn a_rhombus_of_five_families() {
    let grid = Grid::new(5, 1).unwrap();
    let cell = Cell { r: 0, s: 1, kr: -1, ks: 0 };
    let tile = build_rhombus(&grid, cell, &vec![-1, 0, 2, 2, 1]);
    assert_eq!(tile.cell, cell);
    assert_eq!(tile.category, Category::Adjacent);
    assert_eq!(
        tile.corners,
        vec![
            vec![-1, 0, 2, 2, 1],
            vec![0, 0, 2, 2, 1],
            vec![0, 1, 2, 2, 1],
            vec![-1, 1, 2, 2, 1],
        ]
    );
}

#[test]
fn the_crossing_families_are_overridden() {
    let grid = Grid::new(4, 3).unwrap();
    let cell = Cell { r: 1, s: 3, kr: 2, ks: -3 };
    let tile = build_rhombus(&grid, cell, &vec![10, 99, 20, -99]);
    assert_eq!(tile.category, Category::NonAdjacent);
    assert_eq!(
        tile.corners,
        vec![
            vec![10, 2, 20, -3],
            vec![10, 3, 20, -3],
            vec![10, 3, 20, -2],
            vec![10, 2, 20, -2],
        ]
    );
}

#[test]
fn the_four_corners_differ() {
    let grid = Grid::new(6, 2).unwrap();
    let tile = build_rhombus(&grid, Cell { r: 2, s: 5, kr: 1, ks: -2 }, &vec![0, 0, 0, 0, 0, 0]);
    for j in 0..4 {
        for k in (j + 1)..4 {
            assert_ne!(tile.corners[j], tile.corners[k]);
        }
    }
}

#[test]
fn each_side_is_one_step_in_one_family() {
    let grid = Grid::new(6, 2).unwrap();
    let cell = Cell { r: 2, s: 5, kr: 1, ks: -2 };
    let tile = build_rhombus(&grid, cell, &vec![3, -4, 0, 7, 1, 0]);
    let families = [cell.r, cell.s, cell.r, cell.s];
    let steps = [1, 1, -1, -1];
    for k in 0..4 {
        let from = &tile.corners[k];
        let to = &tile.corners[(k + 1) % 4];
        for family in 0..6 {
            let moved = to[family] - from[family];
            if family == families[k] {
                assert_eq!(moved, steps[k]);
            } else {
                assert_eq!(moved, 0);
            }
        }
    }
}

#[test]
fn the_highest_line_has_a_corner_one_above() {
    let grid = Grid::new(2, i32::MAX).unwrap();
    let cell = Cell { r: 0, s: 1, kr: i32::MAX, ks: i32::MAX };
    let tile = build_rhombus(&grid, cell, &vec![0, 0]);
    assert_eq!(tile.corners[2], vec![i32::MAX as i64 + 1, i32::MAX as i64 + 1]);
}
