use tiling_gallery::{Cell, Grid};

// The crossings in the order of four nested loops.
fn nested(dimension: usize, num_lines: i32) -> Vec<Cell> {
    let mut cells = Vec::new();
    for r in 0..dimension {
        for s in (r + 1)..dimension {
            for kr in -num_lines..=num_lines {
                for ks in -num_lines..=num_lines {
                    cells.push(Cell { r, s, kr, ks });
                }
            }
        }
    }
    cells
}

fn walked(grid: &Grid) -> Vec<Cell> {
    let mut cells = Vec::new();
    let mut at = grid.first_cell();
    while let Some(cell) = at {
        cells.push(cell);
        at = grid.next_cell(cell);
    }
    cells
}

#[test]
fn the_walk_starts_at_the_lowest_lines() {
    let grid = Grid::new(5, 1).unwrap();
    assert_eq!(grid.first_cell(), Some(Cell { r: 0, s: 1, kr: -1, ks: -1 }));
}

#[test]
fn a_grid_without_lines_has_no_first_cell() {
    let grid = Grid::new(5, -1).unwrap();
    assert_eq!(grid.first_cell(), None);
    let grid = Grid::new(5, i32::MIN).unwrap();
    assert_eq!(grid.first_cell(), None);
}

#[test]
fn a_grid_literal_with_one_family_has_no_first_cell() {
    let grid = Grid { dimension: 1, num_lines: 3 };
    assert_eq!(grid.first_cell(), None);
}

#[test]
fn steps_of_the_walk() {
    let grid = Grid::new(5, 1).unwrap();
    assert_eq!(
        grid.next_cell(Cell { r: 0, s: 1, kr: -1, ks: -1 }),
        Some(Cell { r: 0, s: 1, kr: -1, ks: 0 })
    );
    assert_eq!(
        grid.next_cell(Cell { r: 0, s: 1, kr: -1, ks: 1 }),
        Some(Cell { r: 0, s: 1, kr: 0, ks: -1 })
    );
    assert_eq!(
        grid.next_cell(Cell { r: 0, s: 1, kr: 1, ks: 1 }),
        Some(Cell { r: 0, s: 2, kr: -1, ks: -1 })
    );
    assert_eq!(
        grid.next_cell(Cell { r: 0, s: 4, kr: 1, ks: 1 }),
        Some(Cell { r: 1, s: 2, kr: -1, ks: -1 })
    );
    assert_eq!(grid.next_cell(Cell { r: 3, s: 4, kr: 1, ks: 1 }), None);
}

#[test]
fn the_walk_is_the_nested_loops() {
    for dimension in 2..8usize {
        for num_lines in 0..4 {
            let grid = Grid::new(dimension, num_lines).unwrap();
            assert_eq!(walked(&grid), nested(dimension, num_lines));
        }
    }
}

#[test]
fn the_walk_has_as_many_cells_as_the_formula_says() {
    let grid = Grid::new(5, 1).unwrap();
    assert_eq!(walked(&grid).len(), 10 * 3 * 3);
    let grid = Grid::new(4, 2).unwrap();
    assert_eq!(walked(&grid).len(), 6 * 5 * 5);
    let grid = Grid::new(12, 3).unwrap();
    assert_eq!(walked(&grid).len(), 66 * 7 * 7);
}

#[test]
fn one_line_per_family_gives_one_cell_per_pair() {
    let grid = Grid::new(5, 0).unwrap();
    let cells = walked(&grid);
    assert_eq!(cells.len(), 10);
    assert!(cells.iter().all(|c| c.kr == 0 && c.ks == 0));
}

#[test]
fn two_families_have_one_pair() {
    let grid = Grid::new(2, 1).unwrap();
    let cells = walked(&grid);
    assert_eq!(cells.len(), 9);
    assert!(cells.iter().all(|c| c.r == 0 && c.s == 1));
}

#[test]
fn the_widest_grid_steps_without_overflow() {
    let grid = Grid::new(3, i32::MAX).unwrap();
    assert_eq!(
        grid.first_cell(),
        Some(Cell { r: 0, s: 1, kr: -i32::MAX, ks: -i32::MAX })
    );
    assert_eq!(
        grid.next_cell(Cell { r: 0, s: 1, kr: 0, ks: i32::MAX }),
        Some(Cell { r: 0, s: 1, kr: 1, ks: -i32::MAX })
    );
    assert_eq!(grid.next_cell(Cell { r: 1, s: 2, kr: i32::MAX, ks: i32::MAX }), None);
}

#[test]
fn no_cell_is_visited_twice() {
    let grid = Grid::new(6, 2).unwrap();
    let cells = walked(&grid);
    for (i, a) in cells.iter().enumerate() {
        for b in cells.iter().skip(i + 1) {
            assert_ne!(a, b);
        }
    }
}
