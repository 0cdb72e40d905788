use std::collections::VecDeque;

use life_grid::Direction;
use life_grid::Grid;

#[test]
fn noop_resize_changes_nothing() {
    let mut grid = Grid::new(9, 6);
    for cell_index in [(0, 0), (4, 3), (8, 5)] {
        grid.toggle_cell(cell_index);
    }
    grid.next_generation();
    let cells_before = grid.cells.clone();
    let population_before = grid.population;
    let generation_before = grid.generation;

    grid.resize(9, 6);

    assert!(grid.cells == cells_before);
    assert_eq!(grid.population, population_before);
    assert_eq!(grid.generation, generation_before);
    assert_eq!(grid.width, 9);
    assert_eq!(grid.height, 6);
    assert_eq!(grid.width_append_direction, Direction::Right);
    assert_eq!(grid.height_append_direction, Direction::Bottom);
}

#[test]
fn even_grow_pads_both_edges_with_dead_cells() {
    let mut grid = Grid::new(3, 3);
    grid.toggle_cell((1, 1));

    grid.resize(5, 5);

    // One new dead row/column on every edge; the live cell moves with them.
    assert_eq!(grid.population, 1);
    assert_eq!(grid.read(2, 2), true);
    for x in 0..5 {
        assert_eq!(grid.read(x, 0), false);
        assert_eq!(grid.read(x, 4), false);
    }
    // An even difference consults no direction, so none of them moves.
    assert_eq!(grid.width_append_direction, Direction::Right);
    assert_eq!(grid.width_remove_direction, Direction::Right);
    assert_eq!(grid.height_append_direction, Direction::Bottom);
    assert_eq!(grid.height_remove_direction, Direction::Bottom);
}

#[test]
fn shrink_subtracts_exactly_the_lost_live_cells() {
    let mut grid = Grid::new(4, 4);
    for cell_index in [(0, 0), (1, 1), (3, 3)] {
        grid.toggle_cell(cell_index);
    }
    assert_eq!(grid.population, 3);

    // Shrinking the height by one removes the bottom row first, so exactly
    // the live cell at (3, 3) falls outside the new bounds.
    grid.resize(4, 3);

    assert_eq!(grid.population, 2);
    assert_eq!(grid.read(0, 0), true);
    assert_eq!(grid.read(1, 1), true);
}

#[test]
fn odd_height_grows_alternate_edges() {
    let mut grid = Grid::new(3, 3);
    grid.toggle_cell((0, 0));

    // The first odd grow extends the bottom edge: the marker keeps its row.
    grid.resize(3, 4);
    assert_eq!(grid.read(0, 0), true);
    assert_eq!(grid.height_append_direction, Direction::Top);
    assert_eq!(grid.height_remove_direction, Direction::Bottom);

    // The second odd grow extends the top edge: the marker moves down.
    grid.resize(3, 5);
    assert_eq!(grid.read(0, 0), false);
    assert_eq!(grid.read(0, 1), true);
    assert_eq!(grid.height_append_direction, Direction::Bottom);
    assert_eq!(grid.height_remove_direction, Direction::Top);
}

#[test]
fn odd_width_grows_alternate_edges() {
    let mut grid = Grid::new(3, 3);
    grid.toggle_cell((0, 0));

    // The first odd grow extends the right edge: the marker keeps its column.
    grid.resize(4, 3);
    assert_eq!(grid.read(0, 0), true);
    assert_eq!(grid.width_append_direction, Direction::Left);
    assert_eq!(grid.width_remove_direction, Direction::Right);

    // The second odd grow extends the left edge: the marker moves right.
    grid.resize(5, 3);
    assert_eq!(grid.read(0, 0), false);
    assert_eq!(grid.read(1, 0), true);
    assert_eq!(grid.width_append_direction, Direction::Right);
    assert_eq!(grid.width_remove_direction, Direction::Left);
}

#[test]
fn odd_shrink_removes_the_edge_the_last_grow_added() {
    let mut grid = Grid::new(3, 4);
    grid.toggle_cell((1, 1));

    grid.resize(3, 5);
    // The grow extended the bottom edge, so the next shrink cuts it back.
    assert_eq!(grid.height_remove_direction, Direction::Bottom);
    grid.resize(3, 4);

    assert_eq!(grid.population, 1);
    assert_eq!(grid.read(1, 1), true);
    // The shrink hands the append direction back its edge and flips the
    // remove direction.
    assert_eq!(grid.height_append_direction, Direction::Bottom);
    assert_eq!(grid.height_remove_direction, Direction::Top);
}

#[test]
fn odd_shrinks_alternate_edges() {
    let mut grid = Grid::new(2, 5);
    for y in 0..5 {
        grid.toggle_cell((0, y));
    }

    // The first odd shrink removes the bottom row.
    grid.resize(2, 4);
    assert_eq!(grid.population, 4);
    assert_eq!(grid.height_remove_direction, Direction::Top);
    assert_eq!(grid.height_append_direction, Direction::Bottom);

    // The second odd shrink removes the top row.
    grid.resize(2, 3);
    assert_eq!(grid.population, 3);
    assert_eq!(grid.height_remove_direction, Direction::Bottom);
    assert_eq!(grid.height_append_direction, Direction::Top);
}

#[test]
fn grow_then_shrink_height_restores_the_grid() {
    let mut grid = Grid::new(4, 3);
    for cell_index in [(0, 0), (2, 1), (3, 2)] {
        grid.toggle_cell(cell_index);
    }
    let cells_before = grid.cells.clone();

    // An odd difference: the shrink removes exactly the rows the grow added.
    grid.resize(4, 6);
    grid.resize(4, 3);
    assert!(grid.cells == cells_before);
    assert_eq!(grid.population, 3);

    // An even difference restores the grid as well.
    grid.resize(4, 5);
    grid.resize(4, 3);
    assert!(grid.cells == cells_before);
    assert_eq!(grid.population, 3);
}

#[test]
fn resize_to_zero_and_back_does_not_panic() {
    let mut grid = Grid::new(3, 3);
    grid.toggle_cell((1, 1));

    grid.resize(0, 0);
    assert_eq!(grid.population, 0);
    assert_eq!(grid.width, 0);
    assert_eq!(grid.height, 0);

    grid.resize(3, 3);
    assert_eq!(grid.population, 0);
    for x in 0..3 {
        for y in 0..3 {
            assert_eq!(grid.read(x, y), false);
        }
    }
}

#[test]
fn grow_and_shrink_on_different_axes_at_once() {
    let mut grid = Grid::new(4, 2);
    grid.toggle_cell((0, 0));
    grid.toggle_cell((3, 1));

    // Width shrinks by one (removes the right column and the live cell in
    // it), height grows by one (adds a dead bottom row).
    grid.resize(3, 3);

    assert_eq!(grid.width, 3);
    assert_eq!(grid.height, 3);
    assert_eq!(grid.population, 1);
    assert_eq!(grid.read(0, 0), true);
    for x in 0..3 {
        assert_eq!(grid.read(x, 2), false);
    }
}

#[test]
fn population_matches_scan_after_any_sequence() {
    let mut grid = Grid::new(12, 9);
    for cell_index in [(0, 0), (5, 5), (5, 6), (5, 7), (11, 8), (2, 3)] {
        grid.toggle_cell(cell_index);
    }
    grid.next_generation();
    grid.resize(15, 6);
    grid.toggle_cell((14, 5));
    grid.next_generation();
    grid.resize(7, 9);

    let live_by_scan = grid
        .cells
        .iter()
        .filter(|cell| **cell)
        .count();
    assert_eq!(grid.population, live_by_scan);
}

#[test]
fn row_population_counts_live_cells() {
    assert_eq!(Grid::row_population(VecDeque::new()), 0);
    assert_eq!(Grid::row_population(VecDeque::from(vec![false, false, false])), 0);
    assert_eq!(
        Grid::row_population(VecDeque::from(vec![true, false, true, true])),
        3
    );
}
