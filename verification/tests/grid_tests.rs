use life_grid::Grid;

#[test]
fn alone_cells_should_die() {
    let mut grid = Grid::new(100, 100);
    grid.toggle_cell((0, 0));
    grid.toggle_cell((5, 5));
    grid.toggle_cell((99, 99));
    grid.toggle_cell((0, 50));
    grid.toggle_cell((50, 0));

    grid.next_generation();

    assert_eq!(grid.population, 0);
    assert!(
        grid.cells == vec![false; 10000],
        "The grid cells are not as expected!"
    );
}

#[test]
fn cells_with_one_neighbor_should_die() {
    let mut grid = Grid::new(100, 100);
    let alive_cell_indices = [(0, 0), (0, 1), (5, 0), (5, 1), (98, 98), (99, 99)];
    for cell_index in alive_cell_indices {
        grid.toggle_cell(cell_index);
    }

    grid.next_generation();

    assert_eq!(grid.population, 0);
    for cell_index in alive_cell_indices {
        assert_eq!(grid.read(cell_index.0, cell_index.1), false);
    }
}

// Blinker is a special pattern in game of life
#[test]
fn blinker() {
    let mut grid = Grid::new(100, 100);
    let alive_cell_indices = [(10, 10), (10, 11), (10, 12)];
    for cell_index in alive_cell_indices {
        grid.toggle_cell(cell_index);
    }

    grid.next_generation();
    assert_eq!(grid.population, 3);

    let alive_cell_indices = [(9, 11), (10, 11), (11, 11)];
    for cell_index in alive_cell_indices {
        assert_eq!(grid.read(cell_index.0, cell_index.1), true);
    }
}

#[test]
fn new_grid_is_dead_and_counts_from_zero() {
    let grid = Grid::new(7, 5);
    assert_eq!(grid.width, 7);
    assert_eq!(grid.height, 5);
    assert_eq!(grid.population, 0);
    assert_eq!(grid.generation, 0);
    for x in 0..7 {
        for y in 0..5 {
            assert_eq!(grid.read(x, y), false);
        }
    }
}

#[test]
fn zero_area_grid_does_not_panic() {
    let grid = Grid::new(0, 0);
    assert_eq!(grid.population, 0);
    let row_only = Grid::new(4, 0);
    assert_eq!(row_only.population, 0);
    let column_only = Grid::new(0, 4);
    assert_eq!(column_only.population, 0);
}

#[test]
fn toggle_round_trip_restores_cell_and_population() {
    let mut grid = Grid::new(8, 8);
    grid.toggle_cell((3, 4));
    grid.toggle_cell((6, 6));
    assert_eq!(grid.population, 2);
    let before = grid.cells.clone();

    grid.toggle_cell((2, 5));
    grid.toggle_cell((2, 5));

    assert_eq!(grid.population, 2);
    assert!(grid.cells == before);
}

#[test]
fn toggle_keeps_population_in_sync() {
    let mut grid = Grid::new(10, 10);
    grid.toggle_cell((1, 1));
    assert_eq!(grid.population, 1);
    assert_eq!(grid.read(1, 1), true);
    grid.toggle_cell((2, 1));
    assert_eq!(grid.population, 2);
    grid.toggle_cell((1, 1));
    assert_eq!(grid.population, 1);
    assert_eq!(grid.read(1, 1), false);

    let live_by_scan = grid
        .cells
        .iter()
        .filter(|cell| **cell)
        .count();
    assert_eq!(grid.population, live_by_scan);
}

#[test]
fn get_is_bounds_checked() {
    let mut grid = Grid::new(4, 3);
    grid.toggle_cell((2, 1));
    assert_eq!(grid.get(2, 1), Some(&true));
    assert_eq!(grid.get(0, 0), Some(&false));
    assert_eq!(grid.get(4, 0), None);
    assert_eq!(grid.get(0, 3), None);
    assert_eq!(grid.get(65535, 65535), None);
}

#[test]
fn count_alive_neighbors_sees_all_eight() {
    let mut grid = Grid::new(5, 5);
    for x in 1..4 {
        for y in 1..4 {
            grid.toggle_cell((x, y));
        }
    }
    // The center of a full 3x3 block has all eight neighbors alive; the
    // block's corner has three; a far-away empty cell has none.
    assert_eq!(grid.count_alive_neighbors((2, 2)), 8);
    assert_eq!(grid.count_alive_neighbors((1, 1)), 3);
    assert_eq!(grid.count_alive_neighbors((0, 0)), 1);
    assert_eq!(grid.count_alive_neighbors((4, 4)), 1);
}

#[test]
fn block_is_still_life_and_generation_counts_sweeps() {
    let mut grid = Grid::new(6, 6);
    for cell_index in [(2, 2), (2, 3), (3, 2), (3, 3)] {
        grid.toggle_cell(cell_index);
    }
    grid.next_generation();
    grid.next_generation();
    assert_eq!(grid.generation, 2);
    assert_eq!(grid.population, 4);
    for cell_index in [(2, 2), (2, 3), (3, 2), (3, 3)] {
        assert_eq!(grid.read(cell_index.0, cell_index.1), true);
    }
}
