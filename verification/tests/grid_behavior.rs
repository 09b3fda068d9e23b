use game_of_life::grid::Grid;

fn triples(grid: &Grid) -> Vec<(usize, usize, bool)> {
    let mut out = Vec::new();
    let mut it = grid.into_iter();
    while let Some(t) = it.next() {
        out.push(t);
    }
    out
}

#[test]
fn new_grid_is_all_dead() {
    let grid = Grid::new(4, 5);
    assert_eq!(grid.height, 4);
    assert_eq!(grid.width, 5);
    for y in 0..4 {
        for x in 0..5 {
            assert!(!grid.get_value(x, y));
        }
    }
}

#[test]
fn enumeration_is_row_major_and_restartable() {
    let mut grid = Grid::new(2, 3);
    grid.toggle_value(2, 1);
    let ts = triples(&grid);
    assert_eq!(
        ts,
        vec![
            (0, 0, false),
            (1, 0, false),
            (2, 0, false),
            (0, 1, false),
            (1, 1, false),
            (2, 1, true),
        ]
    );
    // A fresh enumeration of the unchanged grid yields the same triples.
    assert_eq!(triples(&grid), ts);
}

#[test]
fn toggle_sets_exactly_one_cell() {
    let mut grid = Grid::new(3, 3);
    grid.toggle_value(1, 2);
    for y in 0..3 {
        for x in 0..3 {
            assert_eq!(grid.get_value(x, y), x == 1 && y == 2);
        }
    }
}

#[test]
fn toggle_twice_is_self_inverse() {
    let mut grid = Grid::new(3, 4);
    grid.toggle_value(2, 1);
    assert!(grid.get_value(2, 1));
    grid.toggle_value(2, 1);
    assert!(!grid.get_value(2, 1));
    // The same holds starting from a live cell.
    grid.toggle_value(0, 0);
    grid.toggle_value(2, 1);
    grid.toggle_value(2, 1);
    assert!(grid.get_value(0, 0));
    assert!(!grid.get_value(2, 1));
}

#[test]
fn clear_kills_everything_and_is_idempotent() {
    let mut grid = Grid::new(4, 4);
    grid.toggle_value(0, 0);
    grid.toggle_value(3, 3);
    grid.toggle_value(1, 2);
    grid.clear();
    for t in triples(&grid) {
        assert!(!t.2);
    }
    let once = triples(&grid);
    grid.clear();
    assert_eq!(triples(&grid), once);
}

#[test]
fn block_is_a_still_life() {
    // A 2x2 block in the interior of a 6x6 grid survives any number of
    // generations unchanged.
    let mut grid = Grid::new(6, 6);
    for (x, y) in [(2, 2), (3, 2), (2, 3), (3, 3)] {
        grid.toggle_value(x, y);
    }
    for _ in 0..5 {
        grid.update();
        for y in 0..6 {
            for x in 0..6 {
                let in_block = (2..=3).contains(&x) && (2..=3).contains(&y);
                assert_eq!(grid.get_value(x, y), in_block);
            }
        }
    }
}

#[test]
fn blinker_oscillates_with_period_two() {
    let mut grid = Grid::new(7, 7);
    for (x, y) in [(2, 3), (3, 3), (4, 3)] {
        grid.toggle_value(x, y);
    }
    grid.update();
    for y in 0..7 {
        for x in 0..7 {
            let vertical = x == 3 && (2..=4).contains(&y);
            assert_eq!(grid.get_value(x, y), vertical);
        }
    }
    grid.update();
    for y in 0..7 {
        for x in 0..7 {
            let horizontal = y == 3 && (2..=4).contains(&x);
            assert_eq!(grid.get_value(x, y), horizontal);
        }
    }
}

#[test]
fn corner_cell_never_wraps_around() {
    // With live cells only at the three far corners, the cell at (0, 0)
    // has zero in-bounds neighbors and dies; with wraparound it would
    // see all three and survive.
    let mut grid = Grid::new(5, 5);
    for (x, y) in [(0, 0), (4, 0), (0, 4), (4, 4)] {
        grid.toggle_value(x, y);
    }
    assert_eq!(grid.count_alive_neighbors(0, 0), 0);
    grid.update();
    assert!(!grid.get_value(0, 0));
}

#[test]
fn corner_and_edge_neighbor_counts() {
    // On a fully live grid a corner has 3 in-bounds neighbors, an edge
    // cell 5, and an interior cell 8.
    let mut grid = Grid::new(5, 5);
    for y in 0..5 {
        for x in 0..5 {
            grid.toggle_value(x, y);
        }
    }
    assert_eq!(grid.count_alive_neighbors(0, 0), 3);
    assert_eq!(grid.count_alive_neighbors(4, 4), 3);
    assert_eq!(grid.count_alive_neighbors(0, 2), 5);
    assert_eq!(grid.count_alive_neighbors(2, 0), 5);
    assert_eq!(grid.count_alive_neighbors(2, 2), 8);
}

#[test]
fn update_is_synchronous() {
    // Three live cells along the top edge. The birth at (1, 1) needs all
    // three as neighbors; an in-place sweep that killed (0, 0) before
    // counting for (1, 1) would miss it.
    let mut grid = Grid::new(5, 5);
    for (x, y) in [(0, 0), (1, 0), (2, 0)] {
        grid.toggle_value(x, y);
    }
    grid.update();
    assert!(grid.get_value(1, 1));
    assert!(grid.get_value(1, 0));
    assert!(!grid.get_value(0, 0));
    assert!(!grid.get_value(2, 0));
}

#[test]
fn last_row_and_column_are_updated() {
    // The advance covers the whole grid: a block in the far corner,
    // including cells in the last row and last column, is a still life
    // and must survive.
    let mut grid = Grid::new(5, 5);
    for (x, y) in [(3, 3), (4, 3), (3, 4), (4, 4)] {
        grid.toggle_value(x, y);
    }
    grid.update();
    for (x, y) in [(3, 3), (4, 3), (3, 4), (4, 4)] {
        assert!(grid.get_value(x, y));
    }
    // And a live cell in the last column with two live column neighbors
    // survives there.
    let mut edge = Grid::new(5, 5);
    for (x, y) in [(4, 1), (4, 2), (4, 3)] {
        edge.toggle_value(x, y);
    }
    edge.update();
    assert!(edge.get_value(4, 2));
    assert!(edge.get_value(3, 2));
    assert!(!edge.get_value(4, 1));
    assert!(!edge.get_value(4, 3));
}

#[test]
fn reset_random_at_probability_one_fills_the_grid() {
    let mut grid = Grid::new(4, 6);
    grid.reset_random(1, 1);
    assert_eq!(grid.height, 4);
    assert_eq!(grid.width, 6);
    for t in triples(&grid) {
        assert!(t.2);
    }
}

#[test]
fn reset_random_at_probability_zero_clears_the_grid() {
    let mut grid = Grid::new(4, 6);
    grid.toggle_value(1, 1);
    grid.reset_random(0, 2);
    for t in triples(&grid) {
        assert!(!t.2);
    }
}

#[test]
fn reset_random_keeps_the_dimensions() {
    let mut grid = Grid::new(3, 7);
    grid.reset_random(1, 2);
    assert_eq!(grid.height, 3);
    assert_eq!(grid.width, 7);
    assert_eq!(triples(&grid).len(), 21);
}

#[test]
fn is_coords_valid_matches_the_bounds() {
    let grid = Grid::new(4, 5);
    assert!(grid.is_coords_valid(0, 0));
    assert!(grid.is_coords_valid(4, 3));
    assert!(!grid.is_coords_valid(5, 0));
    assert!(!grid.is_coords_valid(0, 4));
    assert!(!grid.is_coords_valid(5, 4));
}
