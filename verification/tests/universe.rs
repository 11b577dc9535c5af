use gameoflife::cell::Cell;
use gameoflife::universe::Universe;

/// A 5x5 universe seeded alive at the given addresses.
fn seeded(coords: &[(usize, usize)]) -> Universe {
    let mut u = Universe::new(5, 5);
    u.set_cells(&coords.to_vec());
    u
}

#[test]
fn glider_tick_first_seed() {
    let mut input = seeded(&[(1, 1), (2, 1), (2, 2), (3, 1), (3, 3)]);
    input.tick();
    // The successor under the standard rule on the 5x5 torus, each cell's
    // neighbour count taken from the frozen pre-step grid.
    let expected = seeded(&[(1, 1), (1, 2), (2, 0), (2, 1), (3, 1)]);
    assert_eq!(input.get_cells(), expected.get_cells());
}

#[test]
fn glider_tick_second_seed() {
    let mut input = seeded(&[(1, 1), (3, 1), (2, 2), (1, 3), (3, 3)]);
    input.tick();
    let expected = seeded(&[(2, 1), (1, 2), (3, 2), (2, 3)]);
    assert_eq!(input.get_cells(), expected.get_cells());
}

#[test]
fn tick_is_deterministic() {
    let seed = [(1, 1), (2, 1), (2, 2), (3, 1), (3, 3)];
    let mut a = seeded(&seed);
    let mut b = seeded(&seed);
    a.tick();
    b.tick();
    assert_eq!(a.get_cells(), b.get_cells());
    let mut c = seeded(&seed);
    c.tick();
    assert_eq!(a.get_cells(), c.get_cells());
}

#[test]
fn toroidal_wrap_births_corner_block() {
    // Three cells in the far corners of a 5x5 torus: the top-left cell sees
    // all three of them only through the wrapped last row and last column,
    // so it is born, completing a block across the corners.
    let mut u = Universe::new(5, 5);
    u.set_cells(&vec![(4, 4), (4, 0), (0, 4)]);
    u.tick();
    let expected = seeded(&[(0, 0), (0, 4), (4, 0), (4, 4)]);
    assert_eq!(u.get_cells(), expected.get_cells());
}

#[test]
fn one_by_one_counts_itself() {
    // On a 1x1 torus the lone cell is its own neighbour five times over, so
    // an alive cell dies of overpopulation.
    let mut u = Universe::new(1, 1);
    u.toggle_cell(0, 0);
    assert_eq!(u.get_cells()[0], Cell::Alive);
    u.tick();
    assert_eq!(u.get_cells()[0], Cell::Dead);
}

#[test]
fn two_by_two_lone_cell_dies() {
    let mut u = Universe::new(2, 2);
    u.toggle_cell(0, 0);
    u.tick();
    assert_eq!(u.get_cells(), Universe::new(2, 2).get_cells());
}

#[test]
fn toggle_twice_restores() {
    let mut u = Universe::new(4, 4);
    u.toggle_cell(2, 3);
    assert_eq!(u.get_cells()[2 * 4 + 3], Cell::Alive);
    u.toggle_cell(2, 3);
    assert_eq!(u.get_cells()[2 * 4 + 3], Cell::Dead);
}

#[test]
fn undo_round_trip_single_op() {
    let mut u = seeded(&[(1, 1), (2, 2)]);
    let before = u.get_cells().clone();
    u.tick();
    u.back();
    assert_eq!(u.get_cells(), &before);
}

#[test]
fn undo_round_trip_many_ops() {
    let mut u = Universe::new(4, 4);
    let s0 = u.get_cells().clone();
    u.toggle_cell(0, 0);
    let s1 = u.get_cells().clone();
    u.draw_glider(1, 1);
    let s2 = u.get_cells().clone();
    u.reset_cells();
    let s3 = u.get_cells().clone();
    u.set_cells_default();
    u.back();
    assert_eq!(u.get_cells(), &s3);
    u.back();
    assert_eq!(u.get_cells(), &s2);
    u.back();
    assert_eq!(u.get_cells(), &s1);
    u.back();
    assert_eq!(u.get_cells(), &s0);
}

#[test]
fn back_on_empty_history_is_noop() {
    let mut u = seeded(&[(0, 0)]);
    let before = u.get_cells().clone();
    // The bulk seeding pushed nothing, so the history is already empty.
    u.back();
    assert_eq!(u.get_cells(), &before);
    assert_eq!(u.get_width(), 5);
    assert_eq!(u.get_height(), 5);
}

#[test]
fn back_beyond_pushes_is_noop() {
    let mut u = Universe::new(3, 3);
    u.toggle_cell(1, 1);
    u.back();
    let before = u.get_cells().clone();
    u.back();
    u.back();
    assert_eq!(u.get_cells(), &before);
}

#[test]
fn history_retains_ten_most_recent() {
    // Eleven pushes into a ten-slot history evict the oldest snapshot: ten
    // undos walk back to the state after the first toggle, and an eleventh
    // undo finds the history empty and changes nothing.
    let mut u = Universe::new(2, 2);
    for _ in 0..11 {
        u.toggle_cell(0, 0);
    }
    // Eleven toggles leave the cell alive.
    assert_eq!(u.get_cells()[0], Cell::Alive);
    for _ in 0..10 {
        u.back();
    }
    // The state after the first toggle: alive. The pre-toggle all-dead
    // snapshot was evicted by the eleventh push.
    assert_eq!(u.get_cells()[0], Cell::Alive);
    u.back();
    assert_eq!(u.get_cells()[0], Cell::Alive);
}

#[test]
fn resize_width_clears_grid() {
    let mut u = seeded(&[(0, 0), (1, 1), (2, 2)]);
    u.set_width(4);
    assert_eq!(u.get_width(), 4);
    assert_eq!(u.get_height(), 5);
    assert_eq!(u.get_cells().len(), 20);
    assert!(u.get_cells().iter().all(|c| *c == Cell::Dead));
}

#[test]
fn resize_height_clears_grid() {
    let mut u = seeded(&[(0, 0), (1, 1), (2, 2)]);
    u.set_height(2);
    assert_eq!(u.get_width(), 5);
    assert_eq!(u.get_height(), 2);
    assert_eq!(u.get_cells().len(), 10);
    assert!(u.get_cells().iter().all(|c| *c == Cell::Dead));
}

#[test]
fn stale_snapshot_after_resize_is_discarded() {
    // Resizing pushes nothing and changes the grid size, so a snapshot taken
    // before the resize no longer fits: undo consumes it without restoring.
    let mut u = Universe::new(2, 2);
    u.toggle_cell(0, 0);
    u.set_width(3);
    let resized = u.get_cells().clone();
    u.back();
    assert_eq!(u.get_cells(), &resized);
    u.back();
    assert_eq!(u.get_cells(), &resized);
}

#[test]
fn default_pattern_follows_divisibility_rule() {
    let mut u = Universe::new(8, 8);
    u.set_cells_default();
    let cells = u.get_cells();
    assert_eq!(cells.len(), 64);
    for i in 0..64 {
        let expected = if i % 2 == 0 || i % 7 == 0 { Cell::Alive } else { Cell::Dead };
        assert_eq!(cells[i], expected);
    }
}

#[test]
fn default_constructor_is_seeded_64_by_64() {
    let u = Universe::new_default();
    assert_eq!(u.get_width(), 64);
    assert_eq!(u.get_height(), 64);
    let cells = u.get_cells();
    assert_eq!(cells.len(), 4096);
    for i in 0..4096 {
        let expected = if i % 2 == 0 || i % 7 == 0 { Cell::Alive } else { Cell::Dead };
        assert_eq!(cells[i], expected);
    }
}

#[test]
fn reset_kills_every_cell() {
    let mut u = Universe::new(6, 4);
    u.set_cells_default();
    u.reset_cells();
    assert_eq!(u.get_cells().len(), 24);
    assert!(u.get_cells().iter().all(|c| *c == Cell::Dead));
    u.back();
    // The snapshot taken by the reset restores the default pattern.
    assert_eq!(u.get_cells()[0], Cell::Alive);
    assert_eq!(u.get_cells()[1], Cell::Dead);
}

#[test]
fn randomize_keeps_size_and_is_undoable() {
    let mut u = seeded(&[(0, 0), (4, 4)]);
    let before = u.get_cells().clone();
    u.randomize_cells();
    assert_eq!(u.get_cells().len(), 25);
    u.back();
    assert_eq!(u.get_cells(), &before);
}

#[test]
fn glider_footprint_on_five_by_five() {
    let mut u = Universe::new(5, 5);
    u.draw_glider(2, 2);
    let expected = seeded(&[(1, 2), (2, 3), (3, 1), (3, 2), (3, 3)]);
    assert_eq!(u.get_cells(), expected.get_cells());
    u.back();
    assert_eq!(u.get_cells(), Universe::new(5, 5).get_cells());
}

#[test]
fn set_cells_marks_only_listed_addresses() {
    let mut u = Universe::new(3, 3);
    u.set_cells(&vec![(0, 2), (2, 0)]);
    let cells = u.get_cells();
    for row in 0..3 {
        for col in 0..3 {
            let expected = if (row, col) == (0, 2) || (row, col) == (2, 0) {
                Cell::Alive
            } else {
                Cell::Dead
            };
            assert_eq!(cells[row * 3 + col], expected);
        }
    }
}

#[test]
fn tick_on_non_square_grid() {
    // Width four, height three: the rule covers every cell of a rectangular
    // grid, row-major, with the same toroidal neighbourhoods.
    let mut u = Universe::new(4, 3);
    u.set_cells(&vec![(0, 1), (1, 1), (1, 2)]);
    u.tick();
    let mut expected = Universe::new(4, 3);
    expected.set_cells(&vec![(0, 1), (0, 2), (1, 1), (1, 2), (2, 1), (2, 2)]);
    assert_eq!(u.get_cells(), expected.get_cells());
}
