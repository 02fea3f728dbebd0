use game_of_life::cell::Cell;
use game_of_life::universe::Universe;

fn dead_grid(width: u32, height: u32) -> Universe {
    let mut u = Universe::new();
    u.set_width(width);
    u.set_height(height);
    u
}

#[test]
fn new_is_64_by_64_and_seeded() {
    let u = Universe::new();
    assert_eq!(u.width(), 64);
    assert_eq!(u.height(), 64);
    let cells = u.cells();
    assert_eq!(cells.len(), 4096);
    for i in 0..cells.len() {
        let expected = if i % 2 == 0 || i % 7 == 0 { Cell::Alive } else { Cell::Dead };
        assert_eq!(cells[i], expected);
    }
}

#[test]
fn tick_is_deterministic() {
    let mut a = dead_grid(5, 5);
    let mut b = dead_grid(5, 5);
    let seed: Vec<(u32, u32)> = vec![(0, 1), (1, 2), (2, 0), (2, 1), (2, 2), (4, 4)];
    a.set_cells(&seed);
    b.set_cells(&seed);
    a.tick();
    b.tick();
    assert_eq!(a.cells(), b.cells());
    a.tick();
    b.tick();
    assert_eq!(a.cells(), b.cells());
}

#[test]
fn blinker_row_updates_simultaneously() {
    // On a 3x3 torus every dead cell sees the whole live row as 3
    // neighbors and is born, while the row itself survives with 2:
    // the snapshot-based expected result is a fully live grid. An
    // in-place update that lets a cell see an already-updated
    // neighbor would not produce it.
    let mut u = dead_grid(3, 3);
    u.set_cells(&[(1, 0), (1, 1), (1, 2)]);
    u.tick();
    for cell in u.cells() {
        assert_eq!(*cell, Cell::Alive);
    }
}

#[test]
fn corner_counts_wrapped_neighbors() {
    // The corner (0, 0) is dead with exactly 3 live neighbors, all of
    // them reached only by wrapping: the diagonal (3, 3) and the two
    // edges (3, 0) and (0, 3). It must be born.
    let mut u = dead_grid(4, 4);
    u.set_cells(&[(3, 3), (3, 0), (0, 3)]);
    u.tick();
    assert_eq!(u.cells()[0], Cell::Alive);
}

const GLIDER: [Cell; 9] = [
    Cell::Dead, Cell::Alive, Cell::Dead,
    Cell::Dead, Cell::Dead, Cell::Alive,
    Cell::Alive, Cell::Alive, Cell::Alive,
];

const PULSER: [Cell; 15] = [
    Cell::Alive, Cell::Dead, Cell::Dead, Cell::Dead, Cell::Alive,
    Cell::Alive, Cell::Dead, Cell::Alive, Cell::Dead, Cell::Alive,
    Cell::Alive, Cell::Dead, Cell::Dead, Cell::Dead, Cell::Alive,
];

fn window_matches(u: &Universe, row: u32, col: u32, rows: u32, cols: u32, pattern: &[Cell]) {
    for dr in 0..rows {
        for dc in 0..cols {
            let r = (row + dr) % u.height();
            let c = (col + dc) % u.width();
            let idx = (r * u.width() + c) as usize;
            assert_eq!(u.cells()[idx], pattern[(dr * cols + dc) as usize]);
        }
    }
}

#[test]
fn glider_round_trip() {
    let mut u = dead_grid(8, 8);
    u.toggle_cell(0, 0);
    u.set_glider(2, 3);
    window_matches(&u, 2, 3, 3, 3, &GLIDER);
    // Cells outside the stamped window are unaffected.
    assert_eq!(u.cells()[0], Cell::Alive);
    assert_eq!(u.cells()[1], Cell::Dead);
    assert_eq!(u.cells()[63], Cell::Dead);
}

#[test]
fn glider_wraps_past_the_edge() {
    let mut u = dead_grid(8, 8);
    u.set_glider(6, 7);
    window_matches(&u, 6, 7, 3, 3, &GLIDER);
}

#[test]
fn pulser_round_trip() {
    let mut u = dead_grid(8, 8);
    u.toggle_cell(7, 7);
    u.set_pulser(1, 2);
    window_matches(&u, 1, 2, 3, 5, &PULSER);
    // Cells outside the stamped window are unaffected.
    assert_eq!(u.cells()[(7 * 8 + 7) as usize], Cell::Alive);
    assert_eq!(u.cells()[0], Cell::Dead);
}

#[test]
fn pulser_wraps_past_the_edge() {
    let mut u = dead_grid(8, 8);
    u.set_pulser(7, 5);
    window_matches(&u, 7, 5, 3, 5, &PULSER);
}

#[test]
fn resize_resets_to_dead() {
    let mut u = Universe::new();
    u.set_width(30);
    assert_eq!(u.width(), 30);
    assert_eq!(u.height(), 64);
    assert_eq!(u.cells().len(), 30 * 64);
    for cell in u.cells() {
        assert_eq!(*cell, Cell::Dead);
    }
    u.set_cells(&[(0, 0)]);
    u.set_height(10);
    assert_eq!(u.height(), 10);
    assert_eq!(u.cells().len(), 30 * 10);
    for cell in u.cells() {
        assert_eq!(*cell, Cell::Dead);
    }
}

#[test]
fn zero_width_grid_is_empty_and_safe() {
    let mut u = Universe::new();
    u.set_width(0);
    assert_eq!(u.cells().len(), 0);
    u.tick();
    assert_eq!(u.cells().len(), 0);
    // One line per row, each of zero glyphs.
    assert_eq!(u.render(), "\n".repeat(64));
    u.set_height(17);
    assert_eq!(u.cells().len(), 0);
}

#[test]
fn single_row_grid_counts_neighbors_by_offset_value() {
    // On a one-row grid the upward offset coincides with staying put,
    // so the cell itself is counted once and each horizontal neighbor
    // three times. A lone live cell then gives both horizontal
    // neighbors a count of 3 (born) and keeps 1 itself (dies).
    let mut u = dead_grid(3, 1);
    u.set_cells(&[(0, 1)]);
    u.tick();
    assert_eq!(u.cells().as_slice(), &[Cell::Alive, Cell::Dead, Cell::Alive]);
}

#[test]
fn one_by_one_live_cell_dies() {
    // All counted offsets reach the cell itself, five times over, so
    // it is overpopulated and dies.
    let mut u = dead_grid(1, 1);
    u.set_cells(&[(0, 0)]);
    u.tick();
    assert_eq!(u.cells()[0], Cell::Dead);
}

#[test]
fn lone_cell_dies() {
    let mut u = dead_grid(4, 4);
    u.set_cells(&[(1, 1)]);
    u.tick();
    for cell in u.cells() {
        assert_eq!(*cell, Cell::Dead);
    }
}

#[test]
fn block_is_stable() {
    let mut u = dead_grid(4, 4);
    u.set_cells(&[(1, 1), (1, 2), (2, 1), (2, 2)]);
    let before = u.cells().clone();
    for _ in 0..5 {
        u.tick();
        assert_eq!(u.cells(), &before);
    }
}

#[test]
fn render_2_by_2() {
    let mut u = dead_grid(2, 2);
    u.set_cells(&[(0, 0), (1, 1)]);
    assert_eq!(u.render(), "◼◻\n◻◼\n");
}

#[test]
fn render_has_one_line_per_row() {
    let u = Universe::new();
    let text = u.render();
    let lines: Vec<&str> = text.split_terminator('\n').collect();
    assert_eq!(lines.len(), 64);
    for line in lines {
        assert_eq!(line.chars().count(), 64);
    }
}

#[test]
fn toggle_cell_flips_and_restores() {
    let mut u = dead_grid(3, 3);
    u.toggle_cell(2, 1);
    assert_eq!(u.cells()[(2 * 3 + 1) as usize], Cell::Alive);
    u.toggle_cell(2, 1);
    assert_eq!(u.cells()[(2 * 3 + 1) as usize], Cell::Dead);
}

#[test]
fn set_initial_cells_restores_the_seed() {
    let mut u = Universe::new();
    let seeded = u.cells().clone();
    u.set_random_cells();
    u.set_initial_cells();
    assert_eq!(u.cells(), &seeded);
}

#[test]
fn set_all_dead_cells_clears_the_grid() {
    let mut u = Universe::new();
    u.set_all_dead_cells();
    assert_eq!(u.cells().len(), 4096);
    for cell in u.cells() {
        assert_eq!(*cell, Cell::Dead);
    }
}

#[test]
fn set_random_cells_keeps_the_dimensions() {
    let mut u = dead_grid(9, 7);
    u.set_random_cells();
    assert_eq!(u.width(), 9);
    assert_eq!(u.height(), 7);
    assert_eq!(u.cells().len(), 63);
}

#[test]
fn get_cells_views_the_same_buffer() {
    let mut u = dead_grid(4, 4);
    u.set_cells(&[(0, 1), (3, 2)]);
    assert_eq!(u.get_cells(), u.cells().as_slice());
    assert_eq!(u.get_cells()[1], Cell::Alive);
    assert_eq!(u.get_cells()[3 * 4 + 2], Cell::Alive);
    assert_eq!(u.get_cells()[0], Cell::Dead);
}
