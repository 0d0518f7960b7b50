use life_engine::{Cell, Color, Universe};

fn cell_at(u: &Universe, row: u32, column: u32) -> Cell {
    u.cells()[(row * u.width() + column) as usize]
}

fn count_state(u: &Universe, state: Cell) -> usize {
    u.cells().iter().filter(|&&c| c == state).count()
}

#[test]
fn new_grid_is_all_dead() {
    let u = Universe::new(7, 5);
    assert_eq!(u.width(), 7);
    assert_eq!(u.height(), 5);
    assert_eq!(u.cells().len(), 35);
    assert_eq!(count_state(&u, Cell::Dead), 35);
}

#[test]
fn toggle_steps_through_the_three_states() {
    let mut u = Universe::new(3, 3);
    u.toggle_cell(1, 2);
    assert_eq!(cell_at(&u, 1, 2), Cell::Alive);
    u.toggle_cell(1, 2);
    assert_eq!(cell_at(&u, 1, 2), Cell::RecentlyDead);
    u.toggle_cell(1, 2);
    assert_eq!(cell_at(&u, 1, 2), Cell::Dead);
}

#[test]
fn three_toggles_restore_every_starting_state() {
    let mut u = Universe::new(4, 4);
    // Put the probed cells into each of the three states first.
    u.set_alive(0, 1);
    u.toggle_cell(2, 3);
    u.toggle_cell(2, 3);
    let before: Vec<Cell> = u.cells().clone();
    for _ in 0..3 {
        u.toggle_cell(0, 0);
        u.toggle_cell(0, 1);
        u.toggle_cell(2, 3);
    }
    assert_eq!(u.cells(), &before);
}

#[test]
fn set_alive_then_set_dead_always_yields_dead() {
    let mut u = Universe::new(3, 3);
    // From every prior state: Dead, Alive, RecentlyDead.
    u.set_alive(0, 0);
    u.set_dead(0, 0);
    assert_eq!(cell_at(&u, 0, 0), Cell::Dead);

    u.set_alive(1, 1);
    u.set_alive(1, 1);
    u.set_dead(1, 1);
    assert_eq!(cell_at(&u, 1, 1), Cell::Dead);

    u.toggle_cell(2, 2);
    u.toggle_cell(2, 2);
    u.set_alive(2, 2);
    u.set_dead(2, 2);
    assert_eq!(cell_at(&u, 2, 2), Cell::Dead);
}

#[test]
fn set_dead_is_idempotent() {
    let mut u = Universe::new(3, 3);
    u.set_alive(1, 0);
    u.set_dead(1, 0);
    let once: Vec<Cell> = u.cells().clone();
    u.set_dead(1, 0);
    assert_eq!(u.cells(), &once);
}

#[test]
fn neighbor_count_wraps_to_the_opposite_corner() {
    let mut u = Universe::new(4, 3);
    u.set_alive(2, 3);
    assert_eq!(u.live_neighbor_count(0, 0), 1);
}

#[test]
fn neighbor_count_sees_all_eight_neighbors() {
    let mut u = Universe::new(5, 5);
    for (r, c) in [(1, 1), (1, 2), (1, 3), (2, 1), (2, 3), (3, 1), (3, 2), (3, 3)] {
        u.set_alive(r, c);
    }
    assert_eq!(u.live_neighbor_count(2, 2), 8);
    // The center cell itself never counts.
    u.set_alive(2, 2);
    assert_eq!(u.live_neighbor_count(2, 2), 8);
}

#[test]
fn neighbor_count_ignores_recently_dead() {
    let mut u = Universe::new(5, 5);
    u.toggle_cell(1, 1);
    u.toggle_cell(1, 1);
    assert_eq!(cell_at(&u, 1, 1), Cell::RecentlyDead);
    assert_eq!(u.live_neighbor_count(2, 2), 0);
}

#[test]
fn blinker_rotates_to_vertical() {
    // A horizontal three-cell blinker in the middle of a 5x5 grid: one tick
    // rotates it to vertical, computed from a frozen snapshot of the old
    // generation. The two arms that die become RecentlyDead, not Dead.
    let mut u = Universe::new(5, 5);
    u.set_alive(2, 1);
    u.set_alive(2, 2);
    u.set_alive(2, 3);
    let changed = u.tick();
    assert!(changed);
    for r in 0..5 {
        for c in 0..5 {
            let expected = match (r, c) {
                (1, 2) | (2, 2) | (3, 2) => Cell::Alive,
                (2, 1) | (2, 3) => Cell::RecentlyDead,
                _ => Cell::Dead,
            };
            assert_eq!(cell_at(&u, r, c), expected, "cell ({}, {})", r, c);
        }
    }
}

#[test]
fn full_row_on_a_three_wide_torus_fills_the_grid() {
    // On a 3x3 torus a full row is seen by every cell: each dead cell has
    // exactly three live neighbors and each live cell exactly two, so one
    // tick turns the whole grid alive.
    let mut u = Universe::new(3, 3);
    u.set_alive(1, 0);
    u.set_alive(1, 1);
    u.set_alive(1, 2);
    assert!(u.tick());
    assert_eq!(count_state(&u, Cell::Alive), 9);
}

#[test]
fn dead_grid_tick_reports_no_change() {
    let mut u = Universe::new(4, 6);
    let changed = u.tick();
    assert!(!changed);
    assert_eq!(count_state(&u, Cell::Dead), 24);
}

#[test]
fn alive_cell_with_two_neighbors_survives() {
    let mut u = Universe::new(5, 5);
    u.set_alive(2, 2);
    u.set_alive(1, 1);
    u.set_alive(3, 3);
    u.tick();
    assert_eq!(cell_at(&u, 2, 2), Cell::Alive);
}

#[test]
fn alive_cell_with_four_neighbors_becomes_recently_dead() {
    let mut u = Universe::new(5, 5);
    u.set_alive(2, 2);
    u.set_alive(1, 1);
    u.set_alive(1, 3);
    u.set_alive(3, 1);
    u.set_alive(3, 3);
    u.tick();
    assert_eq!(cell_at(&u, 2, 2), Cell::RecentlyDead);
}

#[test]
fn alive_cell_with_one_neighbor_becomes_recently_dead() {
    let mut u = Universe::new(5, 5);
    u.set_alive(2, 2);
    u.set_alive(1, 1);
    u.tick();
    assert_eq!(cell_at(&u, 2, 2), Cell::RecentlyDead);
}

#[test]
fn recently_dead_with_three_neighbors_resurrects() {
    let mut u = Universe::new(5, 5);
    u.toggle_cell(2, 2);
    u.toggle_cell(2, 2);
    u.set_alive(1, 1);
    u.set_alive(1, 3);
    u.set_alive(3, 1);
    u.tick();
    assert_eq!(cell_at(&u, 2, 2), Cell::Alive);
}

#[test]
fn recently_dead_with_other_counts_decays_to_dead() {
    let mut u = Universe::new(5, 5);
    u.toggle_cell(2, 2);
    u.toggle_cell(2, 2);
    u.set_alive(1, 1);
    u.set_alive(1, 3);
    u.tick();
    assert_eq!(cell_at(&u, 2, 2), Cell::Dead);

    let mut v = Universe::new(5, 5);
    v.toggle_cell(2, 2);
    v.toggle_cell(2, 2);
    v.tick();
    assert_eq!(cell_at(&v, 2, 2), Cell::Dead);
}

#[test]
fn dead_cell_with_three_neighbors_is_born() {
    let mut u = Universe::new(5, 5);
    u.set_alive(1, 1);
    u.set_alive(1, 3);
    u.set_alive(3, 1);
    u.tick();
    assert_eq!(cell_at(&u, 2, 2), Cell::Alive);
}

#[test]
fn randomize_follows_the_draws_and_never_yields_recently_dead() {
    let mut u = Universe::new(4, 3);
    // Leave a RecentlyDead cell behind first: randomize must clear it.
    u.toggle_cell(0, 0);
    u.toggle_cell(0, 0);
    let draws: Vec<bool> = (0..12).map(|i| i % 3 == 0).collect();
    u.randomize_cells(&draws);
    for (i, &d) in draws.iter().enumerate() {
        let expected = if d { Cell::Alive } else { Cell::Dead };
        assert_eq!(u.cells()[i], expected);
        assert_ne!(u.cells()[i], Cell::RecentlyDead);
    }
}

#[test]
fn render_draws_one_line_per_row() {
    let mut u = Universe::new(3, 2);
    u.set_alive(0, 1);
    u.toggle_cell(1, 2);
    u.toggle_cell(1, 2);
    // Any non-dead state renders as the filled glyph.
    assert_eq!(u.render(), "◻◼◻\n◻◻◼\n");
}

#[test]
fn colors_match_the_fixed_palette() {
    assert_eq!(Color::grid_color(), "#454545");
    assert_eq!(Color::alive_color(), "#32b9fc");
    assert_eq!(Color::dead_color(), "#FFFFFF");
    assert_eq!(Color::recently_dead_color(), "#96e0ff");
    assert_eq!(Cell::Dead.get_color(), "#FFFFFF");
    assert_eq!(Cell::Alive.get_color(), "#32b9fc");
    assert_eq!(Cell::RecentlyDead.get_color(), "#96e0ff");
}

#[test]
fn tick_reports_change_exactly_when_a_cell_changed() {
    let mut u = Universe::new(4, 4);
    u.set_alive(0, 0);
    // A lone live cell dies: the grid changes.
    assert!(u.tick());
    assert_eq!(cell_at(&u, 0, 0), Cell::RecentlyDead);
    // The tombstone decays: still a change.
    assert!(u.tick());
    // Now fully dead: a fixed point.
    assert!(!u.tick());
}
