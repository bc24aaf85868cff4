use life_grid::cell::Cell;
use life_grid::universe::Universe;

fn dead_grid_8x8() -> Universe {
    Universe::new(8, 8, vec![false; 64])
}

fn alive_set(u: &Universe) -> Vec<(u32, u32)> {
    let mut out = Vec::new();
    for r in 0..u.height() {
        for c in 0..u.width() {
            if u.cells()[u.get_index(r, c)] == Cell::Alive {
                out.push((r, c));
            }
        }
    }
    out
}

#[test]
fn dimensions_are_clamped_to_multiples_of_8() {
    let u = Universe::new(10, 12, vec![false; 64]);
    assert_eq!(u.width(), 8);
    assert_eq!(u.height(), 8);
    assert_eq!(u.width() % 8, 0);
    assert_eq!(u.height() % 8, 0);

    let v = Universe::new(16, 8, vec![true; 128]);
    assert_eq!(v.width(), 16);
    assert_eq!(v.height(), 8);

    let w = Universe::new(9, 8, vec![false; 64]);
    assert_eq!(w.width(), 8);
    assert_eq!(w.height(), 8);
}

#[test]
fn empty_grid_is_legal() {
    let u = Universe::new(0, 0, Vec::new());
    assert_eq!(u.width(), 0);
    assert_eq!(u.height(), 0);
    assert_eq!(u.cells().len(), 0);
    assert_eq!(u.render(), "");
}

#[test]
fn seed_determines_initial_cells() {
    let mut seed = vec![false; 64];
    seed[0] = true;
    seed[13] = true;
    seed[63] = true;
    let u = Universe::new(8, 8, seed.clone());
    assert_eq!(u.cells().len(), 64);
    for i in 0..64 {
        let expected = if seed[i] { Cell::Alive } else { Cell::Dead };
        assert_eq!(u.cells()[i], expected);
    }
}

#[test]
fn tick_is_deterministic() {
    let seed: Vec<bool> = (0..64).map(|i| (i * 37) % 5 < 2).collect();
    let mut a = Universe::new(8, 8, seed.clone());
    let mut b = Universe::new(8, 8, seed);
    a.tick();
    b.tick();
    assert_eq!(a.cells(), b.cells());
    a.tick();
    b.tick();
    assert_eq!(a.cells(), b.cells());
}

#[test]
fn neighbor_count_wraps_toroidally() {
    let mut u = dead_grid_8x8();
    u.toggle_cell(0, 0);
    assert_eq!(u.live_neighbor_count(7, 7), 1);
    assert_eq!(u.live_neighbor_count(0, 1), 1);
    assert_eq!(u.live_neighbor_count(1, 1), 1);
    assert_eq!(u.live_neighbor_count(7, 0), 1);
    assert_eq!(u.live_neighbor_count(0, 7), 1);
    assert_eq!(u.live_neighbor_count(4, 4), 0);
    assert_eq!(u.live_neighbor_count(0, 0), 0);
}

#[test]
fn dead_cell_with_three_neighbors_is_born() {
    let mut u = dead_grid_8x8();
    u.toggle_cell(3, 3);
    u.toggle_cell(3, 4);
    u.toggle_cell(3, 5);
    assert_eq!(u.live_neighbor_count(4, 4), 3);
    u.tick();
    assert_eq!(u.cells()[u.get_index(4, 4)], Cell::Alive);
}

#[test]
fn dead_cell_with_two_neighbors_stays_dead() {
    let mut u = dead_grid_8x8();
    u.toggle_cell(3, 3);
    u.toggle_cell(3, 5);
    assert_eq!(u.live_neighbor_count(4, 4), 2);
    u.tick();
    assert_eq!(u.cells()[u.get_index(4, 4)], Cell::Dead);
}

#[test]
fn dead_cell_with_four_neighbors_stays_dead() {
    let mut u = dead_grid_8x8();
    u.toggle_cell(3, 3);
    u.toggle_cell(3, 4);
    u.toggle_cell(3, 5);
    u.toggle_cell(4, 3);
    assert_eq!(u.live_neighbor_count(4, 4), 4);
    u.tick();
    assert_eq!(u.cells()[u.get_index(4, 4)], Cell::Dead);
}

#[test]
fn live_cell_with_one_neighbor_dies() {
    let mut u = dead_grid_8x8();
    u.toggle_cell(4, 4);
    u.toggle_cell(3, 4);
    assert_eq!(u.live_neighbor_count(4, 4), 1);
    u.tick();
    assert_eq!(u.cells()[u.get_index(4, 4)], Cell::Dead);
}

#[test]
fn live_cell_with_three_neighbors_survives() {
    let mut u = dead_grid_8x8();
    u.toggle_cell(4, 4);
    u.toggle_cell(3, 3);
    u.toggle_cell(3, 4);
    u.toggle_cell(3, 5);
    assert_eq!(u.live_neighbor_count(4, 4), 3);
    u.tick();
    assert_eq!(u.cells()[u.get_index(4, 4)], Cell::Alive);
}

#[test]
fn live_cell_with_two_neighbors_survives() {
    let mut u = dead_grid_8x8();
    u.toggle_cell(4, 4);
    u.toggle_cell(3, 3);
    u.toggle_cell(5, 5);
    assert_eq!(u.live_neighbor_count(4, 4), 2);
    u.tick();
    assert_eq!(u.cells()[u.get_index(4, 4)], Cell::Alive);
}

#[test]
fn live_cell_with_five_neighbors_dies() {
    let mut u = dead_grid_8x8();
    u.toggle_cell(4, 4);
    u.toggle_cell(3, 3);
    u.toggle_cell(3, 4);
    u.toggle_cell(3, 5);
    u.toggle_cell(4, 3);
    u.toggle_cell(4, 5);
    assert_eq!(u.live_neighbor_count(4, 4), 5);
    u.tick();
    assert_eq!(u.cells()[u.get_index(4, 4)], Cell::Dead);
}

#[test]
fn toggle_flips_exactly_one_cell() {
    let seed: Vec<bool> = (0..64).map(|i| i % 3 == 0).collect();
    let mut u = Universe::new(8, 8, seed);
    let before: Vec<Cell> = u.cells().clone();
    let target = u.get_index(2, 5);
    u.toggle_cell(2, 5);
    let after: Vec<Cell> = u.cells().clone();
    for i in 0..64 {
        if i == target {
            assert_ne!(after[i], before[i]);
        } else {
            assert_eq!(after[i], before[i]);
        }
    }
    u.toggle_cell(2, 5);
    assert_eq!(u.cells(), &before);
}

#[test]
fn render_has_height_lines_of_width_glyphs() {
    let seed: Vec<bool> = (0..128).map(|i| i % 7 < 3).collect();
    let u = Universe::new(16, 8, seed);
    let text = u.render();
    assert!(text.ends_with('\n'));
    let lines: Vec<&str> = text.lines().collect();
    assert_eq!(lines.len(), 8);
    for line in lines {
        assert_eq!(line.chars().count(), 2 * 16);
        assert_eq!(line.matches('\u{fe0f}').count(), 16);
        assert!(!line.contains('\n'));
    }
}

#[test]
fn render_shows_exact_glyphs() {
    let mut u = dead_grid_8x8();
    u.toggle_cell(0, 0);
    let text = u.render();
    let dead = "\u{25fc}\u{fe0f}";
    let alive = "\u{25fb}\u{fe0f}";
    let mut expected = String::new();
    expected.push_str(alive);
    expected.push_str(&dead.repeat(7));
    expected.push('\n');
    for _ in 1..8 {
        expected.push_str(&dead.repeat(8));
        expected.push('\n');
    }
    assert_eq!(text, expected);
}

#[test]
fn glider_steps_to_expected_set() {
    let mut u = dead_grid_8x8();
    u.toggle_cell(1, 2);
    u.toggle_cell(2, 3);
    u.toggle_cell(3, 1);
    u.toggle_cell(3, 2);
    u.toggle_cell(3, 3);
    u.tick();
    let expected: Vec<(u32, u32)> = vec![(2, 1), (2, 3), (3, 2), (3, 3), (4, 2)];
    assert_eq!(alive_set(&u), expected);
}

#[test]
fn cell_toggle_is_an_involution() {
    let mut c = Cell::Dead;
    c.toggle();
    assert_eq!(c, Cell::Alive);
    c.toggle();
    assert_eq!(c, Cell::Dead);
}
