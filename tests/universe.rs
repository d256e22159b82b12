use wasm_game_of_life::{Cell, Universe};

fn alive_at(u: &Universe, row: u32, col: u32) -> bool {
    u.cells()[(row * u.width() + col) as usize] == Cell::Alive
}

fn alive_positions(u: &Universe) -> Vec<(u32, u32)> {
    let mut out = Vec::new();
    for r in 0..u.height() {
        for c in 0..u.width() {
            if alive_at(u, r, c) {
                out.push((r, c));
            }
        }
    }
    out
}

#[test]
fn new_has_seed_pattern() {
    let u = Universe::new();
    assert_eq!(u.width(), 64);
    assert_eq!(u.height(), 64);
    let cells = u.cells();
    assert_eq!(cells.len(), 64 * 64);
    assert_eq!(cells[0], Cell::Alive);
    assert_eq!(cells[1], Cell::Dead);
    assert_eq!(cells[7], Cell::Alive);
    assert_eq!(cells[9], Cell::Dead);
    for (i, c) in cells.iter().enumerate() {
        let expected = if i % 2 == 0 || i % 7 == 0 { Cell::Alive } else { Cell::Dead };
        assert_eq!(*c, expected, "index {}", i);
    }
}

#[test]
fn with_size_is_all_dead() {
    let u = Universe::with_size(5, 3);
    assert_eq!(u.width(), 5);
    assert_eq!(u.height(), 3);
    assert_eq!(u.cells().len(), 15);
    assert!(u.cells().iter().all(|c| *c == Cell::Dead));
}

#[test]
fn steps_keep_length() {
    let mut u = Universe::new();
    let n = (u.width() * u.height()) as usize;
    for k in 0..10u32 {
        u.tick();
        assert_eq!(u.cells().len(), n);
        u.toggle(k, 2 * k + 1);
        assert_eq!(u.cells().len(), n);
        if k % 4 == 3 {
            u.clear();
            assert_eq!(u.cells().len(), n);
        }
    }
    assert_eq!(u.width(), 64);
    assert_eq!(u.height(), 64);
}

#[test]
fn neighbor_count_wraps_around_corner() {
    let mut u = Universe::with_size(3, 3);
    u.toggle(0, 0);
    assert_eq!(u.live_neighbor_count(2, 2), 1);
    assert_eq!(u.live_neighbor_count(0, 0), 0);
    assert_eq!(u.live_neighbor_count(1, 1), 1);
}

#[test]
fn neighbor_count_full_grid() {
    let mut u = Universe::with_size(4, 4);
    for r in 0..4 {
        for c in 0..4 {
            u.toggle(r, c);
        }
    }
    assert_eq!(u.live_neighbor_count(0, 0), 8);
    assert_eq!(u.live_neighbor_count(3, 2), 8);
}

#[test]
fn neighbor_count_one_wide_counts_wrapped_self() {
    // In a single column the column offsets are 0, 0 and 1: on the cell's own row the
    // two zero offsets are skipped and the offset 1 wraps onto the cell itself, while
    // on a neighbouring row all three land on the same cell.
    let mut u = Universe::with_size(1, 4);
    u.toggle(1, 0);
    assert_eq!(u.live_neighbor_count(1, 0), 1);
    assert_eq!(u.live_neighbor_count(0, 0), 3);
    assert_eq!(u.live_neighbor_count(3, 0), 0);
}

#[test]
fn block_is_still_life() {
    let mut u = Universe::with_size(8, 8);
    for (r, c) in [(3, 3), (3, 4), (4, 3), (4, 4)] {
        u.toggle(r, c);
    }
    let before = alive_positions(&u);
    for _ in 0..6 {
        u.tick();
        assert_eq!(alive_positions(&u), before);
    }
}

#[test]
fn block_on_the_edge_is_still_life() {
    let mut u = Universe::with_size(6, 5);
    for (r, c) in [(4, 5), (4, 0), (0, 5), (0, 0)] {
        u.toggle(r, c);
    }
    let before = alive_positions(&u);
    u.tick();
    assert_eq!(alive_positions(&u), before);
    u.tick();
    assert_eq!(alive_positions(&u), before);
}

#[test]
fn blinker_oscillates() {
    let mut u = Universe::with_size(5, 5);
    for (r, c) in [(2, 1), (2, 2), (2, 3)] {
        u.toggle(r, c);
    }
    let horizontal = alive_positions(&u);
    u.tick();
    assert_eq!(alive_positions(&u), vec![(1, 2), (2, 2), (3, 2)]);
    u.tick();
    assert_eq!(alive_positions(&u), horizontal);
}

#[test]
fn blinker_across_the_edge() {
    let mut u = Universe::with_size(7, 6);
    for (r, c) in [(0, 6), (0, 0), (0, 1)] {
        u.toggle(r, c);
    }
    let horizontal = alive_positions(&u);
    u.tick();
    assert_eq!(alive_positions(&u), vec![(0, 0), (1, 0), (5, 0)]);
    u.tick();
    assert_eq!(alive_positions(&u), horizontal);
}

#[test]
fn toggle_twice_restores() {
    let mut u = Universe::new();
    let before = u.cells().to_vec();
    u.toggle(5, 9);
    let once = u.cells().to_vec();
    assert_ne!(once, before);
    let idx = 5 * 64 + 9;
    for i in 0..before.len() {
        if i != idx {
            assert_eq!(once[i], before[i]);
        }
    }
    u.toggle(5, 9);
    assert_eq!(u.cells().to_vec(), before);
}

#[test]
fn toggle_flips_one_cell() {
    let mut u = Universe::with_size(3, 2);
    u.toggle(1, 2);
    assert_eq!(alive_positions(&u), vec![(1, 2)]);
    u.toggle(0, 0);
    assert_eq!(alive_positions(&u), vec![(0, 0), (1, 2)]);
}

#[test]
fn clear_renders_only_dead_glyphs() {
    let mut u = Universe::new();
    u.clear();
    assert!(u.cells().iter().all(|c| *c == Cell::Dead));
    let text = u.render();
    let lines: Vec<&str> = text.lines().collect();
    assert_eq!(lines.len(), 64);
    for line in lines {
        assert_eq!(line.chars().count(), 64);
        assert!(line.chars().all(|ch| ch == '\u{25fb}'));
    }
    assert!(text.ends_with('\n'));
}

#[test]
fn render_small_grid() {
    let mut u = Universe::with_size(3, 2);
    u.toggle(0, 1);
    u.toggle(1, 0);
    assert_eq!(u.render(), "\u{25fb}\u{25fc}\u{25fb}\n\u{25fc}\u{25fb}\u{25fb}\n");
}

#[test]
fn tick_rules() {
    // A lone cell dies of underpopulation.
    let mut u = Universe::with_size(6, 6);
    u.toggle(2, 2);
    u.tick();
    assert!(alive_positions(&u).is_empty());

    // Three cells in an L give birth to a fourth, forming a block.
    let mut u = Universe::with_size(6, 6);
    for (r, c) in [(1, 1), (1, 2), (2, 1)] {
        u.toggle(r, c);
    }
    u.tick();
    assert_eq!(alive_positions(&u), vec![(1, 1), (1, 2), (2, 1), (2, 2)]);

    // The centre of a plus sign has four neighbours and dies of overpopulation.
    let mut u = Universe::with_size(7, 7);
    for (r, c) in [(3, 3), (2, 3), (4, 3), (3, 2), (3, 4)] {
        u.toggle(r, c);
    }
    u.tick();
    assert!(!alive_at(&u, 3, 3));
    assert!(alive_at(&u, 2, 3));
}

#[test]
fn cell_next_state_table() {
    for n in 0..=8u8 {
        let alive = Cell::Alive.next(n);
        let dead = Cell::Dead.next(n);
        assert_eq!(alive, if n == 2 || n == 3 { Cell::Alive } else { Cell::Dead });
        assert_eq!(dead, if n == 3 { Cell::Alive } else { Cell::Dead });
    }
}

#[test]
fn cell_count_and_flip() {
    assert_eq!(Cell::Dead.as_count(), 0);
    assert_eq!(Cell::Alive.as_count(), 1);
    assert_eq!(Cell::Dead.flip(), Cell::Alive);
    assert_eq!(Cell::Alive.flip(), Cell::Dead);
}
