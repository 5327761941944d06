use game_of_life::{BitUniverse, Cell, Universe};

fn wide_alive(u: &Universe, row: u32, col: u32) -> bool {
    let idx = (row * u.width() + col) as usize;
    u.get_cells()[idx] == Cell::Alive
}

fn packed_alive(words: &[u32], idx: usize) -> bool {
    (words[idx / 32] >> (idx % 32)) & 1 == 1
}

fn wide_pattern(u: &Universe) -> Vec<bool> {
    u.get_cells().iter().map(|c| *c == Cell::Alive).collect()
}

fn packed_pattern(b: &BitUniverse) -> Vec<bool> {
    let n = (b.width() * b.height()) as usize;
    let words = b.cells();
    (0..n).map(|i| packed_alive(words, i)).collect()
}

#[test]
fn stripe_pattern_exact_values() {
    let u = Universe::new(8, 8).unwrap();
    let cells = u.get_cells();
    assert_eq!(cells.len(), 64);
    for i in 0..64usize {
        let expected = i % 2 == 0 || i % 7 == 0;
        assert_eq!(cells[i] == Cell::Alive, expected, "cell {}", i);
    }
}

#[test]
fn packed_stripe_matches_wide_stripe() {
    let u = Universe::new(8, 4).unwrap();
    let b = BitUniverse::new(8, 4).unwrap();
    assert_eq!(wide_pattern(&u), packed_pattern(&b));
}

#[test]
fn packed_words_hold_stripe_bits() {
    let b = BitUniverse::new(8, 4).unwrap();
    let words = b.cells();
    assert_eq!(words.len(), 1);
    for i in 0..32usize {
        let expected = i % 2 == 0 || i % 7 == 0;
        assert_eq!((words[0] >> i) & 1 == 1, expected, "bit {}", i);
    }
}

#[test]
fn tick_is_deterministic() {
    let mut a = Universe::new(9, 9).unwrap();
    let mut b = Universe::new(9, 9).unwrap();
    for _ in 0..4 {
        a.tick();
        b.tick();
        assert_eq!(wide_pattern(&a), wide_pattern(&b));
    }
}

#[test]
fn wide_and_packed_engines_agree() {
    let mut u = Universe::new(10, 10).unwrap();
    let mut b = BitUniverse::new(10, 10).unwrap();
    assert_eq!(wide_pattern(&u), packed_pattern(&b));
    for _ in 0..6 {
        u.tick();
        b.tick();
        assert_eq!(wide_pattern(&u), packed_pattern(&b));
    }
}

#[test]
fn blinker_rotates_and_returns() {
    let mut u = Universe::new_single(9, 9, 100).unwrap();
    // index 100 is outside the 81-cell grid, so every cell starts dead
    assert!(wide_pattern(&u).iter().all(|a| !a));
    u.set_cells(&[(0, 0), (0, 1), (0, 2)]).unwrap();
    u.tick();
    for row in 0..9 {
        for col in 0..9 {
            let expected = col == 1 && (row == 0 || row == 1 || row == 8);
            assert_eq!(wide_alive(&u, row, col), expected, "at ({}, {})", row, col);
        }
    }
    u.tick();
    for row in 0..9 {
        for col in 0..9 {
            let expected = row == 0 && col <= 2;
            assert_eq!(wide_alive(&u, row, col), expected, "at ({}, {})", row, col);
        }
    }
}

#[test]
fn lone_cell_dies() {
    let mut u = Universe::new_single(5, 5, 12).unwrap();
    assert!(wide_alive(&u, 2, 2));
    u.tick();
    assert!(wide_pattern(&u).iter().all(|a| !a));
}

#[test]
fn block_is_a_still_life() {
    let mut u = Universe::new_single(4, 4, 100).unwrap();
    u.set_cells(&[(1, 1), (1, 2), (2, 1), (2, 2)]).unwrap();
    let before = wide_pattern(&u);
    for _ in 0..5 {
        u.tick();
        assert_eq!(wide_pattern(&u), before);
    }
}

#[test]
fn corners_wrap_into_a_block() {
    let mut u = Universe::new_single(4, 4, 100).unwrap();
    u.set_cells(&[(0, 0), (0, 3), (3, 0)]).unwrap();
    u.tick();
    // (3, 3) sees the three live corners through the wrapped edges and is
    // born; the corners each see two wrapped neighbors and survive.
    for row in 0..4 {
        for col in 0..4 {
            let expected = (row == 0 || row == 3) && (col == 0 || col == 3);
            assert_eq!(wide_alive(&u, row, col), expected, "at ({}, {})", row, col);
        }
    }
    // the four corners are a 2x2 block on the torus: a still life
    let before = wide_pattern(&u);
    u.tick();
    assert_eq!(wide_pattern(&u), before);
}

#[test]
fn packed_corners_wrap_into_a_block() {
    let mut b = BitUniverse::new(4, 4).unwrap();
    let stripe: Vec<usize> = (0..16).filter(|i| i % 2 == 0 || i % 7 == 0).collect();
    for i in stripe {
        b.toggle_cell((i / 4) as u32, (i % 4) as u32);
    }
    assert!(packed_pattern(&b).iter().all(|a| !a));
    b.toggle_cell(0, 0);
    b.toggle_cell(0, 3);
    b.toggle_cell(3, 0);
    b.tick();
    let pattern = packed_pattern(&b);
    for row in 0..4usize {
        for col in 0..4usize {
            let expected = (row == 0 || row == 3) && (col == 0 || col == 3);
            assert_eq!(pattern[row * 4 + col], expected, "at ({}, {})", row, col);
        }
    }
}
