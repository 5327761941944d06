use game_of_life::{BitUniverse, Cell, GridError, Universe, greeting};

fn alive_count(u: &Universe) -> usize {
    u.get_cells().iter().filter(|c| **c == Cell::Alive).count()
}

#[test]
fn zero_dimensions_are_configuration_errors() {
    assert_eq!(Universe::new(0, 4).unwrap_err(), GridError::ConfigurationError);
    assert_eq!(Universe::new(4, 0).unwrap_err(), GridError::ConfigurationError);
    assert_eq!(Universe::new(0, 0).unwrap_err(), GridError::ConfigurationError);
    assert_eq!(BitUniverse::new(0, 7).unwrap_err(), GridError::ConfigurationError);
    assert_eq!(BitUniverse::new(7, 0).unwrap_err(), GridError::ConfigurationError);
    assert_eq!(Universe::new_single(0, 4, 0).unwrap_err(), GridError::ConfigurationError);
    assert_eq!(Universe::new_random(0, 4, &[]).unwrap_err(), GridError::ConfigurationError);
}

#[test]
fn single_seed_lights_exactly_one_cell() {
    let u = Universe::new_single(5, 5, 7).unwrap();
    assert_eq!(u.width(), 5);
    assert_eq!(u.height(), 5);
    for (i, c) in u.get_cells().iter().enumerate() {
        assert_eq!(*c == Cell::Alive, i == 7, "cell {}", i);
    }
}

#[test]
fn single_seed_out_of_range_lights_nothing() {
    let u = Universe::new_single(2, 2, 10).unwrap();
    assert_eq!(alive_count(&u), 0);
}

#[test]
fn random_fill_copies_the_flips() {
    let flips = [true, false, false, true, true, false];
    let u = Universe::new_random(3, 2, &flips).unwrap();
    for (i, c) in u.get_cells().iter().enumerate() {
        assert_eq!(*c == Cell::Alive, flips[i], "cell {}", i);
    }
}

#[test]
fn set_width_resets_every_cell() {
    let mut u = Universe::new(6, 6).unwrap();
    assert!(alive_count(&u) > 0);
    u.set_width(4).unwrap();
    assert_eq!(u.width(), 4);
    assert_eq!(u.height(), 6);
    assert_eq!(u.get_cells().len(), 24);
    assert_eq!(alive_count(&u), 0);
}

#[test]
fn set_height_resets_every_cell() {
    let mut u = Universe::new(6, 6).unwrap();
    u.set_cells(&[(2, 3)]).unwrap();
    u.set_height(3).unwrap();
    assert_eq!(u.width(), 6);
    assert_eq!(u.height(), 3);
    assert_eq!(u.get_cells().len(), 18);
    assert_eq!(alive_count(&u), 0);
}

#[test]
fn zero_resize_is_rejected_and_leaves_the_grid() {
    let mut u = Universe::new(3, 3).unwrap();
    let before: Vec<Cell> = u.get_cells().to_vec();
    assert_eq!(u.set_width(0).unwrap_err(), GridError::ConfigurationError);
    assert_eq!(u.set_height(0).unwrap_err(), GridError::ConfigurationError);
    assert_eq!(u.width(), 3);
    assert_eq!(u.height(), 3);
    assert_eq!(u.get_cells(), &before[..]);
}

#[test]
fn out_of_bounds_edits_are_index_errors() {
    let mut u = Universe::new(3, 3).unwrap();
    let before: Vec<Cell> = u.get_cells().to_vec();
    assert_eq!(u.set_cells(&[(1, 1), (3, 0)]).unwrap_err(), GridError::IndexError);
    assert_eq!(u.set_cells(&[(0, 3)]).unwrap_err(), GridError::IndexError);
    assert_eq!(u.toggle_cell(3, 0).unwrap_err(), GridError::IndexError);
    assert_eq!(u.toggle_cell(0, 3).unwrap_err(), GridError::IndexError);
    assert_eq!(u.get_cells(), &before[..]);
}

#[test]
fn set_cells_marks_exactly_the_listed_cells() {
    let mut u = Universe::new_single(4, 4, 100).unwrap();
    u.set_cells(&[(0, 1), (2, 3), (0, 1)]).unwrap();
    for row in 0..4u32 {
        for col in 0..4u32 {
            let idx = (row * 4 + col) as usize;
            let expected = (row, col) == (0, 1) || (row, col) == (2, 3);
            assert_eq!(u.get_cells()[idx] == Cell::Alive, expected, "at ({}, {})", row, col);
        }
    }
}

#[test]
fn toggle_is_self_inverse_on_the_wide_grid() {
    let mut u = Universe::new(5, 4).unwrap();
    let before: Vec<Cell> = u.get_cells().to_vec();
    u.toggle_cell(2, 3).unwrap();
    assert_ne!(u.get_cells(), &before[..]);
    u.toggle_cell(2, 3).unwrap();
    assert_eq!(u.get_cells(), &before[..]);
}

#[test]
fn toggle_is_self_inverse_on_the_packed_grid() {
    let mut b = BitUniverse::new(5, 4).unwrap();
    let before: Vec<u32> = b.cells().to_vec();
    b.toggle_cell(2, 3);
    assert_ne!(b.cells(), &before[..]);
    b.toggle_cell(2, 3);
    assert_eq!(b.cells(), &before[..]);
}

#[test]
fn render_draws_rows_of_glyphs() {
    let u = Universe::new_random(2, 2, &[true, false, false, true]).unwrap();
    assert_eq!(u.render(), "◼◻\n◻◼\n");
}

#[test]
fn render_of_dead_grid_is_blank() {
    let mut u = Universe::new(3, 2).unwrap();
    u.set_width(3).unwrap();
    assert_eq!(u.render(), "◻◻◻\n◻◻◻\n");
}

#[test]
fn greeting_wraps_the_name() {
    assert_eq!(greeting("world"), "Hello, world!");
    assert_eq!(greeting(""), "Hello, !");
}
