use game_of_life::{ConfigError, Universe};

fn blank(width: u16, height: u16) -> Universe {
    let mut universe = Universe::new(width, height).unwrap();
    universe.set_width(width).unwrap();
    universe
}

fn alive_cells(universe: &Universe) -> Vec<(u16, u16)> {
    let mut alive = Vec::new();
    for row in 0..universe.height() {
        for col in 0..universe.width() {
            if universe.cells()[universe.get_index(row, col)] {
                alive.push((row, col));
            }
        }
    }
    alive
}

#[test]
fn set_cell_changes_one_cell() {
    let mut universe = blank(6, 5);
    universe.set_cell(2, 3, true);
    assert_eq!(alive_cells(&universe), vec![(2, 3)]);
    assert!(universe.cells()[2 * 6 + 3]);
    universe.set_cell(2, 3, false);
    assert!(alive_cells(&universe).is_empty());
}

#[test]
fn set_cell_leaves_the_rest_of_the_seed() {
    let mut universe = Universe::new(8, 8).unwrap();
    universe.set_cell(0, 1, true);
    universe.set_cell(0, 2, false);
    let cells = universe.cells();
    for i in 0..64usize {
        let expected = match i {
            1 => true,
            2 => false,
            _ => i % 2 == 0 || i % 7 == 0,
        };
        assert_eq!(cells[i], expected, "cell {}", i);
    }
}

#[test]
fn set_cell_is_seen_by_the_next_tick() {
    let mut universe = blank(5, 5);
    universe.set_cells(&[(2, 1), (2, 2)]);
    universe.set_cell(2, 3, true);
    assert_eq!(universe.live_neighbor_count(1, 2), 3);
    universe.tick();
    assert_eq!(alive_cells(&universe), vec![(1, 2), (2, 2), (3, 2)]);
}

#[test]
fn set_cell_after_a_tick_writes_the_current_generation() {
    let mut universe = blank(5, 5);
    universe.tick();
    universe.set_cell(4, 4, true);
    assert_eq!(alive_cells(&universe), vec![(4, 4)]);
    universe.tick();
    universe.set_cell(0, 0, true);
    assert_eq!(alive_cells(&universe), vec![(0, 0)]);
}

#[test]
fn set_cells_sets_exactly_the_listed_cells() {
    let mut universe = blank(6, 5);
    universe.set_cells(&[(1, 2), (3, 4)]);
    assert_eq!(alive_cells(&universe), vec![(1, 2), (3, 4)]);
    let cells = universe.cells();
    for i in 0..30usize {
        assert_eq!(cells[i], i == 1 * 6 + 2 || i == 3 * 6 + 4, "cell {}", i);
    }
}

#[test]
fn set_cells_leaves_unlisted_cells_at_their_prior_value() {
    let mut universe = Universe::new(6, 5).unwrap();
    let before: Vec<bool> = universe.cells().to_vec();
    // Position 9 is (1, 3) and position 23 is (3, 5); both start dead.
    assert!(!before[9]);
    assert!(!before[23]);
    universe.set_cells(&[(1, 3), (3, 5)]);
    let cells = universe.cells();
    for i in 0..30usize {
        assert_eq!(cells[i], before[i] || i == 9 || i == 23, "cell {}", i);
    }
}

#[test]
fn set_cells_never_kills() {
    let mut universe = Universe::new(4, 4).unwrap();
    // (0, 0) is alive in the seed and stays alive when listed.
    universe.set_cells(&[(0, 0)]);
    let cells = universe.cells();
    for i in 0..16usize {
        assert_eq!(cells[i], i % 2 == 0 || i % 7 == 0, "cell {}", i);
    }
}

#[test]
fn set_cells_accepts_repeats_and_the_empty_list() {
    let mut universe = blank(4, 4);
    universe.set_cells(&[]);
    assert!(alive_cells(&universe).is_empty());
    universe.set_cells(&[(3, 3), (0, 1), (3, 3)]);
    assert_eq!(alive_cells(&universe), vec![(0, 1), (3, 3)]);
}

#[test]
fn set_width_resets_every_cell() {
    let mut universe = Universe::new(8, 8).unwrap();
    universe.tick();
    assert_eq!(universe.set_width(5), Ok(()));
    assert_eq!(universe.width(), 5);
    assert_eq!(universe.height(), 8);
    assert_eq!(universe.cells(), &[false; 40][..]);
}

#[test]
fn set_height_resets_every_cell() {
    let mut universe = Universe::new(8, 8).unwrap();
    assert_eq!(universe.set_height(11), Ok(()));
    assert_eq!(universe.width(), 8);
    assert_eq!(universe.height(), 11);
    assert_eq!(universe.cells(), &[false; 88][..]);
}

#[test]
fn resize_to_the_same_dimension_still_resets() {
    let mut universe = Universe::new(8, 8).unwrap();
    universe.set_cells(&[(1, 1), (2, 2)]);
    assert_eq!(universe.set_height(8), Ok(()));
    assert_eq!(universe.cells(), &[false; 64][..]);
    universe.set_cell(7, 7, true);
    assert_eq!(universe.set_width(8), Ok(()));
    assert_eq!(universe.cells(), &[false; 64][..]);
}

#[test]
fn resized_universe_stays_dead_and_usable() {
    let mut universe = Universe::new(8, 8).unwrap();
    universe.set_width(3).unwrap();
    universe.set_height(4).unwrap();
    universe.tick();
    assert_eq!(universe.cells(), &[false; 12][..]);
    universe.set_cell(3, 2, true);
    assert_eq!(universe.get_index(3, 2), 11);
    assert_eq!(alive_cells(&universe), vec![(3, 2)]);
}

#[test]
fn set_width_rejects_zero_and_changes_nothing() {
    let mut universe = Universe::new(8, 8).unwrap();
    let before: Vec<bool> = universe.cells().to_vec();
    assert_eq!(universe.set_width(0), Err(ConfigError::ZeroWidth));
    assert_eq!(universe.width(), 8);
    assert_eq!(universe.height(), 8);
    assert_eq!(universe.cells(), &before[..]);
}

#[test]
fn set_height_rejects_zero_and_changes_nothing() {
    let mut universe = Universe::new(8, 8).unwrap();
    universe.tick();
    let before: Vec<bool> = universe.cells().to_vec();
    assert_eq!(universe.set_height(0), Err(ConfigError::ZeroHeight));
    assert_eq!(universe.width(), 8);
    assert_eq!(universe.height(), 8);
    assert_eq!(universe.cells(), &before[..]);
}
