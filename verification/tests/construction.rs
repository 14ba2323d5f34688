use game_of_life::{ConfigError, Universe};

#[test]
fn seed_fixture_eight_by_eight() {
    let universe = Universe::new(8, 8).unwrap();
    assert_eq!(universe.width(), 8);
    assert_eq!(universe.height(), 8);
    let cells = universe.cells();
    assert_eq!(cells.len(), 64);
    for i in 0..64usize {
        assert_eq!(cells[i], i % 2 == 0 || i % 7 == 0, "cell {}", i);
    }
}

#[test]
fn seed_first_row_is_spelled_out() {
    let universe = Universe::new(16, 1).unwrap();
    let expected = [
        true, false, true, false, true, false, true, true, true, false, true, false, true, false,
        true, false,
    ];
    assert_eq!(universe.cells(), &expected[..]);
}

#[test]
fn seed_runs_across_rows() {
    // Position 7 is the last cell of row 0 on a grid of width 8, position 21
    // is (2, 5), position 35 is (4, 3): all odd multiples of 7, hence alive.
    let universe = Universe::new(8, 8).unwrap();
    let cells = universe.cells();
    assert!(cells[universe.get_index(0, 7)]);
    assert!(cells[universe.get_index(2, 5)]);
    assert!(cells[universe.get_index(4, 3)]);
    assert!(!cells[universe.get_index(0, 1)]);
    assert!(!cells[universe.get_index(1, 1)]);
}

#[test]
fn rectangular_universe_keeps_its_dimensions() {
    let universe = Universe::new(3, 5).unwrap();
    assert_eq!(universe.width(), 3);
    assert_eq!(universe.height(), 5);
    assert_eq!(universe.cells().len(), 15);
}

#[test]
fn zero_width_is_rejected() {
    assert_eq!(Universe::new(0, 4).err(), Some(ConfigError::ZeroWidth));
}

#[test]
fn zero_height_is_rejected() {
    assert_eq!(Universe::new(4, 0).err(), Some(ConfigError::ZeroHeight));
}

#[test]
fn zero_width_is_reported_before_zero_height() {
    assert_eq!(Universe::new(0, 0).err(), Some(ConfigError::ZeroWidth));
}

#[test]
fn smallest_universe_is_accepted() {
    let universe = Universe::new(1, 1).unwrap();
    assert_eq!(universe.cells(), &[true][..]);
}

#[test]
fn default_universe_is_128_square_and_seeded() {
    let universe = Universe::default();
    assert_eq!(universe.width(), 128);
    assert_eq!(universe.height(), 128);
    let cells = universe.cells();
    assert_eq!(cells.len(), 128 * 128);
    for i in 0..cells.len() {
        assert_eq!(cells[i], i % 2 == 0 || i % 7 == 0, "cell {}", i);
    }
}

#[test]
fn index_is_row_major() {
    let universe = Universe::new(5, 4).unwrap();
    assert_eq!(universe.get_index(0, 0), 0);
    assert_eq!(universe.get_index(0, 4), 4);
    assert_eq!(universe.get_index(1, 0), 5);
    assert_eq!(universe.get_index(2, 3), 13);
    assert_eq!(universe.get_index(3, 4), 19);
}

#[test]
fn index_does_not_wrap_at_sixteen_bits() {
    // 300 * 300 + 299 exceeds what sixteen bits hold.
    let universe = Universe::new(300, 301).unwrap();
    assert_eq!(universe.get_index(300, 299), 90_299);
    assert_eq!(universe.cells().len(), 90_300);
}

#[test]
fn same_dimensions_give_identical_universes() {
    let mut a = Universe::new(16, 12).unwrap();
    let mut b = Universe::new(16, 12).unwrap();
    assert_eq!(a.cells(), b.cells());
    for _ in 0..10 {
        a.tick();
        b.tick();
        assert_eq!(a.cells(), b.cells());
    }
}

#[test]
fn evolution_does_not_depend_on_which_buffer_is_current() {
    // After one tick the buffers of `a` have exchanged roles; `b` is brought
    // to the same generation cell by cell without ticking.
    let mut a = Universe::new(9, 7).unwrap();
    a.tick();
    let mut b = Universe::new(9, 7).unwrap();
    for row in 0..7u16 {
        for col in 0..9u16 {
            let alive = a.cells()[a.get_index(row, col)];
            b.set_cell(row, col, alive);
        }
    }
    assert_eq!(a.cells(), b.cells());
    for _ in 0..6 {
        a.tick();
        b.tick();
        assert_eq!(a.cells(), b.cells());
    }
}
