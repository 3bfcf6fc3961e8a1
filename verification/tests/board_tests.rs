use pellet_grid::board::{Board, GameError};
use pellet_grid::cell::Cell;

#[test]
fn generate_checkerboard_lanes() {
    let b = Board::generate(5, 4).unwrap();
    assert_eq!(b.width, 5);
    assert_eq!(b.height, 4);
    for y in 0..4 {
        for x in 0..5 {
            if x % 2 == 0 {
                assert_eq!(b.get(x, y), Cell::Pellet);
            } else {
                assert_eq!(b.get(x, y), Cell::Empty);
            }
        }
    }
}

#[test]
fn generate_rejects_zero_width() {
    assert_eq!(Board::generate(0, 3).unwrap_err(), GameError::InvalidDimensions);
}

#[test]
fn generate_rejects_zero_height() {
    assert_eq!(Board::generate(3, 0).unwrap_err(), GameError::InvalidDimensions);
}

#[test]
fn set_and_get_roundtrip() {
    let mut b = Board::generate(4, 4).unwrap();
    b.set(1, 2, Cell::PowerUp);
    assert_eq!(b.get(1, 2), Cell::PowerUp);
    assert_eq!(b.get(0, 2), Cell::Pellet);
    b.place_at(2, 2, Cell::SpecialFruit);
    assert_eq!(b.get(2, 2), Cell::SpecialFruit);
}

#[test]
fn place_random_hits_only_even_pellet_lanes() {
    let mut b = Board::generate(8, 6).unwrap();
    b.place_random(Cell::PowerUp, 3, 12345);
    let mut n_power = 0;
    for y in 0..6 {
        for x in 0..8 {
            let c = b.get(x, y);
            if c == Cell::PowerUp {
                assert_eq!(x % 2, 0, "power-up off the pellet lanes");
                n_power += 1;
            } else if x % 2 == 0 {
                assert_eq!(c, Cell::Pellet);
            } else {
                assert_eq!(c, Cell::Empty);
            }
        }
    }
    assert!(n_power >= 1);
    assert!(n_power <= 3);
}

#[test]
fn place_random_no_eligible_is_noop() {
    // A board of only odd-column cells being empty but all even cells
    // overwritten: nothing is eligible once every even cell is a fruit.
    let mut b = Board::generate(2, 2).unwrap();
    b.set(0, 0, Cell::SpecialFruit);
    b.set(0, 1, Cell::SpecialFruit);
    b.place_random(Cell::PowerUp, 5, 7);
    assert_eq!(b.get(0, 0), Cell::SpecialFruit);
    assert_eq!(b.get(0, 1), Cell::SpecialFruit);
    assert_eq!(b.get(1, 0), Cell::Empty);
    assert_eq!(b.get(1, 1), Cell::Empty);
}

#[test]
fn empty_board_has_no_cells() {
    let b = Board::empty();
    assert_eq!(b.width, 0);
    assert_eq!(b.height, 0);
}

#[test]
fn generate_at_largest_dimension() {
    let b = Board::generate(65535, 1).unwrap();
    assert_eq!(b.width, 65535);
    assert_eq!(b.get(65534, 0), Cell::Pellet);
    assert_eq!(b.get(65533, 0), Cell::Empty);
}
