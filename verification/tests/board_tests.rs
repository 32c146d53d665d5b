use amazons::board::{Board, BoardError, Coordinate, Player, SquareState};

fn at(x: u32, y: u32) -> Coordinate {
    Coordinate { x, y }
}

#[test]
fn new_board_is_empty() {
    let board = Board::new(4, 3);
    assert_eq!(board.width(), 4);
    assert_eq!(board.height(), 3);
    for x in 0..4 {
        for y in 0..3 {
            assert_eq!(board.state_at(at(x, y)), Ok(SquareState::Empty));
        }
    }
}

#[test]
fn every_square_has_exactly_one_state() {
    let mut board = Board::new(3, 3);
    board.set_state(at(0, 0), SquareState::OwnedBy(Player::White)).unwrap();
    board.set_state(at(1, 0), SquareState::OwnedBy(Player::Black)).unwrap();
    board.set_state(at(2, 0), SquareState::Arrow).unwrap();
    let mut seen = 0;
    for x in 0..3 {
        for y in 0..3 {
            let state = board.state_at(at(x, y)).unwrap();
            let kinds = [
                state == SquareState::Empty,
                state == SquareState::OwnedBy(Player::White),
                state == SquareState::OwnedBy(Player::Black),
                state == SquareState::Arrow,
            ];
            assert_eq!(kinds.iter().filter(|k| **k).count(), 1);
            seen += 1;
        }
    }
    assert_eq!(seen, 9);
}

#[test]
fn state_at_rejects_coordinates_off_the_board() {
    let board = Board::new(4, 3);
    assert_eq!(board.state_at(at(4, 0)), Err(BoardError::OutOfBounds));
    assert_eq!(board.state_at(at(0, 3)), Err(BoardError::OutOfBounds));
    assert_eq!(board.state_at(at(u32::MAX, u32::MAX)), Err(BoardError::OutOfBounds));
    assert_eq!(board.state_at(at(3, 2)), Ok(SquareState::Empty));
}

#[test]
fn in_bounds_follows_the_rectangle() {
    let board = Board::new(4, 3);
    assert!(board.in_bounds(at(0, 0)));
    assert!(board.in_bounds(at(3, 2)));
    assert!(!board.in_bounds(at(4, 2)));
    assert!(!board.in_bounds(at(3, 3)));
}

#[test]
fn set_state_changes_one_square_only() {
    let mut board = Board::new(4, 3);
    assert_eq!(board.set_state(at(2, 1), SquareState::Arrow), Ok(()));
    for x in 0..4 {
        for y in 0..3 {
            let expected = if (x, y) == (2, 1) { SquareState::Arrow } else { SquareState::Empty };
            assert_eq!(board.state_at(at(x, y)), Ok(expected));
        }
    }
    assert_eq!(board.set_state(at(2, 1), SquareState::OwnedBy(Player::Black)), Ok(()));
    assert_eq!(board.state_at(at(2, 1)), Ok(SquareState::OwnedBy(Player::Black)));
}

#[test]
fn set_state_off_the_board_changes_nothing() {
    let mut board = Board::new(2, 2);
    assert_eq!(board.set_state(at(2, 0), SquareState::Arrow), Err(BoardError::OutOfBounds));
    assert_eq!(board.set_state(at(0, 2), SquareState::Arrow), Err(BoardError::OutOfBounds));
    for x in 0..2 {
        for y in 0..2 {
            assert_eq!(board.state_at(at(x, y)), Ok(SquareState::Empty));
        }
    }
}

#[test]
fn rows_and_columns_are_not_confused() {
    let mut board = Board::new(5, 2);
    board.set_state(at(4, 0), SquareState::Arrow).unwrap();
    board.set_state(at(0, 1), SquareState::OwnedBy(Player::White)).unwrap();
    assert_eq!(board.state_at(at(4, 0)), Ok(SquareState::Arrow));
    assert_eq!(board.state_at(at(0, 1)), Ok(SquareState::OwnedBy(Player::White)));
    assert_eq!(board.state_at(at(3, 1)), Ok(SquareState::Empty));
}

#[test]
fn a_board_without_squares_has_nothing_in_bounds() {
    let board = Board::new(0, 7);
    assert!(!board.in_bounds(at(0, 0)));
    assert_eq!(board.state_at(at(0, 0)), Err(BoardError::OutOfBounds));
}

#[test]
fn opponent_swaps_the_sides() {
    assert_eq!(Player::White.opponent(), Player::Black);
    assert_eq!(Player::Black.opponent(), Player::White);
}
