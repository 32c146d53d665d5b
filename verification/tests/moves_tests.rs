use amazons::board::{Board, BoardError, Coordinate, Player, SquareState};
use amazons::line::LegalityResult;
use amazons::moves::{apply_move, apply_shot, validate_move, validate_shot};

fn pos(x: u32, y: u32) -> Coordinate {
    Coordinate { x, y }
}

fn snapshot(board: &Board) -> Vec<SquareState> {
    let mut states = Vec::new();
    for y in 0..board.height() {
        for x in 0..board.width() {
            states.push(board.state_at(pos(x, y)).unwrap());
        }
    }
    states
}

fn small_board() -> Board {
    let mut board = Board::new(4, 4);
    board.set_state(pos(0, 0), SquareState::OwnedBy(Player::White)).unwrap();
    board.set_state(pos(3, 3), SquareState::OwnedBy(Player::Black)).unwrap();
    board.set_state(pos(0, 2), SquareState::Arrow).unwrap();
    board
}

#[test]
fn validate_move_accepts_a_queen_move_of_the_mover() {
    let board = small_board();
    assert_eq!(validate_move(&board, Player::White, pos(0, 0), pos(3, 0)), LegalityResult::Legal);
    assert_eq!(validate_move(&board, Player::White, pos(0, 0), pos(2, 2)), LegalityResult::Legal);
    assert_eq!(validate_move(&board, Player::Black, pos(3, 3), pos(1, 1)), LegalityResult::Legal);
}

#[test]
fn validate_move_rejects_a_source_of_the_wrong_owner() {
    let board = small_board();
    assert_eq!(
        validate_move(&board, Player::Black, pos(0, 0), pos(3, 0)),
        LegalityResult::WrongOwner
    );
    assert_eq!(
        validate_move(&board, Player::White, pos(1, 1), pos(2, 1)),
        LegalityResult::WrongOwner
    );
    assert_eq!(
        validate_move(&board, Player::White, pos(0, 2), pos(1, 2)),
        LegalityResult::WrongOwner
    );
}

#[test]
fn validate_move_names_the_source_before_the_line() {
    let board = small_board();
    assert_eq!(
        validate_move(&board, Player::White, pos(1, 1), pos(9, 9)),
        LegalityResult::WrongOwner
    );
    assert_eq!(
        validate_move(&board, Player::White, pos(7, 0), pos(1, 1)),
        LegalityResult::OutOfBounds
    );
}

#[test]
fn validate_move_passes_on_the_verdict_of_the_line() {
    let board = small_board();
    assert_eq!(
        validate_move(&board, Player::White, pos(0, 0), pos(0, 3)),
        LegalityResult::PathObstructed
    );
    assert_eq!(
        validate_move(&board, Player::White, pos(0, 0), pos(0, 2)),
        LegalityResult::DestinationOccupied
    );
    assert_eq!(
        validate_move(&board, Player::White, pos(0, 0), pos(3, 3)),
        LegalityResult::DestinationOccupied
    );
    assert_eq!(
        validate_move(&board, Player::White, pos(0, 0), pos(1, 2)),
        LegalityResult::NotAStraightLine
    );
    assert_eq!(
        validate_move(&board, Player::White, pos(0, 0), pos(0, 0)),
        LegalityResult::SameSquare
    );
    assert_eq!(
        validate_move(&board, Player::White, pos(0, 0), pos(4, 0)),
        LegalityResult::OutOfBounds
    );
}

#[test]
fn apply_move_empties_the_source_and_fills_the_destination() {
    let mut board = small_board();
    assert_eq!(apply_move(&mut board, pos(0, 0), pos(2, 0)), Ok(()));
    assert_eq!(board.state_at(pos(0, 0)), Ok(SquareState::Empty));
    assert_eq!(board.state_at(pos(2, 0)), Ok(SquareState::OwnedBy(Player::White)));
    assert_eq!(board.state_at(pos(3, 3)), Ok(SquareState::OwnedBy(Player::Black)));
    assert_eq!(board.state_at(pos(0, 2)), Ok(SquareState::Arrow));
}

#[test]
fn apply_move_asks_nothing_about_legality() {
    let mut board = small_board();
    assert_eq!(apply_move(&mut board, pos(3, 3), pos(1, 0)), Ok(()));
    assert_eq!(board.state_at(pos(3, 3)), Ok(SquareState::Empty));
    assert_eq!(board.state_at(pos(1, 0)), Ok(SquareState::OwnedBy(Player::Black)));
}

#[test]
fn apply_move_there_and_back_restores_every_square() {
    let mut board = small_board();
    let before = snapshot(&board);
    apply_move(&mut board, pos(0, 0), pos(2, 2)).unwrap();
    assert_ne!(snapshot(&board), before);
    apply_move(&mut board, pos(2, 2), pos(0, 0)).unwrap();
    assert_eq!(snapshot(&board), before);
}

#[test]
fn apply_move_onto_its_own_square_changes_nothing() {
    let mut board = small_board();
    let before = snapshot(&board);
    assert_eq!(apply_move(&mut board, pos(0, 0), pos(0, 0)), Ok(()));
    assert_eq!(snapshot(&board), before);
}

#[test]
fn apply_move_off_the_board_changes_nothing() {
    let mut board = small_board();
    let before = snapshot(&board);
    assert_eq!(apply_move(&mut board, pos(0, 0), pos(4, 0)), Err(BoardError::OutOfBounds));
    assert_eq!(apply_move(&mut board, pos(0, 4), pos(1, 1)), Err(BoardError::OutOfBounds));
    assert_eq!(snapshot(&board), before);
}

#[test]
fn validate_shot_follows_the_line_from_the_amazon() {
    let board = small_board();
    assert_eq!(validate_shot(&board, pos(0, 0), pos(3, 0)), LegalityResult::Legal);
    assert_eq!(validate_shot(&board, pos(0, 0), pos(0, 3)), LegalityResult::PathObstructed);
    assert_eq!(validate_shot(&board, pos(0, 0), pos(0, 2)), LegalityResult::DestinationOccupied);
    assert_eq!(validate_shot(&board, pos(0, 0), pos(2, 1)), LegalityResult::NotAStraightLine);
    assert_eq!(validate_shot(&board, pos(0, 0), pos(0, 0)), LegalityResult::SameSquare);
    assert_eq!(validate_shot(&board, pos(0, 0), pos(0, 4)), LegalityResult::OutOfBounds);
}

#[test]
fn after_a_move_the_amazon_may_shoot_at_its_origin() {
    let mut board = small_board();
    assert_eq!(validate_move(&board, Player::White, pos(0, 0), pos(3, 0)), LegalityResult::Legal);
    apply_move(&mut board, pos(0, 0), pos(3, 0)).unwrap();
    assert_eq!(validate_shot(&board, pos(3, 0), pos(0, 0)), LegalityResult::Legal);
}

#[test]
fn apply_shot_lands_an_arrow() {
    let mut board = small_board();
    assert_eq!(apply_shot(&mut board, pos(1, 1)), Ok(()));
    assert_eq!(board.state_at(pos(1, 1)), Ok(SquareState::Arrow));
    assert_eq!(board.state_at(pos(0, 0)), Ok(SquareState::OwnedBy(Player::White)));
    assert_eq!(validate_move(&board, Player::White, pos(0, 0), pos(2, 2)), LegalityResult::PathObstructed);
    assert_eq!(validate_shot(&board, pos(3, 3), pos(0, 0)), LegalityResult::PathObstructed);
}

#[test]
fn apply_shot_off_the_board_changes_nothing() {
    let mut board = small_board();
    let before = snapshot(&board);
    assert_eq!(apply_shot(&mut board, pos(4, 4)), Err(BoardError::OutOfBounds));
    assert_eq!(snapshot(&board), before);
}
