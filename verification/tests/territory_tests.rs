use amazons::board::{Board, Coordinate, Player, SquareState};
use amazons::territory::{
    can_move_from, controller_of, evaluate, flood, has_any_legal_move, provisional_leader,
    survey, territory_winner, Controller, Outcome,
};
use amazons::turn::GameState;

fn c(x: u32, y: u32) -> Coordinate {
    Coordinate { x, y }
}

const W: SquareState = SquareState::OwnedBy(Player::White);
const B: SquareState = SquareState::OwnedBy(Player::Black);
const A: SquareState = SquareState::Arrow;
const E: SquareState = SquareState::Empty;

fn board_from_rows(rows: &[&[SquareState]]) -> Board {
    let height = rows.len() as u32;
    let width = rows[0].len() as u32;
    let mut board = Board::new(width, height);
    for (y, row) in rows.iter().enumerate() {
        for (x, state) in row.iter().enumerate() {
            board.set_state(c(x as u32, y as u32), *state).unwrap();
        }
    }
    board
}

fn boxed_in_board() -> Board {
    board_from_rows(&[
        &[A, A, A, E, E],
        &[A, W, A, E, E],
        &[A, A, A, E, E],
        &[E, E, E, E, E],
        &[E, E, E, E, B],
    ])
}

#[test]
fn a_boxed_in_mover_has_no_legal_move_and_loses() {
    let board = boxed_in_board();
    assert!(!can_move_from(&board, c(1, 1)));
    assert!(!has_any_legal_move(&board, Player::White));
    assert!(has_any_legal_move(&board, Player::Black));
    assert_eq!(evaluate(&board, Player::White), Outcome::Winner(Player::Black));
    let game = GameState::with_board(board, Player::White);
    assert_eq!(game.evaluate_outcome(), Outcome::Winner(Player::Black));
}

#[test]
fn a_boxed_in_side_still_loses_on_territory_when_the_other_is_to_move() {
    let board = boxed_in_board();
    assert_eq!(evaluate(&board, Player::Black), Outcome::WinnerWithCounts(Player::Black, 0, 15));
}

#[test]
fn several_boxed_in_amazons_have_no_legal_move() {
    let board = board_from_rows(&[
        &[W, A, E, A, W],
        &[A, A, E, A, A],
        &[E, E, B, E, E],
    ]);
    assert!(!has_any_legal_move(&board, Player::White));
    assert_eq!(evaluate(&board, Player::White), Outcome::Winner(Player::Black));
}

#[test]
fn a_mover_without_any_amazon_has_no_legal_move() {
    let board = board_from_rows(&[&[E, B, E]]);
    assert!(!has_any_legal_move(&board, Player::White));
    assert_eq!(evaluate(&board, Player::White), Outcome::Winner(Player::Black));
}

#[test]
fn amazons_boxed_in_by_each_other_cannot_move() {
    let board = board_from_rows(&[&[W, B]]);
    assert!(!has_any_legal_move(&board, Player::White));
    assert!(!has_any_legal_move(&board, Player::Black));
    assert_eq!(evaluate(&board, Player::White), Outcome::Winner(Player::Black));
    assert_eq!(evaluate(&board, Player::Black), Outcome::Winner(Player::White));
}

#[test]
fn equal_territory_goes_against_the_provisional_leader() {
    let board = board_from_rows(&[&[E, W, A, B, E]]);
    let territory = survey(&board);
    assert!(territory.is_separated());
    assert_eq!(territory.white_count(), 1);
    assert_eq!(territory.black_count(), 1);
    for mover in [Player::White, Player::Black] {
        let leader = provisional_leader(1, 1, mover);
        assert_eq!(leader, mover);
        assert_eq!(
            evaluate(&board, mover),
            Outcome::WinnerWithCounts(leader.opponent(), 1, 1)
        );
    }
    let game = GameState::with_board(board, Player::White);
    assert_eq!(game.evaluate_outcome(), Outcome::WinnerWithCounts(Player::Black, 1, 1));
}

#[test]
fn larger_territory_wins_a_separated_board() {
    let board = board_from_rows(&[&[E, E, W, A, B, E]]);
    assert_eq!(evaluate(&board, Player::White), Outcome::WinnerWithCounts(Player::White, 2, 1));
    assert_eq!(evaluate(&board, Player::Black), Outcome::WinnerWithCounts(Player::White, 2, 1));
    let mirrored = board_from_rows(&[&[E, W, A, B, E, E, E]]);
    assert_eq!(evaluate(&mirrored, Player::White), Outcome::WinnerWithCounts(Player::Black, 1, 3));
}

#[test]
fn territory_winner_follows_the_counts_and_flips_a_tie() {
    assert_eq!(territory_winner(5, 3, Player::White), Player::White);
    assert_eq!(territory_winner(5, 3, Player::Black), Player::White);
    assert_eq!(territory_winner(2, 7, Player::White), Player::Black);
    assert_eq!(territory_winner(2, 7, Player::Black), Player::Black);
    assert_eq!(territory_winner(4, 4, Player::White), Player::Black);
    assert_eq!(territory_winner(4, 4, Player::Black), Player::White);
    assert_eq!(provisional_leader(5, 3, Player::Black), Player::White);
    assert_eq!(provisional_leader(2, 7, Player::White), Player::Black);
    assert_eq!(provisional_leader(4, 4, Player::Black), Player::Black);
}

#[test]
fn an_unseparated_board_is_still_in_progress() {
    let board = board_from_rows(&[
        &[W, E, E],
        &[E, A, E],
        &[E, E, B],
    ]);
    let territory = survey(&board);
    assert!(!territory.is_separated());
    assert_eq!(territory.white_count(), 0);
    assert_eq!(territory.black_count(), 0);
    assert_eq!(evaluate(&board, Player::White), Outcome::InProgress);
    assert_eq!(evaluate(&board, Player::Black), Outcome::InProgress);
}

#[test]
fn flood_spreads_over_touching_empty_squares_only() {
    let board = board_from_rows(&[
        &[W, E, A, E, E],
        &[E, E, A, E, B],
        &[A, A, A, E, E],
        &[E, E, E, E, E],
    ]);
    let white = flood(&board, Player::White);
    let black = flood(&board, Player::Black);
    let white_reach = [(1, 0), (0, 1), (1, 1)];
    for x in 0..5 {
        for y in 0..4 {
            assert_eq!(white.contains(c(x, y)), white_reach.contains(&(x, y)));
            let empty = board.state_at(c(x, y)) == Ok(E);
            assert_eq!(black.contains(c(x, y)), empty && !white_reach.contains(&(x, y)));
        }
    }
    assert!(!white.contains(c(5, 0)));
}

#[test]
fn flood_passes_between_arrows_that_touch_by_a_corner() {
    let board = board_from_rows(&[
        &[W, A, E],
        &[A, E, E],
    ]);
    let white = flood(&board, Player::White);
    assert!(white.contains(c(1, 1)));
    assert!(white.contains(c(2, 0)));
    assert!(white.contains(c(2, 1)));
    assert!(!white.contains(c(0, 0)));
    assert!(!white.contains(c(1, 0)));
}

#[test]
fn flood_does_not_pass_through_amazons() {
    let board = board_from_rows(&[&[W, E, B, E, W, E]]);
    let white = flood(&board, Player::White);
    let black = flood(&board, Player::Black);
    for (x, by_white, by_black) in [
        (0, false, false),
        (1, true, true),
        (2, false, false),
        (3, true, true),
        (4, false, false),
        (5, true, false),
    ] {
        assert_eq!(white.contains(c(x, 0)), by_white);
        assert_eq!(black.contains(c(x, 0)), by_black);
    }
}

#[test]
fn controller_tells_white_black_and_neutral_apart() {
    let board = board_from_rows(&[
        &[W, E, A, E, B],
        &[E, E, A, E, E],
        &[A, A, A, A, A],
        &[E, E, E, E, E],
    ]);
    let territory = survey(&board);
    for x in 0..5 {
        for y in 0..4 {
            let expected = if y < 2 && x < 2 && (x, y) != (0, 0) {
                Controller::White
            } else if y < 2 && x > 2 && (x, y) != (4, 0) {
                Controller::Black
            } else {
                Controller::Neutral
            };
            assert_eq!(territory.controller_of(c(x, y)), expected);
            assert_eq!(controller_of(&board, c(x, y)), expected);
        }
    }
    assert_eq!(territory.controller_of(c(9, 9)), Controller::Neutral);
    assert_eq!(territory.white_count(), 3);
    assert_eq!(territory.black_count(), 3);
    assert!(territory.is_separated());
    let game = GameState::with_board(board, Player::White);
    assert_eq!(game.square_controller(c(1, 1)), Controller::White);
    assert_eq!(game.square_controller(c(3, 1)), Controller::Black);
    assert_eq!(game.square_controller(c(0, 3)), Controller::Neutral);
}

#[test]
fn squares_in_reach_of_both_sides_are_neutral() {
    let board = board_from_rows(&[&[W, E, E, B], &[A, A, A, A], &[E, W, E, E]]);
    let territory = survey(&board);
    assert_eq!(territory.controller_of(c(1, 0)), Controller::Neutral);
    assert_eq!(territory.controller_of(c(2, 0)), Controller::Neutral);
    assert_eq!(territory.controller_of(c(0, 2)), Controller::White);
    assert_eq!(territory.white_count(), 3);
    assert_eq!(territory.black_count(), 0);
    assert!(!territory.is_separated());
    assert_eq!(evaluate(&board, Player::Black), Outcome::InProgress);
}

#[test]
fn a_board_with_no_room_left_is_not_separated() {
    let board = board_from_rows(&[&[W, A, B]]);
    let territory = survey(&board);
    assert!(!territory.is_separated());
    assert_eq!(territory.white_count(), 0);
    assert_eq!(territory.black_count(), 0);
}

#[test]
fn can_move_from_needs_one_free_line() {
    let board = board_from_rows(&[
        &[A, A, A],
        &[A, W, E],
        &[A, A, A],
    ]);
    assert!(can_move_from(&board, c(1, 1)));
    assert!(has_any_legal_move(&board, Player::White));
    assert!(!can_move_from(&board, c(7, 7)));
}

#[test]
fn the_standard_layout_is_not_separated() {
    let game = GameState::standard();
    let territory = survey(game.board());
    assert!(!territory.is_separated());
    assert_eq!(territory.white_count(), 0);
    assert_eq!(territory.black_count(), 0);
    assert_eq!(territory.controller_of(c(5, 5)), Controller::Neutral);
}

#[test]
fn a_side_can_move_exactly_when_it_has_reach() {
    let boards = [
        boxed_in_board(),
        board_from_rows(&[&[W, B]]),
        board_from_rows(&[&[E, W, A, B, E]]),
        board_from_rows(&[&[W, A, E], &[A, E, E]]),
        board_from_rows(&[&[W, A, B], &[A, A, E]]),
        board_from_rows(&[&[E, E, E]]),
    ];
    for board in &boards {
        for player in [Player::White, Player::Black] {
            let reached = flood(board, player);
            let mut any = false;
            for x in 0..board.width() {
                for y in 0..board.height() {
                    any = any || reached.contains(c(x, y));
                }
            }
            assert_eq!(has_any_legal_move(board, player), any);
        }
    }
}
