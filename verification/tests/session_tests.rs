use amazons::board::{Coordinate, Player, SquareState};
use amazons::line::LegalityResult;
use amazons::session::{AmazonsGame, ClickableState};
use amazons::setup::ConfigError;
use amazons::turn::{Transition, TurnPhase};

fn p(x: u32, y: u32) -> Coordinate {
    Coordinate { x, y }
}

fn pick(session: &mut AmazonsGame, player: Player, squares: &[(u32, u32)]) {
    session.pick_starting_positions(player);
    for (x, y) in squares {
        session.click(p(*x, *y));
    }
}

#[test]
fn a_session_starts_idle_with_untouched_settings() {
    let session = AmazonsGame::default();
    assert_eq!(session.state(), ClickableState::Idle);
    assert_eq!(session.board_width(), 10);
    assert_eq!(session.board_height(), 10);
    assert_eq!(session.white_amazons(), 4);
    assert_eq!(session.black_amazons(), 4);
    assert!(session.white_starting().is_empty());
    assert!(session.black_starting().is_empty());
    assert_eq!(session.white_squares(), 0);
    assert_eq!(session.black_squares(), 0);
    assert!(!session.highlight_regions());
    assert!(session.is_empty_config());
    assert_eq!(session.config_is_valid(), Ok(()));
}

#[test]
fn new_game_with_untouched_settings_starts_the_standard_layout() {
    let mut session = AmazonsGame::default();
    session.new_game();
    assert_eq!(session.state(), ClickableState::GameInProgress);
    let game = session.game();
    assert_eq!(game.board().width(), 10);
    assert_eq!(game.current_player(), Player::White);
    assert_eq!(game.square_state(p(3, 0)), Ok(SquareState::OwnedBy(Player::White)));
    assert_eq!(game.square_state(p(6, 9)), Ok(SquareState::OwnedBy(Player::Black)));
    assert_eq!(game.square_state(p(5, 5)), Ok(SquareState::Empty));
}

#[test]
fn new_game_reports_missing_starting_positions() {
    let mut session = AmazonsGame::default();
    assert!(session.configure(6, 6, 2, 2));
    assert!(!session.is_empty_config());
    assert_eq!(session.config_is_valid(), Err(ConfigError::StartingCountMismatch));
    session.new_game();
    assert_eq!(session.state(), ClickableState::InvalidConfig(ConfigError::StartingCountMismatch));
    session.acknowledge();
    assert_eq!(session.state(), ClickableState::Idle);
}

#[test]
fn new_game_reports_overlapping_starting_positions() {
    let mut session = AmazonsGame::default();
    session.configure(6, 6, 1, 1);
    pick(&mut session, Player::White, &[(2, 2)]);
    pick(&mut session, Player::Black, &[(2, 2)]);
    assert_eq!(session.state(), ClickableState::Idle);
    session.new_game();
    assert_eq!(
        session.state(),
        ClickableState::InvalidConfig(ConfigError::OverlappingStartingPosition)
    );
}

#[test]
fn new_game_reports_positions_off_a_board_made_smaller() {
    let mut session = AmazonsGame::default();
    session.configure(6, 6, 1, 1);
    pick(&mut session, Player::White, &[(5, 5)]);
    pick(&mut session, Player::Black, &[(0, 0)]);
    session.configure(4, 4, 1, 1);
    session.new_game();
    assert_eq!(session.state(), ClickableState::InvalidConfig(ConfigError::CoordinateOutOfBounds));
}

#[test]
fn picking_collects_clicks_on_the_board_until_the_count_is_reached() {
    let mut session = AmazonsGame::default();
    session.configure(5, 4, 2, 1);
    session.pick_starting_positions(Player::White);
    assert_eq!(session.state(), ClickableState::PickingWhite);
    assert_eq!(session.click(p(5, 0)), None);
    assert_eq!(session.click(p(0, 4)), None);
    assert!(session.white_starting().is_empty());
    session.click(p(4, 3));
    assert_eq!(session.state(), ClickableState::PickingWhite);
    session.click(p(1, 1));
    assert_eq!(session.state(), ClickableState::Idle);
    assert_eq!(session.white_starting(), &vec![p(4, 3), p(1, 1)]);
    session.click(p(2, 2));
    assert_eq!(session.white_starting(), &vec![p(4, 3), p(1, 1)]);
    session.pick_starting_positions(Player::Black);
    assert_eq!(session.state(), ClickableState::PickingBlack);
    session.click(p(0, 0));
    assert_eq!(session.state(), ClickableState::Idle);
    assert_eq!(session.black_starting(), &vec![p(0, 0)]);
    session.pick_starting_positions(Player::White);
    assert!(session.white_starting().is_empty());
}

#[test]
fn undo_drops_the_last_starting_square() {
    let mut session = AmazonsGame::default();
    session.configure(5, 5, 3, 3);
    session.pick_starting_positions(Player::Black);
    session.undo_last_selection();
    assert!(session.black_starting().is_empty());
    session.click(p(1, 1));
    session.click(p(2, 2));
    session.undo_last_selection();
    assert_eq!(session.black_starting(), &vec![p(1, 1)]);
    assert_eq!(session.state(), ClickableState::PickingBlack);
}

#[test]
fn a_custom_layout_is_played_to_a_territory_win() {
    let mut session = AmazonsGame::default();
    session.configure(5, 1, 1, 1);
    pick(&mut session, Player::White, &[(1, 0)]);
    pick(&mut session, Player::Black, &[(4, 0)]);
    assert_eq!(session.config_is_valid(), Ok(()));
    session.new_game();
    assert_eq!(session.state(), ClickableState::GameInProgress);
    assert_eq!(
        session.click(p(2, 0)),
        Some(Transition { verdict: LegalityResult::WrongOwner, phase: TurnPhase::AwaitingSource })
    );
    assert_eq!(
        session.click(p(1, 0)),
        Some(Transition { verdict: LegalityResult::Legal, phase: TurnPhase::AwaitingDestination })
    );
    assert_eq!(
        session.click(p(2, 0)),
        Some(Transition { verdict: LegalityResult::Legal, phase: TurnPhase::AwaitingShot })
    );
    assert_eq!(session.state(), ClickableState::GameInProgress);
    assert_eq!(
        session.click(p(3, 0)),
        Some(Transition { verdict: LegalityResult::Legal, phase: TurnPhase::TurnComplete })
    );
    assert_eq!(session.state(), ClickableState::GameOver(Player::White));
    assert!(!session.highlight_regions());
    assert_eq!(session.click(p(0, 0)), None);
    session.acknowledge();
    assert_eq!(session.state(), ClickableState::Idle);
}

#[test]
fn a_game_decided_by_territory_records_the_counts() {
    let mut session = AmazonsGame::default();
    session.configure(7, 1, 1, 1);
    pick(&mut session, Player::White, &[(2, 0)]);
    pick(&mut session, Player::Black, &[(5, 0)]);
    session.new_game();
    session.click(p(2, 0));
    session.click(p(3, 0));
    session.click(p(4, 0));
    assert_eq!(session.state(), ClickableState::GameOver(Player::White));
    assert!(session.highlight_regions());
    assert_eq!(session.white_squares(), 3);
    assert_eq!(session.black_squares(), 1);
    assert_eq!(session.game().current_player(), Player::Black);
}

#[test]
fn undo_during_a_game_lets_go_of_the_picked_amazon() {
    let mut session = AmazonsGame::default();
    session.new_game();
    session.click(p(3, 0));
    assert_eq!(session.game().phase(), TurnPhase::AwaitingDestination);
    session.undo_last_selection();
    assert_eq!(session.game().phase(), TurnPhase::AwaitingSource);
    assert_eq!(session.game().square_state(p(3, 0)), Ok(SquareState::OwnedBy(Player::White)));
}

#[test]
fn stop_game_opens_the_settings() {
    let mut session = AmazonsGame::default();
    session.stop_game();
    assert_eq!(session.state(), ClickableState::Idle);
    session.new_game();
    assert!(!session.configure(8, 8, 4, 4));
    assert_eq!(session.board_width(), 10);
    session.pick_starting_positions(Player::White);
    assert_eq!(session.state(), ClickableState::GameInProgress);
    session.acknowledge();
    assert_eq!(session.state(), ClickableState::GameInProgress);
    session.stop_game();
    assert_eq!(session.state(), ClickableState::Idle);
    assert!(session.configure(8, 8, 4, 4));
    assert_eq!(session.board_width(), 8);
}

#[test]
fn revert_to_defaults_restores_the_untouched_settings() {
    let mut session = AmazonsGame::default();
    session.configure(6, 7, 1, 2);
    pick(&mut session, Player::White, &[(0, 0)]);
    assert!(!session.is_empty_config());
    session.revert_to_defaults();
    assert!(session.is_empty_config());
    assert_eq!(session.board_height(), 10);
    assert!(session.white_starting().is_empty());
    session.new_game();
    session.revert_to_defaults();
    assert_eq!(session.state(), ClickableState::GameInProgress);
}

#[test]
fn with_settings_opens_a_session_on_the_given_settings() {
    let session =
        AmazonsGame::with_settings(6, 5, 2, 1, vec![p(0, 0), p(9, 9)], vec![p(1, 1)]).unwrap();
    assert_eq!(session.state(), ClickableState::Idle);
    assert_eq!(session.board_width(), 6);
    assert_eq!(session.board_height(), 5);
    assert_eq!(session.white_amazons(), 2);
    assert_eq!(session.black_amazons(), 1);
    assert_eq!(session.white_starting(), &vec![p(0, 0), p(9, 9)]);
    assert_eq!(session.black_starting(), &vec![p(1, 1)]);
    assert_eq!(session.config_is_valid(), Err(ConfigError::CoordinateOutOfBounds));
    assert_eq!(session.game().phase(), TurnPhase::AwaitingSource);
    assert_eq!(session.game().board().width(), 10);
}

#[test]
fn a_custom_layout_is_laid_out_as_chosen() {
    let mut session =
        AmazonsGame::with_settings(3, 2, 1, 2, vec![p(2, 1)], vec![p(0, 0), p(1, 0)]).unwrap();
    session.new_game();
    assert_eq!(session.state(), ClickableState::GameInProgress);
    let game = session.game();
    assert_eq!(game.board().width(), 3);
    assert_eq!(game.board().height(), 2);
    for x in 0..3 {
        for y in 0..2 {
            let expected = match (x, y) {
                (2, 1) => SquareState::OwnedBy(Player::White),
                (0, 0) | (1, 0) => SquareState::OwnedBy(Player::Black),
                _ => SquareState::Empty,
            };
            assert_eq!(game.square_state(p(x, y)), Ok(expected));
        }
    }
}
