//! The turn: a game's state and the three selections that make up a turn,
//! with the roll-back of a move whose shot is refused.

use vstd::prelude::*;
use crate::board::{arrows, pieces, Board, BoardError, Coordinate, Grid, Player, SquareState};
use crate::line::{is_empty_at, LegalityResult};
use crate::moves::{
    apply_move, apply_move_spec, apply_shot, apply_shot_spec, lemma_move_keeps_counts,
    lemma_move_round_trip, lemma_shot_keeps_pieces, source_verdict, validate_move,
    validate_move_spec, validate_shot, validate_shot_spec,
};
use crate::setup::{
    config_fault, lay_out, standard_black, standard_grid, standard_white, starting_grid,
    validate_config, ConfigError,
};
use crate::territory::{
    controller_spec, evaluate, outcome_spec, survey, territory_of, Controller, Outcome,
};

verus! {

/// Where a turn stands. A game rests in one of the three `Awaiting` phases;
/// the other two are reported, once, by the selection of a shot.
#[derive(Clone, Copy, Debug, PartialEq, Eq, Structural)]
pub enum TurnPhase {
    /// The side to move has yet to pick the amazon that moves.
    AwaitingSource,
    /// The amazon is picked; the square it moves to is not.
    AwaitingDestination,
    /// The amazon has moved; the target of its arrow is not picked.
    AwaitingShot,
    /// The arrow has landed and the other side is to move, awaiting its source.
    TurnComplete,
    /// The shot was refused and the move taken back; the same side awaits a
    /// destination again.
    RolledBack,
}

/// What a selection came to.
#[derive(Clone, Copy, Debug, PartialEq, Eq, Structural)]
pub struct Transition {
    /// `Legal` where the selection was accepted, else the reason it was not.
    pub verdict: LegalityResult,
    /// Where the turn stands after the selection.
    pub phase: TurnPhase,
}

/// The model of a game: the grid, the side to move, and what has been
/// selected of the turn in progress.
pub struct GameModel {
    /// The state of every square.
    pub grid: Grid,
    /// The side whose turn it is.
    pub to_move: Player,
    /// The square the moving amazon started from, once picked.
    pub source: Option<Coordinate>,
    /// The square the amazon has moved to, once it has moved.
    pub destination: Option<Coordinate>,
}

impl GameModel {
    /// The phase in which the game rests.
    pub open spec fn phase(self) -> TurnPhase {
        if self.source is None {
            TurnPhase::AwaitingSource
        } else if self.destination is None {
            TurnPhase::AwaitingDestination
        } else {
            TurnPhase::AwaitingShot
        }
    }

    /// What holds of every game: the board is finite; no destination is kept
    /// without a source; a source awaiting its destination holds an amazon of
    /// the side to move; and once that amazon has moved, it stands on the
    /// destination and has left the source empty.
    pub open spec fn consistent(self) -> bool {
        &&& self.grid.dom().finite()
        &&& match (self.source, self.destination) {
            (None, None) => true,
            (None, Some(_)) => false,
            (Some(s), None) => pieces(self.grid, self.to_move).contains(s),
            (Some(s), Some(d)) => s != d && is_empty_at(self.grid, s) && pieces(
                self.grid,
                self.to_move,
            ).contains(d),
        }
    }
}

/// Picking the amazon that moves: accepted where the square holds an amazon
/// of the side to move, and then the turn awaits a destination. Otherwise
/// nothing changes.
pub open spec fn select_source_spec(game: GameModel, c: Coordinate) -> (GameModel, Transition) {
    let verdict = source_verdict(game.grid, game.to_move, c);
    if verdict == LegalityResult::Legal {
        (
            GameModel { source: Some(c), ..game },
            Transition { verdict, phase: TurnPhase::AwaitingDestination },
        )
    } else {
        (game, Transition { verdict, phase: TurnPhase::AwaitingSource })
    }
}

/// Picking the square to move to: where the move is legal it is made at once
/// and the turn awaits a shot. Otherwise nothing changes.
pub open spec fn select_destination_spec(game: GameModel, c: Coordinate) -> (
    GameModel,
    Transition,
) {
    let src = game.source->0;
    let verdict = validate_move_spec(game.grid, game.to_move, src, c);
    if verdict == LegalityResult::Legal {
        (
            GameModel {
                grid: apply_move_spec(game.grid, src, c),
                destination: Some(c),
                ..game
            },
            Transition { verdict, phase: TurnPhase::AwaitingShot },
        )
    } else {
        (game, Transition { verdict, phase: TurnPhase::AwaitingDestination })
    }
}

/// Picking the target of the arrow: where the shot is legal the arrow lands,
/// the selections are dropped and the other side is to move. Otherwise the
/// amazon is carried back to where it came from and the same side awaits a
/// destination again.
pub open spec fn select_shot_spec(game: GameModel, c: Coordinate) -> (GameModel, Transition) {
    let src = game.source->0;
    let dst = game.destination->0;
    let verdict = validate_shot_spec(game.grid, dst, c);
    if verdict == LegalityResult::Legal {
        (
            GameModel {
                grid: apply_shot_spec(game.grid, c),
                to_move: game.to_move.opponent(),
                source: None,
                destination: None,
            },
            Transition { verdict, phase: TurnPhase::TurnComplete },
        )
    } else {
        (
            GameModel { grid: apply_move_spec(game.grid, dst, src), destination: None, ..game },
            Transition { verdict, phase: TurnPhase::RolledBack },
        )
    }
}

/// Handing a coordinate to whichever selection the game awaits.
pub open spec fn select_spec(game: GameModel, c: Coordinate) -> (GameModel, Transition) {
    match game.phase() {
        TurnPhase::AwaitingSource => select_source_spec(game, c),
        TurnPhase::AwaitingDestination => select_destination_spec(game, c),
        _ => select_shot_spec(game, c),
    }
}

/// Stepping back: a picked amazon is let go as long as it has not moved.
/// Before any pick, and once the amazon has moved, nothing changes.
pub open spec fn step_back_spec(game: GameModel) -> GameModel {
    if game.phase() == TurnPhase::AwaitingDestination {
        GameModel { source: None, ..game }
    } else {
        game
    }
}

/// The game after a series of selections, each handed to whichever selection
/// the game then awaits.
pub open spec fn play(game: GameModel, selections: Seq<Coordinate>) -> GameModel
    decreases selections.len(),
{
    if selections.len() == 0 {
        game
    } else {
        select_spec(play(game, selections.drop_last()), selections.last()).0
    }
}

/// Picking a square of the board that holds no amazon of the side to move is
/// refused as `WrongOwner`, and the game stays as it was, awaiting a source.
pub proof fn lemma_wrong_owner_is_refused(game: GameModel, c: Coordinate)
    requires
        game.grid.dom().contains(c),
        game.grid[c] != SquareState::OwnedBy(game.to_move),
    ensures
        select_source_spec(game, c) == (
            game,
            Transition { verdict: LegalityResult::WrongOwner, phase: TurnPhase::AwaitingSource },
        ),
{
}

/// No selection, accepted or refused, creates or removes an amazon or removes
/// an arrow, and each leaves the game consistent.
pub proof fn lemma_selection_keeps_pieces(game: GameModel, c: Coordinate, player: Player)
    requires
        game.consistent(),
    ensures
        select_spec(game, c).0.consistent(),
        pieces(select_spec(game, c).0.grid, player).len() == pieces(game.grid, player).len(),
        arrows(game.grid).subset_of(arrows(select_spec(game, c).0.grid)),
        select_spec(game, c).0.grid.dom() == game.grid.dom(),
{
    let after = select_spec(game, c).0;
    match game.phase() {
        TurnPhase::AwaitingSource => {},
        TurnPhase::AwaitingDestination => {
            let src = game.source->0;
            if validate_move_spec(game.grid, game.to_move, src, c) == LegalityResult::Legal {
                lemma_move_keeps_counts(game.grid, game.to_move, src, c, player);
                assert(after.grid.dom() =~= game.grid.dom());
            }
        },
        _ => {
            let src = game.source->0;
            let dst = game.destination->0;
            if validate_shot_spec(game.grid, dst, c) == LegalityResult::Legal {
                lemma_shot_keeps_pieces(game.grid, dst, c, player);
                assert(after.grid.dom() =~= game.grid.dom());
            } else {
                assert(after.grid.dom() =~= game.grid.dom());
                assert(arrows(after.grid) =~= arrows(game.grid));
                assert(pieces(game.grid, player).subset_of(game.grid.dom()));
                vstd::set_lib::lemma_set_subset_finite(game.grid.dom(), pieces(game.grid, player));
                if player == game.to_move {
                    assert(pieces(after.grid, player) =~= pieces(game.grid, player).remove(
                        dst,
                    ).insert(src));
                } else {
                    assert(pieces(after.grid, player) =~= pieces(game.grid, player));
                }
            }
        },
    }
}

/// Through any series of selections each side keeps the number of amazons it
/// has, no arrow leaves the board, and the game stays consistent.
pub proof fn lemma_play_keeps_pieces(
    game: GameModel,
    selections: Seq<Coordinate>,
    player: Player,
)
    requires
        game.consistent(),
    ensures
        play(game, selections).consistent(),
        pieces(play(game, selections).grid, player).len() == pieces(game.grid, player).len(),
        arrows(game.grid).subset_of(arrows(play(game, selections).grid)),
        play(game, selections).grid.dom() == game.grid.dom(),
    decreases selections.len(),
{
    if selections.len() > 0 {
        lemma_play_keeps_pieces(game, selections.drop_last(), player);
        lemma_selection_keeps_pieces(
            play(game, selections.drop_last()),
            selections.last(),
            player,
        );
    }
}

/// A move followed by a refused shot leaves the game exactly as it was before
/// the destination was picked.
pub proof fn lemma_refused_shot_restores(game: GameModel, dst: Coordinate, target: Coordinate)
    requires
        game.consistent(),
        game.phase() == TurnPhase::AwaitingDestination,
        select_destination_spec(game, dst).1.verdict == LegalityResult::Legal,
        select_shot_spec(select_destination_spec(game, dst).0, target).1.verdict
            != LegalityResult::Legal,
    ensures
        select_shot_spec(select_destination_spec(game, dst).0, target).0 == game,
{
    let src = game.source->0;
    lemma_move_round_trip(game.grid, src, dst);
}

/// A game of the Amazons: the board, the side to move and the selections of
/// the turn in progress.
#[derive(Clone, Debug)]
pub struct GameState {
    board: Board,
    to_move: Player,
    source: Option<Coordinate>,
    destination: Option<Coordinate>,
}

impl View for GameState {
    type V = GameModel;

    /// The model of the game.
    closed spec fn view(&self) -> GameModel {
        GameModel {
            grid: self.board@,
            to_move: self.to_move,
            source: self.source,
            destination: self.destination,
        }
    }
}

impl GameState {
    /// The board of the game is well formed.
    pub closed spec fn board_wf(&self) -> bool {
        self.board.wf()
    }

    /// The board is well formed and the game is consistent.
    pub open spec fn wf(&self) -> bool {
        self.board_wf() && self@.consistent()
    }

    /// Starts a game from a requested layout, with White to move, or names
    /// the fault of the layout.
    pub fn initialize(
        board_width: u32,
        board_height: u32,
        white_count: u32,
        black_count: u32,
        white_start: &Vec<Coordinate>,
        black_start: &Vec<Coordinate>,
    ) -> (result: Result<GameState, ConfigError>)
        requires
            board_width * board_height <= usize::MAX,
        ensures
            match result {
                Ok(game) => {
                    &&& config_fault(
                        board_width as nat,
                        board_height as nat,
                        white_count as nat,
                        black_count as nat,
                        white_start@,
                        black_start@,
                    ) is None
                    &&& game.wf()
                    &&& game@ == (GameModel {
                        grid: starting_grid(
                            board_width as nat,
                            board_height as nat,
                            white_start@,
                            black_start@,
                        ),
                        to_move: Player::White,
                        source: None,
                        destination: None,
                    })
                },
                Err(fault) => config_fault(
                    board_width as nat,
                    board_height as nat,
                    white_count as nat,
                    black_count as nat,
                    white_start@,
                    black_start@,
                ) == Some(fault),
            },
    {
        match validate_config(
            board_width,
            board_height,
            white_count,
            black_count,
            white_start,
            black_start,
        ) {
            Err(fault) => Err(fault),
            Ok(()) => {
                let board = lay_out(board_width, board_height, white_start, black_start);
                Ok(GameState::with_board(board, Player::White))
            },
        }
    }

    /// Starts a game from the customary layout: four amazons a side on a
    /// board of ten by ten, White to move.
    pub fn standard() -> (game: GameState)
        ensures
            game.wf(),
            game@ == (GameModel {
                grid: standard_grid(),
                to_move: Player::White,
                source: None,
                destination: None,
            }),
    {
        let mut white: Vec<Coordinate> = Vec::new();
        white.push(Coordinate { x: 0, y: 3 });
        white.push(Coordinate { x: 3, y: 0 });
        white.push(Coordinate { x: 6, y: 0 });
        white.push(Coordinate { x: 9, y: 3 });
        let mut black: Vec<Coordinate> = Vec::new();
        black.push(Coordinate { x: 0, y: 6 });
        black.push(Coordinate { x: 3, y: 9 });
        black.push(Coordinate { x: 6, y: 9 });
        black.push(Coordinate { x: 9, y: 6 });
        proof {
            assert(white@ =~= standard_white());
            assert(black@ =~= standard_black());
            crate::setup::lemma_sound_config(10, 10, 4, 4, white@, black@);
            assert forall|i: int| 0 <= i < white@.len() implies !black@.contains(
                #[trigger] white@[i],
            ) by {
                if black@.contains(white@[i]) {
                    let j = choose|j: int| 0 <= j < black@.len() && black@[j] == white@[i];
                }
            }
        }
        let board = lay_out(10, 10, &white, &black);
        GameState::with_board(board, Player::White)
    }

    /// Takes up a game from a given position, with `to_move` about to pick
    /// its amazon.
    pub fn with_board(board: Board, to_move: Player) -> (game: GameState)
        requires
            board.wf(),
        ensures
            game.wf(),
            game@ == (GameModel { grid: board@, to_move, source: None, destination: None }),
    {
        proof {
            board.lemma_domain();
        }
        GameState { board, to_move, source: None, destination: None }
    }

    /// The side whose turn it is.
    pub fn current_player(&self) -> (player: Player)
        ensures
            player == self@.to_move,
    {
        self.to_move
    }

    /// The phase in which the game rests: awaiting a source, a destination or a shot.
    pub fn phase(&self) -> (phase: TurnPhase)
        ensures
            phase == self@.phase(),
    {
        if self.source.is_none() {
            TurnPhase::AwaitingSource
        } else if self.destination.is_none() {
            TurnPhase::AwaitingDestination
        } else {
            TurnPhase::AwaitingShot
        }
    }

    /// The square the moving amazon started from, once picked.
    pub fn source(&self) -> (source: Option<Coordinate>)
        ensures
            source == self@.source,
    {
        self.source
    }

    /// The square the amazon has moved to, once it has moved.
    pub fn destination(&self) -> (destination: Option<Coordinate>)
        ensures
            destination == self@.destination,
    {
        self.destination
    }

    /// The board, to read.
    pub fn board(&self) -> (board: &Board)
        requires
            self.wf(),
        ensures
            board.wf(),
            board@ == self@.grid,
    {
        &self.board
    }

    /// The state of the square at `c`, or `OutOfBounds` off the board.
    pub fn square_state(&self, c: Coordinate) -> (result: Result<SquareState, BoardError>)
        requires
            self.wf(),
        ensures
            self@.grid.dom().contains(c) ==> result == Ok::<SquareState, BoardError>(
                self@.grid[c],
            ),
            !self@.grid.dom().contains(c) ==> result == Err::<SquareState, BoardError>(
                BoardError::OutOfBounds,
            ),
    {
        self.board.state_at(c)
    }

    /// Who controls the square at `c` as the board stands; a coordinate off
    /// the board is controlled by no one.
    pub fn square_controller(&self, c: Coordinate) -> (controller: Controller)
        requires
            self.wf(),
        ensures
            controller == controller_spec(self@.grid, c),
    {
        let territory = survey(&self.board);
        territory.controller_of(c)
    }

    /// How the game stands for the side to move.
    pub fn evaluate_outcome(&self) -> (outcome: Outcome)
        requires
            self.wf(),
        ensures
            outcome == outcome_spec(self@.grid, self@.to_move),
            territory_of(self@.grid).controlled(Player::White).len() <= usize::MAX,
            territory_of(self@.grid).controlled(Player::Black).len() <= usize::MAX,
    {
        evaluate(&self.board, self.to_move)
    }

    /// Picks the amazon that is to move.
    pub fn select_source(&mut self, c: Coordinate) -> (transition: Transition)
        requires
            old(self).wf(),
            old(self)@.phase() == TurnPhase::AwaitingSource,
        ensures
            final(self).wf(),
            (final(self)@, transition) == select_source_spec(old(self)@, c),
    {
        let verdict = if !self.board.in_bounds(c) {
            LegalityResult::OutOfBounds
        } else if self.board.square(c) != SquareState::OwnedBy(self.to_move) {
            LegalityResult::WrongOwner
        } else {
            LegalityResult::Legal
        };
        if verdict == LegalityResult::Legal {
            self.source = Some(c);
            Transition { verdict, phase: TurnPhase::AwaitingDestination }
        } else {
            Transition { verdict, phase: TurnPhase::AwaitingSource }
        }
    }

    /// Picks the square to move to and, where the move is legal, makes it.
    pub fn select_destination(&mut self, c: Coordinate) -> (transition: Transition)
        requires
            old(self).wf(),
            old(self)@.phase() == TurnPhase::AwaitingDestination,
        ensures
            final(self).wf(),
            (final(self)@, transition) == select_destination_spec(old(self)@, c),
    {
        let src = self.source.unwrap();
        let verdict = validate_move(&self.board, self.to_move, src, c);
        if verdict == LegalityResult::Legal {
            proof {
                lemma_selection_keeps_pieces(self@, c, self.to_move);
            }
            let _ = apply_move(&mut self.board, src, c);
            self.destination = Some(c);
            Transition { verdict, phase: TurnPhase::AwaitingShot }
        } else {
            Transition { verdict, phase: TurnPhase::AwaitingDestination }
        }
    }

    /// Picks the target of the arrow. A legal shot ends the turn; a refused
    /// one takes the move back.
    pub fn select_shot(&mut self, c: Coordinate) -> (transition: Transition)
        requires
            old(self).wf(),
            old(self)@.phase() == TurnPhase::AwaitingShot,
        ensures
            final(self).wf(),
            (final(self)@, transition) == select_shot_spec(old(self)@, c),
    {
        let src = self.source.unwrap();
        let dst = self.destination.unwrap();
        let verdict = validate_shot(&self.board, dst, c);
        proof {
            lemma_selection_keeps_pieces(self@, c, self.to_move);
        }
        if verdict == LegalityResult::Legal {
            let _ = apply_shot(&mut self.board, c);
            self.to_move = self.to_move.opponent();
            self.source = None;
            self.destination = None;
            Transition { verdict, phase: TurnPhase::TurnComplete }
        } else {
            let _ = apply_move(&mut self.board, dst, src);
            self.destination = None;
            Transition { verdict, phase: TurnPhase::RolledBack }
        }
    }

    /// Hands the coordinate to whichever selection the game awaits.
    pub fn select(&mut self, c: Coordinate) -> (transition: Transition)
        requires
            old(self).wf(),
        ensures
            final(self).wf(),
            (final(self)@, transition) == select_spec(old(self)@, c),
    {
        match self.phase() {
            TurnPhase::AwaitingSource => self.select_source(c),
            TurnPhase::AwaitingDestination => self.select_destination(c),
            _ => self.select_shot(c),
        }
    }

    /// Lets go of a picked amazon that has not moved yet, and says in which
    /// phase the game then rests. The board is never touched.
    pub fn step_back(&mut self) -> (phase: TurnPhase)
        requires
            old(self).wf(),
        ensures
            final(self).wf(),
            final(self)@ == step_back_spec(old(self)@),
            phase == final(self)@.phase(),
    {
        if self.source.is_some() && self.destination.is_none() {
            self.source = None;
        }
        self.phase()
    }
}

} // verus!
