//! A session at the board: the settings of the next game, the choice of
//! starting squares, the game in progress and its end, driven by the clicks
//! and buttons of whatever front end shows it.

use vstd::prelude::*;
use crate::board::{Coordinate, Player};
use crate::setup::{
    config_fault, lay_out, lemma_sound_config, standard_grid, starting_grid, validate_config,
    ConfigError,
};
use crate::territory::{outcome_spec, Outcome};
use crate::turn::{select_spec, step_back_spec, GameModel, GameState, Transition, TurnPhase};

verus! {

/// What a click on the board means at the moment.
#[derive(Clone, Copy, Debug, PartialEq, Eq, Structural)]
pub enum ClickableState {
    /// A game is being played: clicks select squares of the turn.
    GameInProgress,
    /// Clicks choose the starting squares of White.
    PickingWhite,
    /// Clicks choose the starting squares of Black.
    PickingBlack,
    /// The game has ended with this winner; clicks mean nothing.
    GameOver(Player),
    /// The requested layout was refused for this reason; clicks mean nothing.
    InvalidConfig(ConfigError),
    /// The settings are open; clicks mean nothing.
    Idle,
}

/// The model of a session.
pub struct SessionModel {
    /// The number of rows of the next game's board.
    pub board_height: u32,
    /// The number of columns of the next game's board.
    pub board_width: u32,
    /// The number of amazons White starts with.
    pub white_amazons: u32,
    /// The number of amazons Black starts with.
    pub black_amazons: u32,
    /// The starting squares chosen for White.
    pub white_starting: Seq<Coordinate>,
    /// The starting squares chosen for Black.
    pub black_starting: Seq<Coordinate>,
    /// What a click means at the moment.
    pub state: ClickableState,
    /// The game last started.
    pub game: GameModel,
    /// The squares White controlled when territory last decided a game.
    pub white_squares: usize,
    /// The squares Black controlled when territory last decided a game.
    pub black_squares: usize,
    /// Whether the last game was decided by territory, so that the
    /// controlled regions are worth showing.
    pub highlight_regions: bool,
}

/// A game at its first move on the given grid.
pub open spec fn fresh_game(grid: crate::board::Grid) -> GameModel {
    GameModel { grid, to_move: Player::White, source: None, destination: None }
}

impl SessionModel {
    /// Whether the settings are the ones a session starts with: ten by ten,
    /// four amazons a side, no starting squares chosen.
    pub open spec fn is_empty_config(self) -> bool {
        &&& self.white_starting.len() == 0
        &&& self.white_amazons == 4
        &&& self.black_starting.len() == 0
        &&& self.black_amazons == 4
        &&& self.board_width == 10
        &&& self.board_height == 10
    }

    /// The fault of the settings, if any. Untouched settings have none: they
    /// stand for the customary layout.
    pub open spec fn fault(self) -> Option<ConfigError> {
        if self.is_empty_config() {
            None
        } else {
            config_fault(
                self.board_width as nat,
                self.board_height as nat,
                self.white_amazons as nat,
                self.black_amazons as nat,
                self.white_starting,
                self.black_starting,
            )
        }
    }

    /// The session after a request for a new game: refused settings are
    /// reported, untouched settings start the customary layout, and any
    /// others start the layout they describe.
    pub open spec fn new_game(self) -> SessionModel {
        match self.fault() {
            Some(fault) => SessionModel { state: ClickableState::InvalidConfig(fault), ..self },
            None => SessionModel {
                state: ClickableState::GameInProgress,
                game: fresh_game(
                    if self.is_empty_config() {
                        standard_grid()
                    } else {
                        starting_grid(
                            self.board_width as nat,
                            self.board_height as nat,
                            self.white_starting,
                            self.black_starting,
                        )
                    },
                ),
                ..self
            },
        }
    }

    /// The session once a turn is complete: a decided game is over, and a
    /// game decided by territory records the counts and asks for the regions
    /// to be shown.
    pub open spec fn settle(self) -> SessionModel {
        match outcome_spec(self.game.grid, self.game.to_move) {
            Outcome::InProgress => self,
            Outcome::Winner(winner) => SessionModel {
                state: ClickableState::GameOver(winner),
                highlight_regions: false,
                ..self
            },
            Outcome::WinnerWithCounts(winner, white, black) => SessionModel {
                state: ClickableState::GameOver(winner),
                highlight_regions: true,
                white_squares: white,
                black_squares: black,
                ..self
            },
        }
    }

    /// The session after a click on the square at `c`. During a game the
    /// click is a selection of the turn, and a completed turn is settled.
    /// While starting squares are picked, a click on the board adds one, and
    /// the last one needed closes the picking. Otherwise nothing changes.
    pub open spec fn click(self, c: Coordinate) -> SessionModel {
        match self.state {
            ClickableState::GameInProgress => {
                let (game, transition) = select_spec(self.game, c);
                let played = SessionModel { game, ..self };
                if transition.phase == TurnPhase::TurnComplete {
                    played.settle()
                } else {
                    played
                }
            },
            ClickableState::PickingWhite => {
                if c.x < self.board_width && c.y < self.board_height {
                    let chosen = self.white_starting.push(c);
                    SessionModel {
                        white_starting: chosen,
                        state: if chosen.len() == self.white_amazons {
                            ClickableState::Idle
                        } else {
                            ClickableState::PickingWhite
                        },
                        ..self
                    }
                } else {
                    self
                }
            },
            ClickableState::PickingBlack => {
                if c.x < self.board_width && c.y < self.board_height {
                    let chosen = self.black_starting.push(c);
                    SessionModel {
                        black_starting: chosen,
                        state: if chosen.len() == self.black_amazons {
                            ClickableState::Idle
                        } else {
                            ClickableState::PickingBlack
                        },
                        ..self
                    }
                } else {
                    self
                }
            },
            _ => self,
        }
    }

    /// The session after the last selection is undone: during a game the turn
    /// steps back, and while starting squares are picked the last one chosen
    /// is dropped. Otherwise nothing changes.
    pub open spec fn undo_last_selection(self) -> SessionModel {
        match self.state {
            ClickableState::GameInProgress => SessionModel {
                game: step_back_spec(self.game),
                ..self
            },
            ClickableState::PickingWhite => if self.white_starting.len() > 0 {
                SessionModel { white_starting: self.white_starting.drop_last(), ..self }
            } else {
                self
            },
            ClickableState::PickingBlack => if self.black_starting.len() > 0 {
                SessionModel { black_starting: self.black_starting.drop_last(), ..self }
            } else {
                self
            },
            _ => self,
        }
    }

    /// The session a front end starts with: the settings untouched and open,
    /// the customary layout on the board.
    pub open spec fn initial() -> SessionModel {
        SessionModel {
            board_height: 10,
            board_width: 10,
            white_amazons: 4,
            black_amazons: 4,
            white_starting: Seq::empty(),
            black_starting: Seq::empty(),
            state: ClickableState::Idle,
            game: fresh_game(standard_grid()),
            white_squares: 0,
            black_squares: 0,
            highlight_regions: false,
        }
    }
}

/// A session at the board.
#[derive(Clone, Debug)]
pub struct AmazonsGame {
    board_height: u32,
    board_width: u32,
    white_amazons: u32,
    black_amazons: u32,
    white_starting: Vec<Coordinate>,
    black_starting: Vec<Coordinate>,
    state: ClickableState,
    game: GameState,
    white_squares: usize,
    black_squares: usize,
    highlight_regions: bool,
}

impl View for AmazonsGame {
    type V = SessionModel;

    /// The model of the session.
    closed spec fn view(&self) -> SessionModel {
        SessionModel {
            board_height: self.board_height,
            board_width: self.board_width,
            white_amazons: self.white_amazons,
            black_amazons: self.black_amazons,
            white_starting: self.white_starting@,
            black_starting: self.black_starting@,
            state: self.state,
            game: self.game@,
            white_squares: self.white_squares,
            black_squares: self.black_squares,
            highlight_regions: self.highlight_regions,
        }
    }
}

impl Default for AmazonsGame {
    /// The session a front end starts with.
    fn default() -> (session: AmazonsGame)
        ensures
            session.wf(),
            session@ == SessionModel::initial(),
    {
        AmazonsGame {
            board_height: 10,
            board_width: 10,
            white_amazons: 4,
            black_amazons: 4,
            white_starting: Vec::new(),
            black_starting: Vec::new(),
            state: ClickableState::Idle,
            game: GameState::standard(),
            white_squares: 0,
            black_squares: 0,
            highlight_regions: false,
        }
    }
}

impl AmazonsGame {
    /// The game is well formed and the board of the settings can be built.
    pub closed spec fn wf(&self) -> bool {
        &&& self.game.wf()
        &&& self.board_width * self.board_height <= usize::MAX
    }

    /// A session with the given settings, open, and the customary layout on
    /// the board; `None` where a board of that size cannot be built.
    pub fn with_settings(
        board_width: u32,
        board_height: u32,
        white_amazons: u32,
        black_amazons: u32,
        white_starting: Vec<Coordinate>,
        black_starting: Vec<Coordinate>,
    ) -> (session: Option<AmazonsGame>)
        ensures
            session is Some <==> board_width * board_height <= usize::MAX,
            session matches Some(built) ==> built.wf() && built@ == (SessionModel {
                board_width,
                board_height,
                white_amazons,
                black_amazons,
                white_starting: white_starting@,
                black_starting: black_starting@,
                ..SessionModel::initial()
            }),
    {
        assert(board_width * board_height <= u64::MAX) by (nonlinear_arith)
            requires
                board_width <= 0xffff_ffff,
                board_height <= 0xffff_ffff,
        ;
        let cells: u64 = (board_width as u64) * (board_height as u64);
        if cells > usize::MAX as u64 {
            return None;
        }
        Some(
            AmazonsGame {
                board_height,
                board_width,
                white_amazons,
                black_amazons,
                white_starting,
                black_starting,
                state: ClickableState::Idle,
                game: GameState::standard(),
                white_squares: 0,
                black_squares: 0,
                highlight_regions: false,
            },
        )
    }

    /// What a click means at the moment.
    pub fn state(&self) -> (state: ClickableState)
        ensures
            state == self@.state,
    {
        self.state
    }

    /// The game last started.
    pub fn game(&self) -> (game: &GameState)
        requires
            self.wf(),
        ensures
            game.wf(),
            game@ == self@.game,
    {
        &self.game
    }

    /// The number of columns of the next game's board.
    pub fn board_width(&self) -> (width: u32)
        ensures
            width == self@.board_width,
    {
        self.board_width
    }

    /// The number of rows of the next game's board.
    pub fn board_height(&self) -> (height: u32)
        ensures
            height == self@.board_height,
    {
        self.board_height
    }

    /// The number of amazons White starts with.
    pub fn white_amazons(&self) -> (count: u32)
        ensures
            count == self@.white_amazons,
    {
        self.white_amazons
    }

    /// The number of amazons Black starts with.
    pub fn black_amazons(&self) -> (count: u32)
        ensures
            count == self@.black_amazons,
    {
        self.black_amazons
    }

    /// The starting squares chosen for White.
    pub fn white_starting(&self) -> (squares: &Vec<Coordinate>)
        ensures
            squares@ == self@.white_starting,
    {
        &self.white_starting
    }

    /// The starting squares chosen for Black.
    pub fn black_starting(&self) -> (squares: &Vec<Coordinate>)
        ensures
            squares@ == self@.black_starting,
    {
        &self.black_starting
    }

    /// The squares White controlled when territory last decided a game.
    pub fn white_squares(&self) -> (count: usize)
        ensures
            count == self@.white_squares,
    {
        self.white_squares
    }

    /// The squares Black controlled when territory last decided a game.
    pub fn black_squares(&self) -> (count: usize)
        ensures
            count == self@.black_squares,
    {
        self.black_squares
    }

    /// Whether the controlled regions are worth showing.
    pub fn highlight_regions(&self) -> (shown: bool)
        ensures
            shown == self@.highlight_regions,
    {
        self.highlight_regions
    }

    /// Changes the size of the next game's board and the number of amazons a
    /// side starts with, while the settings are open and a board of that size
    /// can be built. Says whether the change was made.
    pub fn configure(
        &mut self,
        board_width: u32,
        board_height: u32,
        white_amazons: u32,
        black_amazons: u32,
    ) -> (changed: bool)
        requires
            old(self).wf(),
        ensures
            final(self).wf(),
            changed == (old(self)@.state == ClickableState::Idle && board_width * board_height
                <= usize::MAX),
            final(self)@ == (if changed {
                SessionModel {
                    board_width,
                    board_height,
                    white_amazons,
                    black_amazons,
                    ..old(self)@
                }
            } else {
                old(self)@
            }),
    {
        assert(board_width * board_height <= u64::MAX) by (nonlinear_arith)
            requires
                board_width <= 0xffff_ffff,
                board_height <= 0xffff_ffff,
        ;
        let cells: u64 = (board_width as u64) * (board_height as u64);
        if self.state != ClickableState::Idle || cells > usize::MAX as u64 {
            return false;
        }
        self.board_width = board_width;
        self.board_height = board_height;
        self.white_amazons = white_amazons;
        self.black_amazons = black_amazons;
        true
    }

    /// Whether the settings are the ones a session starts with.
    pub fn is_empty_config(&self) -> (untouched: bool)
        ensures
            untouched == self@.is_empty_config(),
    {
        self.white_starting.len() == 0 && self.white_amazons == 4 && self.black_starting.len()
            == 0 && self.black_amazons == 4 && self.board_width == 10 && self.board_height == 10
    }

    /// Checks the settings and names their fault, if they have one.
    pub fn config_is_valid(&self) -> (result: Result<(), ConfigError>)
        ensures
            result == (match self@.fault() {
                Some(fault) => Err::<(), ConfigError>(fault),
                None => Ok::<(), ConfigError>(()),
            }),
    {
        if self.is_empty_config() {
            return Ok(());
        }
        validate_config(
            self.board_width,
            self.board_height,
            self.white_amazons,
            self.black_amazons,
            &self.white_starting,
            &self.black_starting,
        )
    }

    /// Starts a new game from the settings, or reports why they are refused.
    pub fn new_game(&mut self)
        requires
            old(self).wf(),
        ensures
            final(self).wf(),
            final(self)@ == old(self)@.new_game(),
    {
        match self.config_is_valid() {
            Err(fault) => {
                self.state = ClickableState::InvalidConfig(fault);
            },
            Ok(()) => {
                if self.is_empty_config() {
                    self.game = GameState::standard();
                } else {
                    proof {
                        lemma_sound_config(
                            self.board_width as nat,
                            self.board_height as nat,
                            self.white_amazons as nat,
                            self.black_amazons as nat,
                            self.white_starting@,
                            self.black_starting@,
                        );
                    }
                    let board = lay_out(
                        self.board_width,
                        self.board_height,
                        &self.white_starting,
                        &self.black_starting,
                    );
                    self.game = GameState::with_board(board, Player::White);
                }
                self.state = ClickableState::GameInProgress;
            },
        }
    }

    /// Records how the game stands once a turn is complete.
    fn settle(&mut self)
        requires
            old(self).wf(),
        ensures
            final(self).wf(),
            final(self)@ == old(self)@.settle(),
    {
        match self.game.evaluate_outcome() {
            Outcome::InProgress => {},
            Outcome::Winner(winner) => {
                self.state = ClickableState::GameOver(winner);
                self.highlight_regions = false;
            },
            Outcome::WinnerWithCounts(winner, white, black) => {
                self.state = ClickableState::GameOver(winner);
                self.highlight_regions = true;
                self.white_squares = white;
                self.black_squares = black;
            },
        }
    }

    /// Takes a click on the square at `c`. During a game the verdict on the
    /// selection comes back; at other times nothing does.
    pub fn click(&mut self, c: Coordinate) -> (transition: Option<Transition>)
        requires
            old(self).wf(),
        ensures
            final(self).wf(),
            final(self)@ == old(self)@.click(c),
            transition == (if old(self)@.state == ClickableState::GameInProgress {
                Some(select_spec(old(self)@.game, c).1)
            } else {
                None
            }),
    {
        match self.state {
            ClickableState::GameInProgress => {
                let transition = self.game.select(c);
                if transition.phase == TurnPhase::TurnComplete {
                    self.settle();
                }
                Some(transition)
            },
            ClickableState::PickingWhite => {
                if c.x < self.board_width && c.y < self.board_height {
                    self.white_starting.push(c);
                    if self.white_starting.len() == self.white_amazons as usize {
                        self.state = ClickableState::Idle;
                    }
                }
                None
            },
            ClickableState::PickingBlack => {
                if c.x < self.board_width && c.y < self.board_height {
                    self.black_starting.push(c);
                    if self.black_starting.len() == self.black_amazons as usize {
                        self.state = ClickableState::Idle;
                    }
                }
                None
            },
            _ => None,
        }
    }

    /// Undoes the last selection: of the turn during a game, of a starting
    /// square while they are picked.
    pub fn undo_last_selection(&mut self)
        requires
            old(self).wf(),
        ensures
            final(self).wf(),
            final(self)@ == old(self)@.undo_last_selection(),
    {
        match self.state {
            ClickableState::GameInProgress => {
                let _ = self.game.step_back();
            },
            ClickableState::PickingWhite => {
                let _ = self.white_starting.pop();
                assert(old(self)@.white_starting.len() > 0 ==> self.white_starting@ =~= old(
                    self,
                )@.white_starting.drop_last());
            },
            ClickableState::PickingBlack => {
                let _ = self.black_starting.pop();
                assert(old(self)@.black_starting.len() > 0 ==> self.black_starting@ =~= old(
                    self,
                )@.black_starting.drop_last());
            },
            _ => {},
        }
    }

    /// Breaks off the game in progress and opens the settings.
    pub fn stop_game(&mut self)
        requires
            old(self).wf(),
        ensures
            final(self).wf(),
            final(self)@ == (if old(self)@.state == ClickableState::GameInProgress {
                SessionModel { state: ClickableState::Idle, ..old(self)@ }
            } else {
                old(self)@
            }),
    {
        if self.state == ClickableState::GameInProgress {
            self.state = ClickableState::Idle;
        }
    }

    /// Takes note of the end of a game, or of refused settings, and opens
    /// the settings.
    pub fn acknowledge(&mut self)
        requires
            old(self).wf(),
        ensures
            final(self).wf(),
            final(self)@ == (if old(self)@.state is GameOver || old(self)@.state is InvalidConfig {
                SessionModel { state: ClickableState::Idle, ..old(self)@ }
            } else {
                old(self)@
            }),
    {
        match self.state {
            ClickableState::GameOver(_) | ClickableState::InvalidConfig(_) => {
                self.state = ClickableState::Idle;
            },
            _ => {},
        }
    }

    /// Drops the starting squares of `player` and, from open settings, begins
    /// to pick them anew. With the settings closed nothing changes.
    pub fn pick_starting_positions(&mut self, player: Player)
        requires
            old(self).wf(),
        ensures
            final(self).wf(),
            final(self)@ == (if old(self)@.state != ClickableState::Idle {
                old(self)@
            } else if player == Player::White {
                SessionModel {
                    white_starting: Seq::empty(),
                    state: ClickableState::PickingWhite,
                    ..old(self)@
                }
            } else {
                SessionModel {
                    black_starting: Seq::empty(),
                    state: ClickableState::PickingBlack,
                    ..old(self)@
                }
            }),
    {
        if self.state != ClickableState::Idle {
            return ;
        }
        match player {
            Player::White => {
                self.white_starting = Vec::new();
                self.state = ClickableState::PickingWhite;
            },
            Player::Black => {
                self.black_starting = Vec::new();
                self.state = ClickableState::PickingBlack;
            },
        }
    }

    /// From open settings, goes back to the session a front end starts with.
    /// With the settings closed nothing changes.
    pub fn revert_to_defaults(&mut self)
        requires
            old(self).wf(),
        ensures
            final(self).wf(),
            final(self)@ == (if old(self)@.state == ClickableState::Idle {
                SessionModel::initial()
            } else {
                old(self)@
            }),
    {
        if self.state == ClickableState::Idle {
            *self = AmazonsGame::default();
        }
    }
}

} // verus!
