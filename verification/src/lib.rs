//! Rule engine for the Game of the Amazons.
//!
//! Each side owns a number of amazons that move like chess queens. A turn
//! relocates one amazon and then fires an arrow from its new square along
//! another queen line; the arrow blocks its square for the rest of the game.
//! The engine keeps the board, decides whether a move or a shot is legal,
//! sequences the three selections of a turn, and decides the winner, by
//! stalemate or by the territory each side has walled off.
//!
//! Every function comes with a contract over a mathematical model of the
//! board: a map from coordinates to square states.
//!
//! - [`board`]: the grid of squares and its bounds-checked accessors.
//! - [`line`]: the queen-line rule that moves and shots share.
//! - [`moves`]: judging and making a move, judging and landing a shot.
//! - [`setup`]: checking a requested layout and laying it out.
//! - [`turn`]: a game and the selections that make up a turn.
//! - [`territory`]: reach, control, stalemate and the winner.
//! - [`square_set`]: the sets of squares that the territory is kept in.
//! - [`session`]: settings, picking of starting squares, play and game over,
//!   as a front end drives them.

pub mod board;
pub mod line;
pub mod moves;
pub mod session;
pub mod setup;
pub mod square_set;
pub mod territory;
pub mod turn;
