//! Moving an amazon and shooting an arrow: the checks that precede each and
//! the changes each makes to the board.

use vstd::prelude::*;
use crate::board::{arrows, pieces, Board, BoardError, Coordinate, Grid, Player, SquareState};
use crate::line::{
    is_empty_at, lemma_path_clear_symmetric, line_length, line_square, trace, trace_spec,
    LegalityResult,
};

verus! {

/// The verdict on picking `c` as the origin of a move by `mover`: the square
/// must lie on the board and hold one of the mover's amazons.
pub open spec fn source_verdict(grid: Grid, mover: Player, c: Coordinate) -> LegalityResult {
    if !grid.dom().contains(c) {
        LegalityResult::OutOfBounds
    } else if grid[c] != SquareState::OwnedBy(mover) {
        LegalityResult::WrongOwner
    } else {
        LegalityResult::Legal
    }
}

/// The verdict on `mover` moving an amazon from `src` to `dst`: the origin is
/// judged first, then the line between the two squares.
pub open spec fn validate_move_spec(
    grid: Grid,
    mover: Player,
    src: Coordinate,
    dst: Coordinate,
) -> LegalityResult {
    if source_verdict(grid, mover, src) != LegalityResult::Legal {
        source_verdict(grid, mover, src)
    } else {
        trace_spec(grid, src, dst)
    }
}

/// The verdict on an arrow shot by the amazon on `from` at `target`.
pub open spec fn validate_shot_spec(grid: Grid, from: Coordinate, target: Coordinate)
    -> LegalityResult {
    trace_spec(grid, from, target)
}

/// The grid after whatever stands on `src` has been carried to `dst`: `src` is
/// emptied first, then `dst` receives what `src` held. With either square off
/// the board the grid stays as it is.
pub open spec fn apply_move_spec(grid: Grid, src: Coordinate, dst: Coordinate) -> Grid {
    if grid.dom().contains(src) && grid.dom().contains(dst) {
        grid.insert(src, SquareState::Empty).insert(dst, grid[src])
    } else {
        grid
    }
}

/// The grid after an arrow has landed on `target`. Off the board the grid
/// stays as it is.
pub open spec fn apply_shot_spec(grid: Grid, target: Coordinate) -> Grid {
    if grid.dom().contains(target) {
        grid.insert(target, SquareState::Arrow)
    } else {
        grid
    }
}

/// Moving there and back again restores every square, provided the
/// destination was empty or is the origin itself.
pub proof fn lemma_move_round_trip(grid: Grid, src: Coordinate, dst: Coordinate)
    requires
        grid.dom().contains(src) && grid.dom().contains(dst) ==> grid[dst] == SquareState::Empty
            || src == dst,
    ensures
        apply_move_spec(apply_move_spec(grid, src, dst), dst, src) == grid,
{
    assert(apply_move_spec(apply_move_spec(grid, src, dst), dst, src) =~= grid);
}

/// A legal move relocates one amazon: neither side gains or loses a piece, and
/// the arrows stay where they are.
pub proof fn lemma_move_keeps_counts(
    grid: Grid,
    mover: Player,
    src: Coordinate,
    dst: Coordinate,
    player: Player,
)
    requires
        grid.dom().finite(),
        validate_move_spec(grid, mover, src, dst) == LegalityResult::Legal,
    ensures
        pieces(apply_move_spec(grid, src, dst), player).len() == pieces(grid, player).len(),
        arrows(apply_move_spec(grid, src, dst)) == arrows(grid),
{
    let after = apply_move_spec(grid, src, dst);
    assert(pieces(grid, player).subset_of(grid.dom()));
    vstd::set_lib::lemma_set_subset_finite(grid.dom(), pieces(grid, player));
    assert(arrows(after) =~= arrows(grid));
    if player == mover {
        assert(pieces(after, player) =~= pieces(grid, player).remove(src).insert(dst));
    } else {
        assert(pieces(after, player) =~= pieces(grid, player));
    }
}

/// A legal shot adds one arrow and touches no amazon.
pub proof fn lemma_shot_keeps_pieces(
    grid: Grid,
    from: Coordinate,
    target: Coordinate,
    player: Player,
)
    requires
        validate_shot_spec(grid, from, target) == LegalityResult::Legal,
    ensures
        pieces(apply_shot_spec(grid, target), player) == pieces(grid, player),
        arrows(apply_shot_spec(grid, target)) == arrows(grid).insert(target),
        !arrows(grid).contains(target),
{
    let after = apply_shot_spec(grid, target);
    assert(pieces(after, player) =~= pieces(grid, player));
    assert(arrows(after) =~= arrows(grid).insert(target));
}

/// After a legal move the amazon may shoot at the square it came from.
pub proof fn lemma_shot_at_origin_is_legal(
    grid: Grid,
    mover: Player,
    src: Coordinate,
    dst: Coordinate,
)
    requires
        validate_move_spec(grid, mover, src, dst) == LegalityResult::Legal,
    ensures
        validate_shot_spec(apply_move_spec(grid, src, dst), dst, src) == LegalityResult::Legal,
{
    let after = apply_move_spec(grid, src, dst);
    lemma_path_clear_symmetric(grid, src, dst);
    assert forall|k: int| 0 < k < line_length(dst, src) implies is_empty_at(
        after,
        #[trigger] line_square(dst, src, k),
    ) by {
        assert(is_empty_at(grid, line_square(dst, src, k)));
    }
}

/// Judges a move of `mover` from `src` to `dst` without touching the board.
pub fn validate_move(board: &Board, mover: Player, src: Coordinate, dst: Coordinate) -> (verdict:
    LegalityResult)
    requires
        board.wf(),
    ensures
        verdict == validate_move_spec(board@, mover, src, dst),
{
    if !board.in_bounds(src) {
        return LegalityResult::OutOfBounds;
    }
    if board.square(src) != SquareState::OwnedBy(mover) {
        return LegalityResult::WrongOwner;
    }
    trace(board, src, dst)
}

/// Carries whatever stands on `src` to `dst` and leaves `src` empty, asking
/// nothing about legality, so that the same call serves to make a move and to
/// take it back. With either square off the board nothing changes and
/// `OutOfBounds` comes back.
pub fn apply_move(board: &mut Board, src: Coordinate, dst: Coordinate) -> (result: Result<
    (),
    BoardError,
>)
    requires
        old(board).wf(),
    ensures
        final(board).wf(),
        final(board).spec_width() == old(board).spec_width(),
        final(board).spec_height() == old(board).spec_height(),
        final(board)@ == apply_move_spec(old(board)@, src, dst),
        result == (if old(board)@.dom().contains(src) && old(board)@.dom().contains(dst) {
            Ok::<(), BoardError>(())
        } else {
            Err::<(), BoardError>(BoardError::OutOfBounds)
        }),
{
    if !board.in_bounds(src) || !board.in_bounds(dst) {
        return Err(BoardError::OutOfBounds);
    }
    let carried = board.square(src);
    let _ = board.set_state(src, SquareState::Empty);
    board.set_state(dst, carried)
}

/// Judges a shot from `from`, where the amazon now stands, at `target`.
pub fn validate_shot(board: &Board, from: Coordinate, target: Coordinate) -> (verdict:
    LegalityResult)
    requires
        board.wf(),
    ensures
        verdict == validate_shot_spec(board@, from, target),
{
    trace(board, from, target)
}

/// Lands an arrow on `target`. Off the board nothing changes and `OutOfBounds`
/// comes back.
pub fn apply_shot(board: &mut Board, target: Coordinate) -> (result: Result<(), BoardError>)
    requires
        old(board).wf(),
    ensures
        final(board).wf(),
        final(board).spec_width() == old(board).spec_width(),
        final(board).spec_height() == old(board).spec_height(),
        final(board)@ == apply_shot_spec(old(board)@, target),
        result == (if old(board)@.dom().contains(target) {
            Ok::<(), BoardError>(())
        } else {
            Err::<(), BoardError>(BoardError::OutOfBounds)
        }),
{
    board.set_state(target, SquareState::Arrow)
}

} // verus!
