//! Queen lines: the one rule that decides whether a square can be reached from
//! another, shared by the movement of amazons and the flight of arrows.

use vstd::prelude::*;
use crate::board::{Board, Coordinate, Grid, SquareState};

verus! {

/// The verdict on a selection, a move or a shot.
#[derive(Clone, Copy, Debug, PartialEq, Eq, Structural)]
pub enum LegalityResult {
    /// Nothing stands against it.
    Legal,
    /// A coordinate names no square of the board.
    OutOfBounds,
    /// The two squares share no row, column or diagonal.
    NotAStraightLine,
    /// A square strictly between the two is not empty.
    PathObstructed,
    /// The target square is not empty.
    DestinationOccupied,
    /// Origin and target are the same square.
    SameSquare,
    /// The origin does not hold an amazon of the side to move.
    WrongOwner,
}

/// The distance between two columns, or two rows.
pub open spec fn spec_gap(p: u32, q: u32) -> int {
    if p >= q {
        p - q
    } else {
        q - p
    }
}

/// Whether two squares share a row, a column or a diagonal.
pub open spec fn on_queen_line(a: Coordinate, b: Coordinate) -> bool {
    a.x == b.x || a.y == b.y || spec_gap(a.x, b.x) == spec_gap(a.y, b.y)
}

/// The number of steps a queen takes from `a` to reach `b` on their common line.
pub open spec fn line_length(a: Coordinate, b: Coordinate) -> int {
    if spec_gap(a.x, b.x) >= spec_gap(a.y, b.y) {
        spec_gap(a.x, b.x)
    } else {
        spec_gap(a.y, b.y)
    }
}

/// The column, or row, reached after `k` steps from `p` in the direction of `q`.
pub open spec fn toward(p: u32, q: u32, k: int) -> int {
    if q > p {
        p + k
    } else if q < p {
        p - k
    } else {
        p as int
    }
}

/// The square reached after `k` steps from `a` in the direction of `b`.
pub open spec fn line_square(a: Coordinate, b: Coordinate, k: int) -> Coordinate {
    Coordinate { x: toward(a.x, b.x, k) as u32, y: toward(a.y, b.y, k) as u32 }
}

/// Whether `c` is a square of the grid and holds nothing.
pub open spec fn is_empty_at(grid: Grid, c: Coordinate) -> bool {
    grid.dom().contains(c) && grid[c] == SquareState::Empty
}

/// Whether every square strictly between `a` and `b` is empty.
pub open spec fn path_clear(grid: Grid, a: Coordinate, b: Coordinate) -> bool {
    forall|k: int| 0 < k < line_length(a, b) ==> is_empty_at(grid, #[trigger] line_square(a, b, k))
}

/// The verdict on travelling from `from` to `to`. The state of `from` itself is
/// never consulted: whatever stands there is the traveller, not an obstacle.
pub open spec fn trace_spec(grid: Grid, from: Coordinate, to: Coordinate) -> LegalityResult {
    if !grid.dom().contains(from) || !grid.dom().contains(to) {
        LegalityResult::OutOfBounds
    } else if from == to {
        LegalityResult::SameSquare
    } else if !on_queen_line(from, to) {
        LegalityResult::NotAStraightLine
    } else if !path_clear(grid, from, to) {
        LegalityResult::PathObstructed
    } else if grid[to] != SquareState::Empty {
        LegalityResult::DestinationOccupied
    } else {
        LegalityResult::Legal
    }
}

/// Walking `k` steps from `b` toward `a` ends on the square that lies `k`
/// steps short of `b` when walking from `a`.
pub proof fn lemma_line_square_reversed(a: Coordinate, b: Coordinate, k: int)
    requires
        on_queen_line(a, b),
        0 <= k <= line_length(a, b),
    ensures
        line_length(b, a) == line_length(a, b),
        line_square(b, a, k) == line_square(a, b, line_length(a, b) - k),
{
}

/// Whether a line is clear does not depend on the end from which it is walked.
pub proof fn lemma_path_clear_symmetric(grid: Grid, a: Coordinate, b: Coordinate)
    requires
        on_queen_line(a, b),
    ensures
        path_clear(grid, a, b) == path_clear(grid, b, a),
{
    let n = line_length(a, b);
    if path_clear(grid, a, b) {
        assert forall|k: int| 0 < k < line_length(b, a) implies is_empty_at(
            grid,
            #[trigger] line_square(b, a, k),
        ) by {
            lemma_line_square_reversed(a, b, k);
            assert(is_empty_at(grid, line_square(a, b, n - k)));
        }
    }
    if path_clear(grid, b, a) {
        assert forall|k: int| 0 < k < line_length(a, b) implies is_empty_at(
            grid,
            #[trigger] line_square(a, b, k),
        ) by {
            lemma_line_square_reversed(b, a, k);
            assert(is_empty_at(grid, line_square(b, a, n - k)));
        }
    }
}

/// A legal line can be travelled back: once the traveller's own square is
/// taken as empty, the way from the target to the origin is legal too.
pub proof fn lemma_trace_reversible(grid: Grid, from: Coordinate, to: Coordinate)
    requires
        trace_spec(grid, from, to) == LegalityResult::Legal,
    ensures
        trace_spec(grid.insert(from, SquareState::Empty), to, from) == LegalityResult::Legal,
{
    let cleared = grid.insert(from, SquareState::Empty);
    lemma_path_clear_symmetric(grid, from, to);
    assert forall|k: int| 0 < k < line_length(to, from) implies is_empty_at(
        cleared,
        #[trigger] line_square(to, from, k),
    ) by {
        assert(is_empty_at(grid, line_square(to, from, k)));
    }
}

/// The distance between two columns, or two rows.
fn gap(p: u32, q: u32) -> (d: u32)
    ensures
        d == spec_gap(p, q),
{
    if p >= q {
        p - q
    } else {
        q - p
    }
}

/// The square `k` steps from `a` toward `b`, for a `k` that does not overshoot.
fn step_toward(a: Coordinate, b: Coordinate, k: u32) -> (c: Coordinate)
    requires
        on_queen_line(a, b),
        k <= line_length(a, b),
    ensures
        c == line_square(a, b, k as int),
        a.x <= b.x ==> a.x <= c.x <= b.x,
        a.x >= b.x ==> a.x >= c.x >= b.x,
        a.y <= b.y ==> a.y <= c.y <= b.y,
        a.y >= b.y ==> a.y >= c.y >= b.y,
{
    let x: u32 = if b.x > a.x {
        a.x + k
    } else if b.x < a.x {
        a.x - k
    } else {
        a.x
    };
    let y: u32 = if b.y > a.y {
        a.y + k
    } else if b.y < a.y {
        a.y - k
    } else {
        a.y
    };
    Coordinate { x, y }
}

/// Decides whether `to` can be reached from `from` in one queen move: both on
/// the board, distinct, on a common row, column or diagonal, with every square
/// strictly between them empty and `to` itself empty. The first of these
/// that fails, in this order, names the verdict.
pub fn trace(board: &Board, from: Coordinate, to: Coordinate) -> (verdict: LegalityResult)
    requires
        board.wf(),
    ensures
        verdict == trace_spec(board@, from, to),
{
    if !board.in_bounds(from) || !board.in_bounds(to) {
        return LegalityResult::OutOfBounds;
    }
    if from == to {
        return LegalityResult::SameSquare;
    }
    let gap_x: u32 = gap(from.x, to.x);
    let gap_y: u32 = gap(from.y, to.y);
    if !(gap_x == 0 || gap_y == 0 || gap_x == gap_y) {
        return LegalityResult::NotAStraightLine;
    }
    let length: u32 = if gap_x >= gap_y {
        gap_x
    } else {
        gap_y
    };
    proof {
        board.lemma_domain();
    }
    let mut k: u32 = 1;
    while k < length
        invariant
            board.wf(),
            board@.dom() == board.squares(),
            board@.dom().contains(from),
            board@.dom().contains(to),
            on_queen_line(from, to),
            length == line_length(from, to),
            1 <= k <= length,
            forall|j: int| 0 < j < k ==> is_empty_at(board@, #[trigger] line_square(from, to, j)),
        decreases length - k,
    {
        let c = step_toward(from, to, k);
        assert(board@.dom().contains(c));
        if board.square(c) != SquareState::Empty {
            assert(!is_empty_at(board@, line_square(from, to, k as int)));
            return LegalityResult::PathObstructed;
        }
        k += 1;
    }
    if board.square(to) != SquareState::Empty {
        return LegalityResult::DestinationOccupied;
    }
    LegalityResult::Legal
}

} // verus!
