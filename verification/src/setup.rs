//! Starting a game: the checks on a requested layout and the grid it yields.

use vstd::prelude::*;
use crate::board::{pieces, rectangle, Board, Coordinate, Grid, Player, SquareState};

verus! {

/// Why a requested layout was refused.
#[derive(Clone, Copy, Debug, PartialEq, Eq, Structural)]
pub enum ConfigError {
    /// A side was given more or fewer starting squares than it has amazons.
    StartingCountMismatch,
    /// A starting square lies off the board.
    CoordinateOutOfBounds,
    /// A starting square of White is a starting square of Black too.
    OverlappingStartingPosition,
}

/// Whether a starting square of White cannot be used: it lies off the board,
/// or Black starts there too.
pub open spec fn white_fault(width: nat, height: nat, black: Seq<Coordinate>, c: Coordinate)
    -> bool {
    !rectangle(width, height).contains(c) || black.contains(c)
}

/// Whether `white[i]` is the first starting square of White that cannot be used.
pub open spec fn is_first_white_fault(
    width: nat,
    height: nat,
    white: Seq<Coordinate>,
    black: Seq<Coordinate>,
    i: int,
) -> bool {
    &&& 0 <= i < white.len()
    &&& white_fault(width, height, black, white[i])
    &&& forall|j: int| 0 <= j < i ==> !white_fault(width, height, black, #[trigger] white[j])
}

/// The fault of a requested layout, or `None` where it has none. The counts
/// are compared first. Then the starting squares of White are taken in order,
/// and the first that cannot be used decides: off the board, or else shared
/// with Black. The starting squares of Black are checked against the board last.
pub open spec fn config_fault(
    width: nat,
    height: nat,
    white_count: nat,
    black_count: nat,
    white: Seq<Coordinate>,
    black: Seq<Coordinate>,
) -> Option<ConfigError> {
    if white.len() != white_count || black.len() != black_count {
        Some(ConfigError::StartingCountMismatch)
    } else if exists|i: int| is_first_white_fault(width, height, white, black, i) {
        let i = choose|i: int| is_first_white_fault(width, height, white, black, i);
        if !rectangle(width, height).contains(white[i]) {
            Some(ConfigError::CoordinateOutOfBounds)
        } else {
            Some(ConfigError::OverlappingStartingPosition)
        }
    } else if exists|j: int|
        0 <= j < black.len() && !rectangle(width, height).contains(#[trigger] black[j]) {
        Some(ConfigError::CoordinateOutOfBounds)
    } else {
        None
    }
}

/// A layout without fault has the right number of starting squares, all of
/// them on the board, and none shared between the sides.
pub proof fn lemma_sound_config(
    width: nat,
    height: nat,
    white_count: nat,
    black_count: nat,
    white: Seq<Coordinate>,
    black: Seq<Coordinate>,
)
    ensures
        config_fault(width, height, white_count, black_count, white, black) is None <==> {
            &&& white.len() == white_count
            &&& black.len() == black_count
            &&& forall|i: int|
                0 <= i < white.len() ==> rectangle(width, height).contains(#[trigger] white[i])
            &&& forall|j: int|
                0 <= j < black.len() ==> rectangle(width, height).contains(#[trigger] black[j])
            &&& forall|i: int| 0 <= i < white.len() ==> !black.contains(#[trigger] white[i])
        },
{
    if white.len() == white_count && black.len() == black_count {
        if exists|i: int| 0 <= i < white.len() && white_fault(width, height, black, white[i]) {
            let k = choose|i: int|
                0 <= i < white.len() && white_fault(width, height, black, white[i]);
            lemma_first_fault_exists(width, height, white, black, k);
        }
    }
}

/// Where some starting square of White cannot be used, one of them is the first.
proof fn lemma_first_fault_exists(
    width: nat,
    height: nat,
    white: Seq<Coordinate>,
    black: Seq<Coordinate>,
    k: int,
)
    requires
        0 <= k < white.len(),
        white_fault(width, height, black, white[k]),
    ensures
        exists|i: int| is_first_white_fault(width, height, white, black, i),
    decreases k,
{
    if exists|j: int| 0 <= j < k && white_fault(width, height, black, white[j]) {
        let j = choose|j: int| 0 <= j < k && white_fault(width, height, black, white[j]);
        lemma_first_fault_exists(width, height, white, black, j);
    } else {
        assert(is_first_white_fault(width, height, white, black, k));
    }
}

/// The grid at the start of a game: an amazon of White on each of its starting
/// squares, one of Black on each of its own, and nothing elsewhere.
pub open spec fn starting_grid(
    width: nat,
    height: nat,
    white: Seq<Coordinate>,
    black: Seq<Coordinate>,
) -> Grid {
    Map::new(
        |c: Coordinate| rectangle(width, height).contains(c),
        |c: Coordinate|
            if white.contains(c) {
                SquareState::OwnedBy(Player::White)
            } else if black.contains(c) {
                SquareState::OwnedBy(Player::Black)
            } else {
                SquareState::Empty
            },
    )
}

/// On the grid of a layout without fault each side has an amazon exactly on
/// its starting squares; where no square is listed twice for a side, each side
/// has as many amazons as the layout asked for.
pub proof fn lemma_starting_pieces(
    width: nat,
    height: nat,
    white_count: nat,
    black_count: nat,
    white: Seq<Coordinate>,
    black: Seq<Coordinate>,
)
    requires
        config_fault(width, height, white_count, black_count, white, black) is None,
    ensures
        pieces(starting_grid(width, height, white, black), Player::White) == white.to_set(),
        pieces(starting_grid(width, height, white, black), Player::Black) == black.to_set(),
        white.no_duplicates() ==> pieces(
            starting_grid(width, height, white, black),
            Player::White,
        ).len() == white_count,
        black.no_duplicates() ==> pieces(
            starting_grid(width, height, white, black),
            Player::Black,
        ).len() == black_count,
{
    let grid = starting_grid(width, height, white, black);
    lemma_sound_config(width, height, white_count, black_count, white, black);
    assert forall|c: Coordinate| white.contains(c) implies rectangle(width, height).contains(
        c,
    ) && !black.contains(c) by {
        let i = choose|i: int| 0 <= i < white.len() && white[i] == c;
        assert(rectangle(width, height).contains(white[i]) && !black.contains(white[i]));
    }
    assert forall|c: Coordinate| black.contains(c) implies rectangle(width, height).contains(
        c,
    ) by {
        let j = choose|j: int| 0 <= j < black.len() && black[j] == c;
        assert(rectangle(width, height).contains(black[j]));
    }
    assert(pieces(grid, Player::White) =~= white.to_set());
    assert(pieces(grid, Player::Black) =~= black.to_set());
    if white.no_duplicates() {
        white.unique_seq_to_set();
    }
    if black.no_duplicates() {
        black.unique_seq_to_set();
    }
}

/// The starting squares of White in the customary layout, on a board of ten by ten.
pub open spec fn standard_white() -> Seq<Coordinate> {
    seq![
        Coordinate { x: 0, y: 3 },
        Coordinate { x: 3, y: 0 },
        Coordinate { x: 6, y: 0 },
        Coordinate { x: 9, y: 3 },
    ]
}

/// The starting squares of Black in the customary layout, on a board of ten by ten.
pub open spec fn standard_black() -> Seq<Coordinate> {
    seq![
        Coordinate { x: 0, y: 6 },
        Coordinate { x: 3, y: 9 },
        Coordinate { x: 6, y: 9 },
        Coordinate { x: 9, y: 6 },
    ]
}

/// The grid of the customary layout: four amazons a side on ten by ten.
pub open spec fn standard_grid() -> Grid {
    starting_grid(10, 10, standard_white(), standard_black())
}

/// Whether the square is among those listed.
fn holds(squares: &Vec<Coordinate>, c: Coordinate) -> (found: bool)
    ensures
        found == squares@.contains(c),
{
    let mut i: usize = 0;
    while i < squares.len()
        invariant
            i <= squares@.len(),
            forall|j: int| 0 <= j < i ==> squares@[j] != c,
        decreases squares@.len() - i,
    {
        if squares[i] == c {
            return true;
        }
        i += 1;
    }
    false
}

/// Checks a requested layout and names its fault, if it has one.
pub fn validate_config(
    board_width: u32,
    board_height: u32,
    white_count: u32,
    black_count: u32,
    white_start: &Vec<Coordinate>,
    black_start: &Vec<Coordinate>,
) -> (result: Result<(), ConfigError>)
    ensures
        result == (match config_fault(
            board_width as nat,
            board_height as nat,
            white_count as nat,
            black_count as nat,
            white_start@,
            black_start@,
        ) {
            Some(fault) => Err::<(), ConfigError>(fault),
            None => Ok::<(), ConfigError>(()),
        }),
{
    let ghost width = board_width as nat;
    let ghost height = board_height as nat;
    if white_start.len() != white_count as usize || black_start.len() != black_count as usize {
        return Err(ConfigError::StartingCountMismatch);
    }
    let mut i: usize = 0;
    while i < white_start.len()
        invariant
            i <= white_start@.len(),
            width == board_width,
            height == board_height,
            white_start@.len() == white_count,
            black_start@.len() == black_count,
            forall|j: int|
                0 <= j < i ==> !white_fault(width, height, black_start@, #[trigger] white_start@[j]),
        decreases white_start@.len() - i,
    {
        let c = white_start[i];
        let off_board = !(c.x < board_width && c.y < board_height);
        if off_board || holds(black_start, c) {
            proof {
                assert(is_first_white_fault(width, height, white_start@, black_start@, i as int));
                let k = choose|k: int|
                    is_first_white_fault(width, height, white_start@, black_start@, k);
                assert(k == i) by {
                    if k < i {
                        assert(!white_fault(width, height, black_start@, white_start@[k]));
                    }
                    if i < k {
                        assert(!white_fault(width, height, black_start@, white_start@[i as int]));
                    }
                }
            }
            if off_board {
                return Err(ConfigError::CoordinateOutOfBounds);
            }
            return Err(ConfigError::OverlappingStartingPosition);
        }
        i += 1;
    }
    let mut j: usize = 0;
    while j < black_start.len()
        invariant
            j <= black_start@.len(),
            width == board_width,
            height == board_height,
            white_start@.len() == white_count,
            black_start@.len() == black_count,
            forall|k: int|
                0 <= k < white_start@.len() ==> !white_fault(
                    width,
                    height,
                    black_start@,
                    #[trigger] white_start@[k],
                ),
            forall|k: int|
                0 <= k < j ==> rectangle(width, height).contains(#[trigger] black_start@[k]),
        decreases black_start@.len() - j,
    {
        let c = black_start[j];
        if !(c.x < board_width && c.y < board_height) {
            return Err(ConfigError::CoordinateOutOfBounds);
        }
        j += 1;
    }
    Ok(())
}

/// Puts an amazon of `owner` on each listed square of an otherwise untouched board.
fn place(board: &mut Board, squares: &Vec<Coordinate>, owner: Player)
    requires
        old(board).wf(),
        forall|i: int| 0 <= i < squares@.len() ==> old(board)@.dom().contains(#[trigger] squares@[i]),
    ensures
        final(board).wf(),
        final(board).spec_width() == old(board).spec_width(),
        final(board).spec_height() == old(board).spec_height(),
        final(board)@ == Map::new(
            |c: Coordinate| old(board)@.dom().contains(c),
            |c: Coordinate|
                if squares@.contains(c) {
                    SquareState::OwnedBy(owner)
                } else {
                    old(board)@[c]
                },
        ),
{
    let ghost before = board@;
    let mut i: usize = 0;
    while i < squares.len()
        invariant
            i <= squares@.len(),
            board.wf(),
            board.spec_width() == old(board).spec_width(),
            board.spec_height() == old(board).spec_height(),
            before == old(board)@,
            forall|k: int| 0 <= k < squares@.len() ==> before.dom().contains(#[trigger] squares@[k]),
            board@ == Map::new(
                |c: Coordinate| before.dom().contains(c),
                |c: Coordinate|
                    if squares@.take(i as int).contains(c) {
                        SquareState::OwnedBy(owner)
                    } else {
                        before[c]
                    },
            ),
        decreases squares@.len() - i,
    {
        let ghost placed = squares@.take(i as int);
        let c = squares[i];
        let _ = board.set_state(c, SquareState::OwnedBy(owner));
        proof {
            let next = squares@.take(i + 1);
            assert(next =~= placed.push(c));
            assert forall|d: Coordinate| next.contains(d) <==> placed.contains(d) || d == c by {
                if placed.contains(d) {
                    let k = choose|k: int| 0 <= k < placed.len() && placed[k] == d;
                    assert(next[k] == d);
                }
                assert(next[i as int] == c);
            }
            assert(board@ =~= Map::new(
                |d: Coordinate| before.dom().contains(d),
                |d: Coordinate|
                    if next.contains(d) {
                        SquareState::OwnedBy(owner)
                    } else {
                        before[d]
                    },
            ));
        }
        i += 1;
    }
    assert(squares@.take(i as int) =~= squares@);
}

/// Builds the board of a layout that has no fault.
pub(crate) fn lay_out(
    board_width: u32,
    board_height: u32,
    white_start: &Vec<Coordinate>,
    black_start: &Vec<Coordinate>,
) -> (board: Board)
    requires
        board_width * board_height <= usize::MAX,
        config_fault(
            board_width as nat,
            board_height as nat,
            white_start@.len(),
            black_start@.len(),
            white_start@,
            black_start@,
        ) is None,
    ensures
        board.wf(),
        board.spec_width() == board_width,
        board.spec_height() == board_height,
        board@ == starting_grid(
            board_width as nat,
            board_height as nat,
            white_start@,
            black_start@,
        ),
{
    proof {
        lemma_sound_config(
            board_width as nat,
            board_height as nat,
            white_start@.len(),
            black_start@.len(),
            white_start@,
            black_start@,
        );
    }
    let mut board = Board::new(board_width, board_height);
    place(&mut board, black_start, Player::Black);
    place(&mut board, white_start, Player::White);
    assert(board@ =~= starting_grid(
        board_width as nat,
        board_height as nat,
        white_start@,
        black_start@,
    ));
    board
}

} // verus!
