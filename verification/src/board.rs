//! The board: a fixed-size grid of square states with bounds-checked access.

use vstd::prelude::*;

verus! {

/// One of the two sides. It tags the owner of a piece and names the side to move.
#[derive(Clone, Copy, Debug, PartialEq, Eq, Structural, Hash)]
pub enum Player {
    White,
    Black,
}

impl Player {
    /// The other side.
    pub open spec fn spec_opponent(self) -> Player {
        match self {
            Player::White => Player::Black,
            Player::Black => Player::White,
        }
    }

    /// The other side.
    #[verifier::when_used_as_spec(spec_opponent)]
    pub fn opponent(self) -> (other: Player)
        ensures
            other == self.spec_opponent(),
    {
        match self {
            Player::White => Player::Black,
            Player::Black => Player::White,
        }
    }
}

/// What a square holds: nothing, an amazon of one side, or an arrow.
#[derive(Clone, Copy, Debug, PartialEq, Eq, Structural, Hash)]
pub enum SquareState {
    Empty,
    OwnedBy(Player),
    Arrow,
}

/// A square is in exactly one of the four states.
pub proof fn lemma_one_state_per_square(state: SquareState)
    ensures
        state == SquareState::Empty || state == SquareState::OwnedBy(Player::White) || state
            == SquareState::OwnedBy(Player::Black) || state == SquareState::Arrow,
        SquareState::Empty != SquareState::Arrow,
        SquareState::Empty != SquareState::OwnedBy(Player::White),
        SquareState::Empty != SquareState::OwnedBy(Player::Black),
        SquareState::Arrow != SquareState::OwnedBy(Player::White),
        SquareState::Arrow != SquareState::OwnedBy(Player::Black),
        SquareState::OwnedBy(Player::White) != SquareState::OwnedBy(Player::Black),
{
}

/// A square's position: column `x` and row `y`, both counted from zero.
#[derive(Clone, Copy, Debug, PartialEq, Eq, Structural, Hash)]
pub struct Coordinate {
    pub x: u32,
    pub y: u32,
}

/// Why the board refused an access.
#[derive(Clone, Copy, Debug, PartialEq, Eq, Structural)]
pub enum BoardError {
    /// The coordinate names no square of the board.
    OutOfBounds,
}

/// The model of a board: the state of every square, keyed by its coordinate.
pub type Grid = Map<Coordinate, SquareState>;

/// The coordinates of a board `width` columns wide and `height` rows high.
pub open spec fn rectangle(width: nat, height: nat) -> Set<Coordinate> {
    Set::new(|c: Coordinate| c.x < width && c.y < height)
}

/// The grid of a board of the given size on which nothing stands.
pub open spec fn empty_grid(width: nat, height: nat) -> Grid {
    Map::new(
        |c: Coordinate| rectangle(width, height).contains(c),
        |c: Coordinate| SquareState::Empty,
    )
}

/// The squares of row `y` that lie left of column `width`.
spec fn row_prefix(width: nat, y: u32) -> Set<Coordinate> {
    Set::new(|c: Coordinate| c.x < width && c.y == y)
}

/// A row holds finitely many squares.
proof fn lemma_row_finite(width: nat, y: u32)
    ensures
        row_prefix(width, y).finite(),
    decreases width,
{
    if width == 0 {
        assert(row_prefix(width, y) =~= Set::<Coordinate>::empty());
    } else {
        let shorter = (width - 1) as nat;
        lemma_row_finite(shorter, y);
        if shorter <= u32::MAX {
            let last = Coordinate { x: shorter as u32, y };
            assert(row_prefix(width, y) =~= row_prefix(shorter, y).insert(last));
        } else {
            assert(row_prefix(width, y) =~= row_prefix(shorter, y));
        }
    }
}

/// A board holds finitely many squares.
pub proof fn lemma_rectangle_finite(width: nat, height: nat)
    ensures
        rectangle(width, height).finite(),
    decreases height,
{
    if height == 0 {
        assert(rectangle(width, height) =~= Set::<Coordinate>::empty());
    } else {
        let lower = (height - 1) as nat;
        lemma_rectangle_finite(width, lower);
        if lower <= u32::MAX {
            lemma_row_finite(width, lower as u32);
            assert(rectangle(width, height) =~= rectangle(width, lower).union(
                row_prefix(width, lower as u32),
            ));
        } else {
            assert(rectangle(width, height) =~= rectangle(width, lower));
        }
    }
}

/// The squares on which `player` has an amazon.
pub open spec fn pieces(grid: Grid, player: Player) -> Set<Coordinate> {
    Set::new(|c: Coordinate| grid.dom().contains(c) && grid[c] == SquareState::OwnedBy(player))
}

/// The squares that hold an arrow.
pub open spec fn arrows(grid: Grid) -> Set<Coordinate> {
    Set::new(|c: Coordinate| grid.dom().contains(c) && grid[c] == SquareState::Arrow)
}

/// Row-major position of a square in the cell vector.
pub(crate) open spec fn cell_index(width: nat, c: Coordinate) -> int {
    c.y * width + c.x
}

/// A square inside the rectangle has its cell inside the vector.
pub(crate) proof fn lemma_cell_index_in_range(width: nat, height: nat, c: Coordinate)
    requires
        c.x < width,
        c.y < height,
    ensures
        0 <= cell_index(width, c) < width * height,
{
    assert(c.y * width + c.x < width * height) by (nonlinear_arith)
        requires
            c.x < width,
            (c.y as int) + 1 <= height,
    {
        assert((c.y + 1) * width <= height * width);
    }
}

/// Two different squares of one board never share a cell.
pub(crate) proof fn lemma_cell_index_injective(width: nat, a: Coordinate, b: Coordinate)
    requires
        a.x < width,
        b.x < width,
        cell_index(width, a) == cell_index(width, b),
    ensures
        a == b,
{
    assert(a.y == b.y) by (nonlinear_arith)
        requires
            a.x < width,
            b.x < width,
            a.y * width + a.x == b.y * width + b.x,
    {
        if a.y < b.y {
            assert((a.y + 1) * width <= b.y * width);
        } else if b.y < a.y {
            assert((b.y + 1) * width <= a.y * width);
        }
    }
}

/// The position in a row-major cell vector of a square inside the rectangle.
pub(crate) fn cell_offset(width: u32, height: u32, c: Coordinate) -> (offset: usize)
    requires
        c.x < width,
        c.y < height,
        width * height <= usize::MAX,
    ensures
        offset == cell_index(width as nat, c),
        offset < width * height,
{
    proof {
        lemma_cell_index_in_range(width as nat, height as nat, c);
        assert(0 <= c.y * width <= cell_index(width as nat, c)) by (nonlinear_arith);
    }
    let row_start: usize = (c.y as usize) * (width as usize);
    row_start + c.x as usize
}

/// A rectangular grid of squares.
#[derive(Clone, Debug)]
pub struct Board {
    width: u32,
    height: u32,
    cells: Vec<SquareState>,
}

impl View for Board {
    type V = Grid;

    /// The state of every square of the board.
    closed spec fn view(&self) -> Grid {
        Map::new(
            |c: Coordinate| c.x < self.width && c.y < self.height,
            |c: Coordinate| self.cells@[cell_index(self.width as nat, c)],
        )
    }
}

impl Board {
    /// The number of columns.
    pub closed spec fn spec_width(&self) -> nat {
        self.width as nat
    }

    /// The number of rows.
    pub closed spec fn spec_height(&self) -> nat {
        self.height as nat
    }

    /// The board holds exactly one cell for each of its squares.
    pub closed spec fn wf(&self) -> bool {
        &&& self.cells@.len() == self.width * self.height
        &&& self.width * self.height <= usize::MAX
    }

    /// The coordinates of the board's squares.
    pub open spec fn squares(&self) -> Set<Coordinate> {
        rectangle(self.spec_width(), self.spec_height())
    }

    /// The model covers the squares of the board's rectangle and no others.
    pub proof fn lemma_domain(&self)
        ensures
            self@.dom() == self.squares(),
            self@.dom().finite(),
    {
        assert(self@.dom() =~= self.squares());
        lemma_rectangle_finite(self.spec_width(), self.spec_height());
    }

    /// The cells of a board can be counted in a machine word.
    pub proof fn lemma_size(&self)
        requires
            self.wf(),
        ensures
            self.spec_width() * self.spec_height() <= usize::MAX,
    {
    }

    /// An empty board of the given size.
    pub fn new(width: u32, height: u32) -> (board: Board)
        requires
            width * height <= usize::MAX,
        ensures
            board.wf(),
            board.spec_width() == width,
            board.spec_height() == height,
            board@ == empty_grid(width as nat, height as nat),
    {
        let total: usize = (width as usize) * (height as usize);
        let mut cells: Vec<SquareState> = Vec::new();
        let mut filled: usize = 0;
        while filled < total
            invariant
                filled <= total,
                cells@.len() == filled,
                forall|i: int| 0 <= i < filled ==> cells@[i] == SquareState::Empty,
            decreases total - filled,
        {
            cells.push(SquareState::Empty);
            filled += 1;
        }
        let board = Board { width, height, cells };
        proof {
            assert forall|c: Coordinate| c.x < width && c.y < height implies board.cells@[cell_index(
                width as nat,
                c,
            )] == SquareState::Empty by {
                lemma_cell_index_in_range(width as nat, height as nat, c);
            }
            assert(board@ =~= empty_grid(width as nat, height as nat));
        }
        board
    }

    /// The number of columns.
    pub fn width(&self) -> (w: u32)
        ensures
            w == self.spec_width(),
    {
        self.width
    }

    /// The number of rows.
    pub fn height(&self) -> (h: u32)
        ensures
            h == self.spec_height(),
    {
        self.height
    }

    /// Whether the coordinate names a square of the board.
    pub fn in_bounds(&self, c: Coordinate) -> (inside: bool)
        ensures
            inside == self@.dom().contains(c),
            inside == (c.x < self.spec_width() && c.y < self.spec_height()),
    {
        c.x < self.width && c.y < self.height
    }

    /// The state of a square that is known to lie on the board.
    pub(crate) fn square(&self, c: Coordinate) -> (state: SquareState)
        requires
            self.wf(),
            self@.dom().contains(c),
        ensures
            state == self@[c],
    {
        self.cells[cell_offset(self.width, self.height, c)]
    }

    /// The state of the square at `c`, or `OutOfBounds` where the board has no such square.
    pub fn state_at(&self, c: Coordinate) -> (result: Result<SquareState, BoardError>)
        requires
            self.wf(),
        ensures
            self@.dom().contains(c) ==> result == Ok::<SquareState, BoardError>(self@[c]),
            !self@.dom().contains(c) ==> result == Err::<SquareState, BoardError>(
                BoardError::OutOfBounds,
            ),
    {
        if self.in_bounds(c) {
            Ok(self.square(c))
        } else {
            Err(BoardError::OutOfBounds)
        }
    }

    /// Puts `state` on the square at `c` and leaves every other square as it was.
    /// Off the board nothing changes and `OutOfBounds` comes back.
    pub fn set_state(&mut self, c: Coordinate, state: SquareState) -> (result: Result<
        (),
        BoardError,
    >)
        requires
            old(self).wf(),
        ensures
            final(self).wf(),
            final(self).spec_width() == old(self).spec_width(),
            final(self).spec_height() == old(self).spec_height(),
            old(self)@.dom().contains(c) ==> result == Ok::<(), BoardError>(()) && final(self)@
                == old(self)@.insert(c, state),
            !old(self)@.dom().contains(c) ==> result == Err::<(), BoardError>(
                BoardError::OutOfBounds,
            ) && final(self)@ == old(self)@,
    {
        if !self.in_bounds(c) {
            return Err(BoardError::OutOfBounds);
        }
        let offset = cell_offset(self.width, self.height, c);
        self.cells.set(offset, state);
        proof {
            assert forall|d: Coordinate|
                d.x < self.width && d.y < self.height && d != c implies self.cells@[cell_index(
                self.width as nat,
                d,
            )] == old(self).cells@[cell_index(self.width as nat, d)] by {
                lemma_cell_index_in_range(self.width as nat, self.height as nat, d);
                if cell_index(self.width as nat, d) == cell_index(self.width as nat, c) {
                    lemma_cell_index_injective(self.width as nat, d, c);
                }
            }
            assert(self@ =~= old(self)@.insert(c, state));
        }
        Ok(())
    }
}

} // verus!
