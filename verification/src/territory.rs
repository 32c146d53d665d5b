//! Territory: which squares each side can still walk to, who controls a
//! square, whether a side can move at all, and who has won.

use vstd::prelude::*;
use crate::board::{pieces, Board, Coordinate, Grid, Player, SquareState};
use crate::line::{
    is_empty_at, line_length, line_square, spec_gap, trace, trace_spec, LegalityResult,
};
use crate::square_set::SquareSet;

verus! {

/// Who controls a square once the reach of both sides is known.
#[derive(Clone, Copy, Debug, PartialEq, Eq, Structural)]
pub enum Controller {
    /// Only amazons of White can walk there.
    White,
    /// Only amazons of Black can walk there.
    Black,
    /// Both sides can walk there, or neither can.
    Neutral,
}

/// How the game stands.
#[derive(Clone, Copy, Debug, PartialEq, Eq, Structural)]
pub enum Outcome {
    /// No winner yet.
    InProgress,
    /// The other side cannot move: this one has won.
    Winner(Player),
    /// The board is separated and territory decides: the winner, then the
    /// number of squares that White controls and the number that Black controls.
    WinnerWithCounts(Player, usize, usize),
}

/// Whether two squares touch, by a side or by a corner.
pub open spec fn adjacent(a: Coordinate, b: Coordinate) -> bool {
    a != b && spec_gap(a.x, b.x) <= 1 && spec_gap(a.y, b.y) <= 1
}

/// Whether `walk` starts on an amazon of `player` and then steps, at least
/// once, from square to touching square over empty squares only.
pub open spec fn is_walk(grid: Grid, player: Player, walk: Seq<Coordinate>) -> bool {
    &&& walk.len() >= 2
    &&& pieces(grid, player).contains(walk[0])
    &&& forall|i: int|
        1 <= i < walk.len() ==> is_empty_at(grid, #[trigger] walk[i]) && adjacent(walk[i - 1], walk[i])
}

/// Whether some amazon of `player` can walk to `c`.
pub open spec fn reachable(grid: Grid, player: Player, c: Coordinate) -> bool {
    exists|walk: Seq<Coordinate>| is_walk(grid, player, walk) && walk.last() == c
}

/// The empty squares that the amazons of `player` can walk to.
pub open spec fn reach(grid: Grid, player: Player) -> Set<Coordinate> {
    Set::new(|c: Coordinate| reachable(grid, player, c))
}

/// One more step from an amazon, or from a square that an amazon can walk to,
/// ends on a square that an amazon can walk to.
pub proof fn lemma_step_reaches(grid: Grid, player: Player, from: Coordinate, to: Coordinate)
    requires
        pieces(grid, player).contains(from) || reachable(grid, player, from),
        adjacent(from, to),
        is_empty_at(grid, to),
    ensures
        reachable(grid, player, to),
{
    if pieces(grid, player).contains(from) {
        let walk = seq![from, to];
        assert(is_walk(grid, player, walk));
        assert(walk.last() == to);
    } else {
        let walk = choose|walk: Seq<Coordinate>| is_walk(grid, player, walk) && walk.last() == from;
        let longer = walk.push(to);
        assert forall|i: int| 1 <= i < longer.len() implies is_empty_at(grid, #[trigger] longer[i])
            && adjacent(longer[i - 1], longer[i]) by {
            if i < walk.len() {
                assert(longer[i] == walk[i]);
                assert(longer[i - 1] == walk[i - 1]);
            }
        }
        assert(is_walk(grid, player, longer));
        assert(longer.last() == to);
    }
}

/// Whether a walk may pass through `s`: an amazon of `player` stands there, or
/// the square is in `reached`.
spec fn is_source(grid: Grid, player: Player, reached: Set<Coordinate>, s: Coordinate)
    -> bool {
    pieces(grid, player).contains(s) || reached.contains(s)
}

/// The place of `n` among the nine squares around `s`, row by row; `s` itself
/// has place 4.
spec fn direction(s: Coordinate, n: Coordinate) -> int {
    (n.y - s.y + 1) * 3 + (n.x - s.x + 1)
}

/// Whether every empty square that touches `s` in a direction before `d` is
/// in `reached`.
spec fn settled_before(grid: Grid, reached: Set<Coordinate>, s: Coordinate, d: int)
    -> bool {
    forall|n: Coordinate|
        #[trigger] adjacent(s, n) && is_empty_at(grid, n) && direction(s, n) < d
            ==> reached.contains(n)
}

/// Whether every empty square that touches `s` is in `reached`.
spec fn settled(grid: Grid, reached: Set<Coordinate>, s: Coordinate) -> bool {
    settled_before(grid, reached, s, 9)
}

/// Every square of a walk after the first lies in a set that is closed under
/// stepping to touching empty squares.
proof fn lemma_walk_stays_inside(
    grid: Grid,
    player: Player,
    reached: Set<Coordinate>,
    walk: Seq<Coordinate>,
    i: int,
)
    requires
        is_walk(grid, player, walk),
        forall|s: Coordinate| #[trigger]
            is_source(grid, player, reached, s) ==> settled(grid, reached, s),
        0 <= i < walk.len(),
    ensures
        is_source(grid, player, reached, walk[i]),
        i >= 1 ==> reached.contains(walk[i]),
    decreases i,
{
    if i >= 1 {
        lemma_walk_stays_inside(grid, player, reached, walk, i - 1);
        assert(settled(grid, reached, walk[i - 1]));
        assert(is_empty_at(grid, walk[i]) && adjacent(walk[i - 1], walk[i]));
        assert(direction(walk[i - 1], walk[i]) < 9);
    }
}

/// A set of reachable squares that is closed under stepping to touching empty
/// squares holds every reachable square.
proof fn lemma_closed_set_is_reach(grid: Grid, player: Player, reached: Set<Coordinate>)
    requires
        forall|c: Coordinate| reached.contains(c) ==> reachable(grid, player, c),
        forall|s: Coordinate| #[trigger]
            is_source(grid, player, reached, s) ==> settled(grid, reached, s),
    ensures
        reached == reach(grid, player),
{
    assert forall|c: Coordinate| reachable(grid, player, c) implies reached.contains(c) by {
        let walk = choose|walk: Seq<Coordinate>| is_walk(grid, player, walk) && walk.last() == c;
        lemma_walk_stays_inside(grid, player, reached, walk, walk.len() - 1);
    }
    assert(reached =~= reach(grid, player));
}

/// The square that has place `d` among the nine around `c`, unless a
/// coordinate of it cannot be written down.
fn neighbour(c: Coordinate, d: u8) -> (found: Option<Coordinate>)
    requires
        d < 9,
    ensures
        match found {
            Some(n) => n.x == c.x + d % 3 - 1 && n.y == c.y + d / 3 - 1,
            None => !(0 <= c.x + d % 3 - 1 <= u32::MAX && 0 <= c.y + d / 3 - 1 <= u32::MAX),
        },
{
    let x: u64 = c.x as u64 + (d % 3) as u64;
    let y: u64 = c.y as u64 + (d / 3) as u64;
    if x == 0 || y == 0 || x - 1 > u32::MAX as u64 || y - 1 > u32::MAX as u64 {
        None
    } else {
        Some(Coordinate { x: (x - 1) as u32, y: (y - 1) as u32 })
    }
}

/// The squares on which `player` has an amazon, found by a row-by-row scan.
fn gather_pieces(board: &Board, player: Player) -> (found: Vec<Coordinate>)
    requires
        board.wf(),
    ensures
        forall|i: int| 0 <= i < found@.len() ==> pieces(board@, player).contains(#[trigger] found@[i]),
        forall|c: Coordinate| pieces(board@, player).contains(c) ==> found@.contains(c),
{
    let width = board.width();
    let height = board.height();
    let mut found: Vec<Coordinate> = Vec::new();
    proof {
        board.lemma_domain();
    }
    let mut y: u32 = 0;
    while y < height
        invariant
            board.wf(),
            board@.dom() == board.squares(),
            width == board.spec_width(),
            height == board.spec_height(),
            y <= height,
            forall|i: int|
                0 <= i < found@.len() ==> pieces(board@, player).contains(#[trigger] found@[i]),
            forall|c: Coordinate|
                pieces(board@, player).contains(c) && c.y < y ==> found@.contains(c),
        decreases height - y,
    {
        let mut x: u32 = 0;
        while x < width
            invariant
                board.wf(),
                board@.dom() == board.squares(),
                width == board.spec_width(),
                height == board.spec_height(),
                y < height,
                x <= width,
                forall|i: int|
                    0 <= i < found@.len() ==> pieces(board@, player).contains(
                        #[trigger] found@[i],
                    ),
                forall|c: Coordinate|
                    pieces(board@, player).contains(c) && (c.y < y || (c.y == y && c.x < x))
                        ==> found@.contains(c),
            decreases width - x,
        {
            let c = Coordinate { x, y };
            let ghost found_then = found@;
            if board.square(c) == SquareState::OwnedBy(player) {
                found.push(c);
            }
            proof {
                assert forall|p: Coordinate|
                    pieces(board@, player).contains(p) && (p.y < y || (p.y == y && p.x < x + 1))
                    implies found@.contains(p) by {
                    if p == c {
                        assert(found@[found@.len() - 1] == c);
                    } else {
                        assert(p.y < y || (p.y == y && p.x < x));
                        assert(found_then.contains(p));
                        let i = choose|i: int| 0 <= i < found_then.len() && found_then[i] == p;
                        assert(found@[i] == p);
                    }
                }
            }
            x += 1;
        }
        y += 1;
    }
    found
}

/// Marks every empty square that an amazon of `player` can walk to, spreading
/// from the amazons over touching empty squares with a work list.
pub fn flood(board: &Board, player: Player) -> (reached: SquareSet)
    requires
        board.wf(),
    ensures
        reached.wf(),
        reached.spec_width() == board.spec_width(),
        reached.spec_height() == board.spec_height(),
        reached@ == reach(board@, player),
{
    proof {
        board.lemma_domain();
        board.lemma_size();
    }
    let mut reached = SquareSet::new(board.width(), board.height());
    let mut frontier = gather_pieces(board, player);
    while frontier.len() > 0
        invariant
            board.wf(),
            board@.dom() == board.squares(),
            reached.wf(),
            reached.spec_width() == board.spec_width(),
            reached.spec_height() == board.spec_height(),
            forall|c: Coordinate| reached@.contains(c) ==> reachable(board@, player, c),
            forall|i: int|
                0 <= i < frontier@.len() ==> is_source(
                    board@,
                    player,
                    reached@,
                    #[trigger] frontier@[i],
                ),
            forall|s: Coordinate| #[trigger]
                is_source(board@, player, reached@, s) ==> settled(board@, reached@, s)
                    || frontier@.contains(s),
        decreases reached.universe().len() - reached@.len(), frontier@.len(),
    {
        let ghost reached_before = reached@;
        let ghost frontier_before = frontier@;
        proof {
            reached.lemma_within_universe();
        }
        let cur = frontier.pop().unwrap();
        assert(frontier_before =~= frontier@.push(cur));
        let mut d: u8 = 0;
        while d < 9
            invariant
                board.wf(),
                board@.dom() == board.squares(),
                reached.wf(),
                reached.spec_width() == board.spec_width(),
                reached.spec_height() == board.spec_height(),
                d <= 9,
                frontier_before == frontier_before.drop_last().push(cur),
                reached_before.subset_of(reached@),
                reached@.len() <= reached.universe().len(),
                reached@.len() > reached_before.len() || (reached@ == reached_before && frontier@
                    == frontier_before.drop_last()),
                is_source(board@, player, reached@, cur),
                forall|c: Coordinate| reached@.contains(c) ==> reachable(board@, player, c),
                forall|i: int|
                    0 <= i < frontier@.len() ==> is_source(
                        board@,
                        player,
                        reached@,
                        #[trigger] frontier@[i],
                    ),
                settled_before(board@, reached@, cur, d as int),
                forall|s: Coordinate| #[trigger]
                    is_source(board@, player, reached@, s) ==> settled(board@, reached@, s)
                        || frontier@.contains(s) || s == cur,
            decreases 9 - d,
        {
            let ghost reached_then = reached@;
            let ghost frontier_then = frontier@;
            if let Some(n) = neighbour(cur, d) {
                if board.in_bounds(n) && board.square(n) == SquareState::Empty && !reached.contains(
                    n,
                ) {
                    proof {
                        reached.lemma_within_universe();
                        lemma_step_reaches(board@, player, cur, n);
                    }
                    let _ = reached.insert(n);
                    frontier.push(n);
                    proof {
                        reached.lemma_within_universe();
                        assert forall|s: Coordinate| #[trigger]
                            is_source(board@, player, reached@, s) implies settled(
                            board@,
                            reached@,
                            s,
                        ) || frontier@.contains(s) || s == cur by {
                            if s == n {
                                assert(frontier@[frontier@.len() - 1] == n);
                            } else {
                                assert(is_source(board@, player, reached_then, s));
                                if frontier_then.contains(s) {
                                    let i = choose|i: int|
                                        0 <= i < frontier_then.len() && frontier_then[i] == s;
                                    assert(frontier@[i] == s);
                                }
                            }
                        }
                    }
                }
            }
            proof {
                assert forall|n: Coordinate|
                    #[trigger] adjacent(cur, n) && is_empty_at(board@, n) && direction(cur, n) < d
                        + 1 implies reached@.contains(n) by {
                    if direction(cur, n) == d {
                        assert(n.x == cur.x + d % 3 - 1);
                        assert(n.y == cur.y + d / 3 - 1);
                    }
                }
            }
            d += 1;
        }
        proof {
            assert forall|s: Coordinate| #[trigger]
                is_source(board@, player, reached@, s) implies settled(board@, reached@, s)
                || frontier@.contains(s) by {
                if s == cur {
                    assert(settled(board@, reached@, s));
                }
            }
        }
    }
    proof {
        assert forall|s: Coordinate| #[trigger]
            is_source(board@, player, reached@, s) implies settled(board@, reached@, s) by {
            if frontier@.contains(s) {
                let i = choose|i: int| 0 <= i < frontier@.len() && frontier@[i] == s;
            }
        }
        lemma_closed_set_is_reach(board@, player, reached@);
    }
    reached
}

/// Whether the amazon on `from` has a square to move to.
pub open spec fn has_move_from(grid: Grid, from: Coordinate) -> bool {
    exists|to: Coordinate| trace_spec(grid, from, to) == LegalityResult::Legal
}

/// Whether some amazon of `player` has a square to move to.
pub open spec fn has_legal_move(grid: Grid, player: Player) -> bool {
    exists|from: Coordinate| pieces(grid, player).contains(from) && #[trigger] has_move_from(grid, from)
}

/// The first step of a legal move lands on an empty square that touches the origin.
pub proof fn lemma_legal_move_starts_on_free_neighbour(grid: Grid, from: Coordinate, to: Coordinate)
    requires
        trace_spec(grid, from, to) == LegalityResult::Legal,
    ensures
        adjacent(from, line_square(from, to, 1)),
        is_empty_at(grid, line_square(from, to, 1)),
{
    if line_length(from, to) == 1 {
        assert(line_square(from, to, 1) == to);
    } else {
        assert(is_empty_at(grid, line_square(from, to, 1)));
    }
}

/// A step to an empty square that touches the origin is a legal move.
pub proof fn lemma_free_neighbour_is_legal_move(grid: Grid, from: Coordinate, to: Coordinate)
    requires
        grid.dom().contains(from),
        adjacent(from, to),
        is_empty_at(grid, to),
    ensures
        trace_spec(grid, from, to) == LegalityResult::Legal,
{
}

/// A side whose amazons are boxed in, with no empty square touching any of
/// them, has no legal move.
pub proof fn lemma_boxed_in_cannot_move(grid: Grid, player: Player)
    requires
        forall|p: Coordinate, n: Coordinate|
            pieces(grid, player).contains(p) && #[trigger] adjacent(p, n) ==> !is_empty_at(
                grid,
                n,
            ),
    ensures
        !has_legal_move(grid, player),
{
    if has_legal_move(grid, player) {
        let from = choose|from: Coordinate|
            pieces(grid, player).contains(from) && #[trigger] has_move_from(grid, from);
        let to = choose|to: Coordinate| trace_spec(grid, from, to) == LegalityResult::Legal;
        lemma_legal_move_starts_on_free_neighbour(grid, from, to);
        assert(adjacent(from, line_square(from, to, 1)));
    }
}

/// A side can move exactly when its amazons can walk to some square.
pub proof fn lemma_can_move_iff_has_reach(grid: Grid, player: Player)
    ensures
        has_legal_move(grid, player) <==> exists|c: Coordinate| reach(grid, player).contains(c),
{
    if has_legal_move(grid, player) {
        let from = choose|from: Coordinate|
            pieces(grid, player).contains(from) && #[trigger] has_move_from(grid, from);
        let to = choose|to: Coordinate| trace_spec(grid, from, to) == LegalityResult::Legal;
        lemma_legal_move_starts_on_free_neighbour(grid, from, to);
        lemma_step_reaches(grid, player, from, line_square(from, to, 1));
        assert(reach(grid, player).contains(line_square(from, to, 1)));
    }
    if exists|c: Coordinate| reach(grid, player).contains(c) {
        let c = choose|c: Coordinate| reach(grid, player).contains(c);
        let walk = choose|walk: Seq<Coordinate>| is_walk(grid, player, walk) && walk.last() == c;
        assert(is_empty_at(grid, walk[1]) && adjacent(walk[0], walk[1]));
        lemma_free_neighbour_is_legal_move(grid, walk[0], walk[1]);
        assert(has_move_from(grid, walk[0]));
    }
}

/// Tries every square of the board as the target of a move from `from` and
/// stops at the first that is legal.
pub fn can_move_from(board: &Board, from: Coordinate) -> (movable: bool)
    requires
        board.wf(),
    ensures
        movable == has_move_from(board@, from),
{
    let width = board.width();
    let height = board.height();
    proof {
        board.lemma_domain();
    }
    let mut y: u32 = 0;
    while y < height
        invariant
            board.wf(),
            board@.dom() == board.squares(),
            width == board.spec_width(),
            height == board.spec_height(),
            y <= height,
            forall|to: Coordinate|
                to.y < y ==> #[trigger] trace_spec(board@, from, to) != LegalityResult::Legal,
        decreases height - y,
    {
        let mut x: u32 = 0;
        while x < width
            invariant
                board.wf(),
                board@.dom() == board.squares(),
                width == board.spec_width(),
                height == board.spec_height(),
                y < height,
                x <= width,
                forall|to: Coordinate|
                    to.y < y || (to.y == y && to.x < x) ==> #[trigger] trace_spec(
                        board@,
                        from,
                        to,
                    ) != LegalityResult::Legal,
            decreases width - x,
        {
            let to = Coordinate { x, y };
            if trace(board, from, to) == LegalityResult::Legal {
                return true;
            }
            x += 1;
        }
        y += 1;
    }
    assert forall|to: Coordinate| trace_spec(board@, from, to) != LegalityResult::Legal by {
        if to.y >= height {
            assert(!board@.dom().contains(to));
        }
    }
    false
}

/// Looks for an amazon of `player` that can move, square by square, and stops
/// at the first.
pub fn has_any_legal_move(board: &Board, player: Player) -> (movable: bool)
    requires
        board.wf(),
    ensures
        movable == has_legal_move(board@, player),
{
    let width = board.width();
    let height = board.height();
    proof {
        board.lemma_domain();
    }
    let mut y: u32 = 0;
    while y < height
        invariant
            board.wf(),
            board@.dom() == board.squares(),
            width == board.spec_width(),
            height == board.spec_height(),
            y <= height,
            forall|from: Coordinate|
                pieces(board@, player).contains(from) && from.y < y ==> !#[trigger] has_move_from(
                    board@,
                    from,
                ),
        decreases height - y,
    {
        let mut x: u32 = 0;
        while x < width
            invariant
                board.wf(),
                board@.dom() == board.squares(),
                width == board.spec_width(),
                height == board.spec_height(),
                y < height,
                x <= width,
                forall|from: Coordinate|
                    pieces(board@, player).contains(from) && (from.y < y || (from.y == y && from.x
                        < x)) ==> !#[trigger] has_move_from(board@, from),
            decreases width - x,
        {
            let from = Coordinate { x, y };
            if board.square(from) == SquareState::OwnedBy(player) && can_move_from(board, from) {
                return true;
            }
            x += 1;
        }
        y += 1;
    }
    false
}

/// The reach of both sides.
pub struct Reaches {
    /// The empty squares that amazons of White can walk to.
    pub white: Set<Coordinate>,
    /// The empty squares that amazons of Black can walk to.
    pub black: Set<Coordinate>,
}

impl Reaches {
    /// The reach of one side.
    pub open spec fn of(self, player: Player) -> Set<Coordinate> {
        match player {
            Player::White => self.white,
            Player::Black => self.black,
        }
    }

    /// The squares that `player` controls: those in its reach and out of the
    /// other side's.
    pub open spec fn controlled(self, player: Player) -> Set<Coordinate> {
        self.of(player).difference(self.of(player.opponent()))
    }

    /// Who controls the square at `c`.
    pub open spec fn controller(self, c: Coordinate) -> Controller {
        if self.white.contains(c) && !self.black.contains(c) {
            Controller::White
        } else if self.black.contains(c) && !self.white.contains(c) {
            Controller::Black
        } else {
            Controller::Neutral
        }
    }

    /// Whether some square is in the reach of both sides.
    pub open spec fn contested(self) -> bool {
        exists|c: Coordinate| self.white.contains(c) && self.black.contains(c)
    }

    /// Whether no square is in the reach of both sides while at least one
    /// square is in the reach of one.
    pub open spec fn separated(self) -> bool {
        !self.contested() && exists|c: Coordinate| self.white.contains(c) || self.black.contains(c)
    }
}

/// The reach of both sides on a grid.
pub open spec fn territory_of(grid: Grid) -> Reaches {
    Reaches { white: reach(grid, Player::White), black: reach(grid, Player::Black) }
}

/// Who controls the square at `c` of a grid.
pub open spec fn controller_spec(grid: Grid, c: Coordinate) -> Controller {
    territory_of(grid).controller(c)
}

/// The reach of both sides on one board, with the counts that decide a
/// separated game.
#[derive(Clone, Debug)]
pub struct Territory {
    white: SquareSet,
    black: SquareSet,
    white_count: usize,
    black_count: usize,
    contested: bool,
}

impl View for Territory {
    type V = Reaches;

    /// The reach of both sides.
    closed spec fn view(&self) -> Reaches {
        Reaches { white: self.white@, black: self.black@ }
    }
}

impl Territory {
    /// Both sets belong to one board, and the stored counts and flag agree with them.
    pub closed spec fn wf(&self) -> bool {
        &&& self.white.wf()
        &&& self.black.wf()
        &&& self.white.universe() == self.black.universe()
        &&& self.white_count == self@.controlled(Player::White).len()
        &&& self.black_count == self@.controlled(Player::Black).len()
        &&& self.contested == self@.contested()
    }

    /// Who controls the square at `c`; a coordinate off the board is controlled by no one.
    pub fn controller_of(&self, c: Coordinate) -> (controller: Controller)
        requires
            self.wf(),
        ensures
            controller == self@.controller(c),
    {
        let by_white = self.white.contains(c);
        let by_black = self.black.contains(c);
        if by_white && !by_black {
            Controller::White
        } else if by_black && !by_white {
            Controller::Black
        } else {
            Controller::Neutral
        }
    }

    /// The number of squares that White controls.
    pub fn white_count(&self) -> (count: usize)
        requires
            self.wf(),
        ensures
            count == self@.controlled(Player::White).len(),
    {
        self.white_count
    }

    /// The number of squares that Black controls.
    pub fn black_count(&self) -> (count: usize)
        requires
            self.wf(),
        ensures
            count == self@.controlled(Player::Black).len(),
    {
        self.black_count
    }

    /// Whether the two sides are walled off from each other, with room left
    /// for at least one of them.
    pub fn is_separated(&self) -> (separated: bool)
        requires
            self.wf(),
        ensures
            separated == self@.separated(),
    {
        proof {
            self.white.lemma_within_universe();
            self.black.lemma_within_universe();
            let white = self@.controlled(Player::White);
            let black = self@.controlled(Player::Black);
            vstd::set_lib::lemma_set_subset_finite(self.white@, white);
            vstd::set_lib::lemma_set_subset_finite(self.black@, black);
            if !self@.contested() {
                assert(white =~= self.white@);
                assert(black =~= self.black@);
                if white.len() > 0 {
                    assert(self.white@.contains(self.white@.choose()));
                }
                if black.len() > 0 {
                    assert(self.black@.contains(self.black@.choose()));
                }
                if white.len() == 0 && black.len() == 0 {
                    white.lemma_len0_is_empty();
                    black.lemma_len0_is_empty();
                }
            }
        }
        !self.contested && (self.white_count > 0 || self.black_count > 0)
    }
}

/// Whether a row-by-row scan that now stands at column `x` of row `y` has
/// passed the square at `c`.
spec fn scanned(c: Coordinate, x: u32, y: u32) -> bool {
    c.y < y || (c.y == y && c.x < x)
}

/// Floods the board once for each side and counts what each controls.
pub fn survey(board: &Board) -> (territory: Territory)
    requires
        board.wf(),
    ensures
        territory.wf(),
        territory@ == territory_of(board@),
{
    let width = board.width();
    let height = board.height();
    let white = flood(board, Player::White);
    let black = flood(board, Player::Black);
    let ghost reaches = Reaches { white: white@, black: black@ };
    let ghost white_all = reaches.controlled(Player::White);
    let ghost black_all = reaches.controlled(Player::Black);
    let mut white_count: usize = 0;
    let mut black_count: usize = 0;
    let mut contested = false;
    let ghost mut white_seen = Set::<Coordinate>::empty();
    let ghost mut black_seen = Set::<Coordinate>::empty();
    proof {
        board.lemma_size();
        white.lemma_within_universe();
        black.lemma_within_universe();
    }
    let mut y: u32 = 0;
    while y < height
        invariant
            white.wf(),
            black.wf(),
            white.spec_width() == width,
            white.spec_height() == height,
            black.spec_width() == width,
            black.spec_height() == height,
            white@.subset_of(white.universe()),
            black@.subset_of(black.universe()),
            width * height <= usize::MAX,
            reaches == (Reaches { white: white@, black: black@ }),
            white_all == reaches.controlled(Player::White),
            black_all == reaches.controlled(Player::Black),
            y <= height,
            white_seen.finite(),
            black_seen.finite(),
            white_count == white_seen.len(),
            black_count == black_seen.len(),
            white_count <= y * width,
            black_count <= y * width,
            forall|c: Coordinate| white_seen.contains(c) <==> white_all.contains(c) && c.y < y,
            forall|c: Coordinate| black_seen.contains(c) <==> black_all.contains(c) && c.y < y,
            contested <==> exists|c: Coordinate|
                white@.contains(c) && black@.contains(c) && c.y < y,
        decreases height - y,
    {
        let mut x: u32 = 0;
        while x < width
            invariant
                white.wf(),
                black.wf(),
                white.spec_width() == width,
                white.spec_height() == height,
                black.spec_width() == width,
                black.spec_height() == height,
                white@.subset_of(white.universe()),
                black@.subset_of(black.universe()),
                width * height <= usize::MAX,
                reaches == (Reaches { white: white@, black: black@ }),
                white_all == reaches.controlled(Player::White),
                black_all == reaches.controlled(Player::Black),
                y < height,
                x <= width,
                white_seen.finite(),
                black_seen.finite(),
                white_count == white_seen.len(),
                black_count == black_seen.len(),
                white_count <= y * width + x,
                black_count <= y * width + x,
                forall|c: Coordinate|
                    white_seen.contains(c) <==> white_all.contains(c) && scanned(c, x, y),
                forall|c: Coordinate|
                    black_seen.contains(c) <==> black_all.contains(c) && scanned(c, x, y),
                contested <==> exists|c: Coordinate|
                    white@.contains(c) && black@.contains(c) && scanned(c, x, y),
            decreases width - x,
        {
            let c = Coordinate { x, y };
            let by_white = white.contains(c);
            let by_black = black.contains(c);
            let ghost contested_then = contested;
            proof {
                crate::board::lemma_cell_index_in_range(width as nat, height as nat, c);
            }
            if by_white && by_black {
                contested = true;
            } else if by_white {
                white_count += 1;
                proof {
                    white_seen = white_seen.insert(c);
                }
            } else if by_black {
                black_count += 1;
                proof {
                    black_seen = black_seen.insert(c);
                }
            }
            proof {
                if contested_then {
                    let w = choose|w: Coordinate|
                        white@.contains(w) && black@.contains(w) && scanned(w, x, y);
                    assert(scanned(w, (x + 1) as u32, y));
                }
                if by_white && by_black {
                    assert(scanned(c, (x + 1) as u32, y));
                }
                if !contested {
                    assert forall|w: Coordinate|
                        !(white@.contains(w) && black@.contains(w) && scanned(
                            w,
                            (x + 1) as u32,
                            y,
                        )) by {
                        if scanned(w, (x + 1) as u32, y) && !scanned(w, x, y) {
                            assert(w == c);
                        }
                    }
                }
                assert forall|p: Coordinate|
                    white_seen.contains(p) <==> white_all.contains(p) && scanned(
                        p,
                        (x + 1) as u32,
                        y,
                    ) by {
                    if scanned(p, (x + 1) as u32, y) && !scanned(p, x, y) {
                        assert(p == c);
                    }
                }
                assert forall|p: Coordinate|
                    black_seen.contains(p) <==> black_all.contains(p) && scanned(
                        p,
                        (x + 1) as u32,
                        y,
                    ) by {
                    if scanned(p, (x + 1) as u32, y) && !scanned(p, x, y) {
                        assert(p == c);
                    }
                }
            }
            x += 1;
        }
        proof {
            assert((y + 1) * width == y * width + width) by (nonlinear_arith);
            assert forall|c: Coordinate|
                white_seen.contains(c) <==> white_all.contains(c) && c.y < y + 1 by {
                if white_all.contains(c) {
                    assert(white.universe().contains(c));
                }
            }
            assert forall|c: Coordinate|
                black_seen.contains(c) <==> black_all.contains(c) && c.y < y + 1 by {
                if black_all.contains(c) {
                    assert(black.universe().contains(c));
                }
            }
            if contested {
                let w = choose|w: Coordinate|
                    white@.contains(w) && black@.contains(w) && scanned(w, x, y);
                assert(w.y < y + 1);
            } else {
                assert forall|w: Coordinate|
                    !(white@.contains(w) && black@.contains(w) && w.y < y + 1) by {
                    if white@.contains(w) && w.y < y + 1 {
                        assert(white.universe().contains(w));
                        assert(scanned(w, x, y));
                    }
                }
            }
        }
        y += 1;
    }
    proof {
        assert forall|c: Coordinate| white_all.contains(c) implies c.y < y by {
            assert(white.universe().contains(c));
        }
        assert forall|c: Coordinate| black_all.contains(c) implies c.y < y by {
            assert(black.universe().contains(c));
        }
        assert(white_seen =~= white_all);
        assert(black_seen =~= black_all);
        if contested {
            let w = choose|w: Coordinate| white@.contains(w) && black@.contains(w) && w.y < y;
            assert(reaches.white.contains(w) && reaches.black.contains(w));
        }
        assert(white.universe() == black.universe());
    }
    Territory { white, black, white_count, black_count, contested }
}

/// Who controls the square at `c` of the board; a coordinate off the board is
/// controlled by no one.
pub fn controller_of(board: &Board, c: Coordinate) -> (controller: Controller)
    requires
        board.wf(),
    ensures
        controller == controller_spec(board@, c),
{
    let territory = survey(board);
    territory.controller_of(c)
}

/// The side that leads on territory. With equal counts the lead is given, for
/// the time being, to the side that is about to move.
pub open spec fn spec_provisional_leader(white_count: nat, black_count: nat, mover: Player)
    -> Player {
    if white_count > black_count {
        Player::White
    } else if black_count > white_count {
        Player::Black
    } else {
        mover
    }
}

/// The side that wins a separated game: the leader on territory, except that
/// with equal counts the leader's opponent wins. The side that has to move
/// first out of equal territory runs out of moves first.
pub open spec fn spec_territory_winner(white_count: nat, black_count: nat, mover: Player)
    -> Player {
    let leader = spec_provisional_leader(white_count, black_count, mover);
    if white_count == black_count {
        leader.opponent()
    } else {
        leader
    }
}

/// How the game stands for a grid with `mover` about to move. A mover without
/// a legal move has lost, whatever the territory. Otherwise a separated board
/// is decided by territory, and any other board is still in play.
pub open spec fn outcome_spec(grid: Grid, mover: Player) -> Outcome {
    let territory = territory_of(grid);
    let white_count = territory.controlled(Player::White).len();
    let black_count = territory.controlled(Player::Black).len();
    if !has_legal_move(grid, mover) {
        Outcome::Winner(mover.opponent())
    } else if territory.separated() {
        Outcome::WinnerWithCounts(
            spec_territory_winner(white_count, black_count, mover),
            white_count as usize,
            black_count as usize,
        )
    } else {
        Outcome::InProgress
    }
}

/// A side to move that cannot move has lost, and the other side has won.
pub proof fn lemma_stalemate_loses(grid: Grid, mover: Player)
    requires
        !has_legal_move(grid, mover),
    ensures
        outcome_spec(grid, mover) == Outcome::Winner(mover.opponent()),
{
}

/// Territory never speaks for a side that cannot move: on a separated board
/// such a side controls nothing, and the other side leads.
pub proof fn lemma_stalemate_agrees_with_territory(grid: Grid, mover: Player)
    requires
        grid.dom().finite(),
        !has_legal_move(grid, mover),
        territory_of(grid).separated(),
    ensures
        territory_of(grid).controlled(mover).len() == 0,
        territory_of(grid).controlled(mover.opponent()).len() > 0,
        spec_territory_winner(
            territory_of(grid).controlled(Player::White).len(),
            territory_of(grid).controlled(Player::Black).len(),
            mover,
        ) == mover.opponent(),
{
    let territory = territory_of(grid);
    let other = mover.opponent();
    lemma_can_move_iff_has_reach(grid, mover);
    assert(territory.of(mover) == reach(grid, mover));
    assert(territory.of(other) == reach(grid, other));
    assert(territory.controlled(mover) =~= Set::<Coordinate>::empty());
    assert(territory.controlled(other) =~= reach(grid, other));
    assert(reach(grid, other).subset_of(grid.dom()));
    vstd::set_lib::lemma_set_subset_finite(grid.dom(), reach(grid, other));
    let c = choose|c: Coordinate| territory.white.contains(c) || territory.black.contains(c);
    assert(reach(grid, other).contains(c));
    if reach(grid, other).len() == 0 {
        reach(grid, other).lemma_len0_is_empty();
    }
}

/// On a separated board with equal territory the winner is not the side that
/// leads for the time being, but its opponent.
pub proof fn lemma_tie_goes_against_leader(grid: Grid, mover: Player)
    requires
        has_legal_move(grid, mover),
        territory_of(grid).separated(),
        territory_of(grid).controlled(Player::White).len() == territory_of(grid).controlled(
            Player::Black,
        ).len(),
    ensures
        outcome_spec(grid, mover) matches Outcome::WinnerWithCounts(winner, _, _) && winner
            == spec_provisional_leader(
            territory_of(grid).controlled(Player::White).len(),
            territory_of(grid).controlled(Player::Black).len(),
            mover,
        ).opponent(),
{
}

/// The side that leads on territory; see [`spec_provisional_leader`].
pub fn provisional_leader(white_count: usize, black_count: usize, mover: Player) -> (leader:
    Player)
    ensures
        leader == spec_provisional_leader(white_count as nat, black_count as nat, mover),
{
    if white_count > black_count {
        Player::White
    } else if black_count > white_count {
        Player::Black
    } else {
        mover
    }
}

/// The side that wins a separated game; see [`spec_territory_winner`].
pub fn territory_winner(white_count: usize, black_count: usize, mover: Player) -> (winner: Player)
    ensures
        winner == spec_territory_winner(white_count as nat, black_count as nat, mover),
{
    let leader = provisional_leader(white_count, black_count, mover);
    if white_count == black_count {
        leader.opponent()
    } else {
        leader
    }
}

/// Decides how the game stands with `mover` about to move.
pub fn evaluate(board: &Board, mover: Player) -> (outcome: Outcome)
    requires
        board.wf(),
    ensures
        outcome == outcome_spec(board@, mover),
        territory_of(board@).controlled(Player::White).len() <= usize::MAX,
        territory_of(board@).controlled(Player::Black).len() <= usize::MAX,
{
    let territory = survey(board);
    let white_count = territory.white_count();
    let black_count = territory.black_count();
    if !has_any_legal_move(board, mover) {
        Outcome::Winner(mover.opponent())
    } else if territory.is_separated() {
        Outcome::WinnerWithCounts(
            territory_winner(white_count, black_count, mover),
            white_count,
            black_count,
        )
    } else {
        Outcome::InProgress
    }
}

} // verus!
