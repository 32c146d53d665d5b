//! A set of squares of one board, kept as one flag per square.

use vstd::prelude::*;
use crate::board::{
    cell_index, cell_offset, lemma_cell_index_in_range, lemma_cell_index_injective,
    lemma_rectangle_finite, rectangle, Coordinate,
};

verus! {

/// A set of squares of a board of fixed size.
#[derive(Clone, Debug)]
pub struct SquareSet {
    width: u32,
    height: u32,
    flags: Vec<bool>,
}

impl View for SquareSet {
    type V = Set<Coordinate>;

    /// The squares that are in the set.
    closed spec fn view(&self) -> Set<Coordinate> {
        Set::new(
            |c: Coordinate|
                c.x < self.width && c.y < self.height && self.flags@[cell_index(
                    self.width as nat,
                    c,
                )],
        )
    }
}

impl SquareSet {
    /// The number of columns of the board.
    pub closed spec fn spec_width(&self) -> nat {
        self.width as nat
    }

    /// The number of rows of the board.
    pub closed spec fn spec_height(&self) -> nat {
        self.height as nat
    }

    /// The set holds exactly one flag for each square of the board.
    pub closed spec fn wf(&self) -> bool {
        &&& self.flags@.len() == self.width * self.height
        &&& self.width * self.height <= usize::MAX
    }

    /// The squares from which the set can draw.
    pub open spec fn universe(&self) -> Set<Coordinate> {
        rectangle(self.spec_width(), self.spec_height())
    }

    /// The set holds squares of its board only, and finitely many.
    pub proof fn lemma_within_universe(&self)
        ensures
            self@.subset_of(self.universe()),
            self@.finite(),
            self.universe().finite(),
            self@.len() <= self.universe().len(),
    {
        lemma_rectangle_finite(self.spec_width(), self.spec_height());
        assert(self@.subset_of(self.universe()));
        vstd::set_lib::lemma_set_subset_finite(self.universe(), self@);
        vstd::set_lib::lemma_len_subset(self@, self.universe());
    }

    /// The empty set of squares of a board of the given size.
    pub fn new(width: u32, height: u32) -> (set: SquareSet)
        requires
            width * height <= usize::MAX,
        ensures
            set.wf(),
            set.spec_width() == width,
            set.spec_height() == height,
            set@ == Set::<Coordinate>::empty(),
    {
        let total: usize = (width as usize) * (height as usize);
        let mut flags: Vec<bool> = Vec::new();
        let mut filled: usize = 0;
        while filled < total
            invariant
                filled <= total,
                flags@.len() == filled,
                forall|i: int| 0 <= i < filled ==> !flags@[i],
            decreases total - filled,
        {
            flags.push(false);
            filled += 1;
        }
        let set = SquareSet { width, height, flags };
        proof {
            assert forall|c: Coordinate| c.x < width && c.y < height implies !set.flags@[cell_index(
                width as nat,
                c,
            )] by {
                lemma_cell_index_in_range(width as nat, height as nat, c);
            }
            assert(set@ =~= Set::<Coordinate>::empty());
        }
        set
    }

    /// Whether the square is in the set.
    pub fn contains(&self, c: Coordinate) -> (present: bool)
        requires
            self.wf(),
        ensures
            present == self@.contains(c),
    {
        if c.x < self.width && c.y < self.height {
            self.flags[cell_offset(self.width, self.height, c)]
        } else {
            false
        }
    }

    /// Adds a square of the board to the set and says whether it was one;
    /// a coordinate off the board is not added.
    pub fn insert(&mut self, c: Coordinate) -> (on_board: bool)
        requires
            old(self).wf(),
        ensures
            final(self).wf(),
            final(self).spec_width() == old(self).spec_width(),
            final(self).spec_height() == old(self).spec_height(),
            on_board == old(self).universe().contains(c),
            final(self)@ == (if on_board {
                old(self)@.insert(c)
            } else {
                old(self)@
            }),
    {
        if !(c.x < self.width && c.y < self.height) {
            return false;
        }
        let offset = cell_offset(self.width, self.height, c);
        self.flags.set(offset, true);
        proof {
            assert forall|d: Coordinate|
                d.x < self.width && d.y < self.height && d != c implies self.flags@[cell_index(
                self.width as nat,
                d,
            )] == old(self).flags@[cell_index(self.width as nat, d)] by {
                lemma_cell_index_in_range(self.width as nat, self.height as nat, d);
                if cell_index(self.width as nat, d) == cell_index(self.width as nat, c) {
                    lemma_cell_index_injective(self.width as nat, d, c);
                }
            }
            assert(self@ =~= old(self)@.insert(c));
        }
        true
    }
}

} // verus!
