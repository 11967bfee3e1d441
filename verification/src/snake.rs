//! The snake's body: the cells it covers, from the tail to the head.

use vstd::prelude::*;
use std::collections::VecDeque;
use crate::direction::Coord;

verus! {

/// The cells that the snake covers. The front of the queue is the tail, the
/// back is the head.
///
/// Its view is the sequence of cells from the tail to the head.
pub struct Snake {
    body: VecDeque<Coord>,
}

impl View for Snake {
    type V = Seq<Coord>;

    closed spec fn view(&self) -> Seq<Coord> {
        self.body@
    }
}

impl Snake {
    /// A snake covers at least one cell.
    pub open spec fn wf(&self) -> bool {
        self@.len() >= 1
    }

    /// A snake that covers the cells of `cells`, the first being the tail and
    /// the last the head.
    pub fn from_cells(cells: &Vec<Coord>) -> (s: Snake)
        requires
            cells@.len() >= 1,
        ensures
            s.wf(),
            s@ == cells@,
    {
        let mut body: VecDeque<Coord> = VecDeque::new();
        let mut i: usize = 0;
        while i < cells.len()
            invariant
                i <= cells@.len(),
                body@ == cells@.subrange(0, i as int),
            decreases cells@.len() - i,
        {
            body.push_back(cells[i]);
            assert(body@ == cells@.subrange(0, i + 1));
            i = i + 1;
        }
        assert(body@ == cells@);
        Snake { body }
    }

    /// The number of cells that a snake covers fits a machine word.
    pub proof fn lemma_len_fits(&self)
        ensures
            self@.len() <= usize::MAX,
    {
        assert(self.body.len() == self.body@.len());
    }

    /// The number of cells that the snake covers.
    pub fn len(&self) -> (n: usize)
        ensures
            n == self@.len(),
    {
        self.body.len()
    }

    /// The cell at place `i` from the tail.
    pub fn segment(&self, i: usize) -> (c: Coord)
        requires
            i < self@.len(),
        ensures
            c == self@[i as int],
    {
        self.body[i]
    }

    /// The cells that the snake covers, from the tail to the head.
    pub fn cells(&self) -> (v: Vec<Coord>)
        ensures
            v@ == self@,
    {
        let mut v: Vec<Coord> = Vec::new();
        let mut i: usize = 0;
        while i < self.body.len()
            invariant
                i <= self.body@.len(),
                v@ == self.body@.take(i as int),
            decreases self.body@.len() - i,
        {
            v.push(self.body[i]);
            assert(v@ == self.body@.take(i + 1));
            i = i + 1;
        }
        assert(self.body@.take(i as int) == self.body@);
        v
    }

    /// The cell of the head.
    pub fn head(&self) -> (c: Coord)
        requires
            self.wf(),
        ensures
            c == self@.last(),
    {
        self.body[self.body.len() - 1]
    }

    /// Whether the snake covers cell `c`.
    pub fn contains(&self, c: Coord) -> (b: bool)
        ensures
            b == self@.contains(c),
    {
        let mut i: usize = 0;
        while i < self.body.len()
            invariant
                i <= self.body@.len(),
                forall|k: int| 0 <= k < i ==> self.body@[k] != c,
            decreases self.body@.len() - i,
        {
            let s = self.body[i];
            if s.0 == c.0 && s.1 == c.1 {
                return true;
            }
            i = i + 1;
        }
        false
    }

    /// Moves the head to `new_head`. The tail stays where it is if the snake
    /// `grew`, and gives up its cell if not.
    pub fn advance(&mut self, new_head: Coord, grew: bool)
        requires
            old(self).wf(),
        ensures
            final(self).wf(),
            final(self)@ == if grew {
                old(self)@.push(new_head)
            } else {
                old(self)@.push(new_head).drop_first()
            },
    {
        self.body.push_back(new_head);
        if !grew {
            self.body.pop_front();
        }
    }
}

} // verus!
