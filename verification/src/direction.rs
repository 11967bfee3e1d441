//! Headings and the coordinate arithmetic of one step.

use vstd::prelude::*;

verus! {

/// Side length of the board, in cells.
pub const MAP_SIZE: usize = 20;

/// A cell of the board: column `x` first, row `y` second.
pub type Coord = (usize, usize);

/// Whether `c` names a cell of the board.
pub open spec fn in_bounds(c: Coord) -> bool {
    c.0 < MAP_SIZE && c.1 < MAP_SIZE
}

/// Whether `c` is a cell inside the wall that runs around the board.
pub open spec fn is_interior(c: Coord) -> bool {
    1 <= c.0 < MAP_SIZE - 1 && 1 <= c.1 < MAP_SIZE - 1
}

/// Whether `c` is a cell of the wall that runs around the board.
pub open spec fn is_border(c: Coord) -> bool {
    in_bounds(c) && !is_interior(c)
}

/// The four headings of the snake.
#[derive(Clone, Copy, Debug, PartialEq, Eq, Structural)]
pub enum Direction {
    Up,
    Down,
    Left,
    Right,
}

impl Direction {
    /// The heading that points the other way.
    pub open spec fn spec_inverse(self) -> Direction {
        match self {
            Direction::Up => Direction::Down,
            Direction::Down => Direction::Up,
            Direction::Left => Direction::Right,
            Direction::Right => Direction::Left,
        }
    }

    /// Whether `self` and `d` are one of the pairs up/down and left/right.
    pub open spec fn spec_is_inverse(self, d: Direction) -> bool {
        ||| self == Direction::Up && d == Direction::Down
        ||| self == Direction::Down && d == Direction::Up
        ||| self == Direction::Left && d == Direction::Right
        ||| self == Direction::Right && d == Direction::Left
    }

    /// The heading after a request to turn to `d`: a request to reverse is
    /// ignored, any other is followed.
    pub open spec fn spec_turned(self, d: Direction) -> Direction {
        if self.spec_is_inverse(d) {
            self
        } else {
            d
        }
    }

    /// The heading that points the other way.
    #[verifier::when_used_as_spec(spec_inverse)]
    pub fn inverse(self) -> (r: Direction)
        ensures
            r == self.spec_inverse(),
    {
        match self {
            Direction::Up => Direction::Down,
            Direction::Down => Direction::Up,
            Direction::Left => Direction::Right,
            Direction::Right => Direction::Left,
        }
    }

    /// Whether `d` points exactly against `self`.
    #[verifier::when_used_as_spec(spec_is_inverse)]
    pub fn is_inverse(self, d: Direction) -> (b: bool)
        ensures
            b == self.spec_is_inverse(d),
    {
        match (self, d) {
            (Direction::Up, Direction::Down) => true,
            (Direction::Down, Direction::Up) => true,
            (Direction::Left, Direction::Right) => true,
            (Direction::Right, Direction::Left) => true,
            _ => false,
        }
    }

    /// The heading after a request to turn to `d`.
    #[verifier::when_used_as_spec(spec_turned)]
    pub fn turned(self, d: Direction) -> (r: Direction)
        ensures
            r == self.spec_turned(d),
    {
        if self.is_inverse(d) {
            self
        } else {
            d
        }
    }
}

/// The cell one step from `c` in direction `dir`. `Up` lowers `y`, `Down`
/// raises it, `Left` lowers `x`, `Right` raises it. A step that would leave
/// the board, or that starts off the board, is not taken: the result is then
/// `c` itself.
pub open spec fn spec_new_coord(dir: Direction, c: Coord) -> Coord {
    match dir {
        Direction::Up => if 0 < c.1 <= MAP_SIZE - 1 {
            (c.0, (c.1 - 1) as usize)
        } else {
            c
        },
        Direction::Down => if c.1 < MAP_SIZE - 1 {
            (c.0, (c.1 + 1) as usize)
        } else {
            c
        },
        Direction::Left => if 0 < c.0 <= MAP_SIZE - 1 {
            ((c.0 - 1) as usize, c.1)
        } else {
            c
        },
        Direction::Right => if c.0 < MAP_SIZE - 1 {
            ((c.0 + 1) as usize, c.1)
        } else {
            c
        },
    }
}

/// The cell one step from `c` in direction `dir`, or `c` itself where that
/// step would leave the board. From a cell of the board it leads to a cell of
/// the board, and from a cell inside the wall to another cell.
#[verifier::when_used_as_spec(spec_new_coord)]
pub fn new_coord(dir: Direction, c: Coord) -> (r: Coord)
    ensures
        r == spec_new_coord(dir, c),
        in_bounds(c) ==> in_bounds(r),
        is_interior(c) ==> r != c,
{
    let (x, y) = c;
    match dir {
        Direction::Up => if 0 < y && y <= MAP_SIZE - 1 {
            (x, y - 1)
        } else {
            (x, y)
        },
        Direction::Down => if y < MAP_SIZE - 1 {
            (x, y + 1)
        } else {
            (x, y)
        },
        Direction::Left => if 0 < x && x <= MAP_SIZE - 1 {
            (x - 1, y)
        } else {
            (x, y)
        },
        Direction::Right => if x < MAP_SIZE - 1 {
            (x + 1, y)
        } else {
            (x, y)
        },
    }
}

/// A heading and its inverse are inverse to each other, in both orders; no
/// heading is its own inverse; and `is_inverse` holds of exactly the pairs
/// that `inverse` makes.
pub proof fn lemma_inverse_pairs(d: Direction, e: Direction)
    ensures
        d.spec_is_inverse(d.spec_inverse()),
        d.spec_inverse().spec_is_inverse(d),
        !d.spec_is_inverse(d),
        d.spec_inverse().spec_inverse() == d,
        d.spec_is_inverse(e) <==> e == d.spec_inverse(),
        d.spec_is_inverse(e) <==> e.spec_is_inverse(d),
{
}

/// A turn is refused exactly when it asks for the inverse of the heading;
/// whatever is asked, the heading never becomes its own inverse.
pub proof fn lemma_turn_rejects_reversal(d: Direction, e: Direction)
    ensures
        d.spec_turned(e) == d <==> (e == d || e == d.spec_inverse()),
        d.spec_turned(e) != d <==> (d.spec_turned(e) == e && e != d && e != d.spec_inverse()),
        d.spec_turned(e) != d.spec_inverse(),
{
}

} // verus!
