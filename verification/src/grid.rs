//! The board: a square of tiles with a wall around it.

use vstd::prelude::*;
use crate::direction::{in_bounds, is_border, Coord, MAP_SIZE};

verus! {

/// What a cell of the board holds.
#[derive(Clone, Copy, Debug, PartialEq, Eq, Structural)]
pub enum Tile {
    Nothing,
    Wall,
    Fruit,
}

/// The tiles of a fresh board: wall on the outer ring, nothing inside.
pub open spec fn initial_tiles() -> Map<Coord, Tile> {
    Map::new(
        |c: Coord| in_bounds(c),
        |c: Coord|
            if is_border(c) {
                Tile::Wall
            } else {
                Tile::Nothing
            },
    )
}

/// A board of `MAP_SIZE` by `MAP_SIZE` tiles.
///
/// Its view maps every cell of the board to its tile.
pub struct Grid {
    /// Column after column: the tile of `(x, y)` is at `x * MAP_SIZE + y`.
    cells: Vec<Tile>,
}

impl View for Grid {
    type V = Map<Coord, Tile>;

    closed spec fn view(&self) -> Map<Coord, Tile> {
        Map::new(|c: Coord| in_bounds(c), |c: Coord| self.cells@[c.0 * MAP_SIZE + c.1])
    }
}

impl Grid {
    /// The grid holds one tile for every cell of the board.
    pub closed spec fn wf(&self) -> bool {
        self.cells@.len() == MAP_SIZE * MAP_SIZE
    }

    /// A fresh board: wall on the outer ring, nothing inside.
    pub fn initialize() -> (g: Grid)
        ensures
            g.wf(),
            g@ == initial_tiles(),
    {
        let mut cells: Vec<Tile> = Vec::new();
        let mut i: usize = 0;
        while i < MAP_SIZE * MAP_SIZE
            invariant
                i <= MAP_SIZE * MAP_SIZE,
                cells@.len() == i,
                forall|k: int|
                    0 <= k < i ==> #[trigger] cells@[k] == initial_tiles()[(
                        (k / MAP_SIZE as int) as usize,
                        (k % MAP_SIZE as int) as usize,
                    )],
            decreases MAP_SIZE * MAP_SIZE - i,
        {
            let x: usize = i / MAP_SIZE;
            let y: usize = i % MAP_SIZE;
            let on_border = x == 0 || y == 0 || x == MAP_SIZE - 1 || y == MAP_SIZE - 1;
            cells.push(
                if on_border {
                    Tile::Wall
                } else {
                    Tile::Nothing
                },
            );
            i = i + 1;
        }
        let g = Grid { cells };
        assert(g@ =~= initial_tiles()) by {
            assert forall|c: Coord| in_bounds(c) implies #[trigger] g@[c] == initial_tiles()[c] by {
                let k = c.0 * MAP_SIZE + c.1;
                assert(k / MAP_SIZE as int == c.0 && k % MAP_SIZE as int == c.1);
            }
        }
        g
    }

    /// The tile of cell `c`.
    pub fn tile_at(&self, c: Coord) -> (t: Tile)
        requires
            self.wf(),
            in_bounds(c),
        ensures
            t == self@[c],
    {
        self.cells[c.0 * MAP_SIZE + c.1]
    }

    /// Puts tile `t` on cell `c` and leaves every other cell as it was.
    pub fn set_tile(&mut self, c: Coord, t: Tile)
        requires
            old(self).wf(),
            in_bounds(c),
        ensures
            final(self).wf(),
            final(self)@ == old(self)@.insert(c, t),
    {
        self.cells.set(c.0 * MAP_SIZE + c.1, t);
        assert(self@ =~= old(self)@.insert(c, t));
    }
}

} // verus!
