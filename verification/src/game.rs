//! The game itself: the board, the snake, and what a tick does to them.

use vstd::prelude::*;
use crate::direction::{in_bounds, is_interior, new_coord, Coord, Direction, MAP_SIZE};
use crate::grid::{Grid, Tile};
use crate::input::{key_action, spec_key_action, Action, Key};
use crate::model::{
    interior_cells, lemma_free_cells, lemma_key_keeps_valid, lemma_start_valid,
    lemma_tick_keeps_valid, lemma_tiles_of_fruit, GameView, State, MAP_INNER, UPDATE_RATE,
};
use crate::random::sample_range;
use crate::snake::Snake;

verus! {

/// The cell that holds the fruit on a board with tiles `tiles`, if any does.
spec fn fruit_of(tiles: Map<Coord, Tile>) -> Option<Coord> {
    if exists|c: Coord| in_bounds(c) && #[trigger] tiles[c] == Tile::Fruit {
        Some(choose|c: Coord| in_bounds(c) && #[trigger] tiles[c] == Tile::Fruit)
    } else {
        None
    }
}

/// A game of snake.
///
/// Its view is the state of the game as a [`GameView`].
pub struct MyGame {
    snek_body: Snake,
    snek_dir: Direction,
    map: Grid,
    state: State,
    last_update: u64,
    score: usize,
}

impl View for MyGame {
    type V = GameView;

    closed spec fn view(&self) -> GameView {
        GameView {
            body: self.snek_body@,
            dir: self.snek_dir,
            fruit: fruit_of(self.map@),
            state: self.state,
            last_update: self.last_update,
            score: self.score as nat,
        }
    }
}

impl MyGame {
    /// The board agrees with the state: it holds the wall on its outer ring,
    /// at most one fruit, and nothing else.
    pub closed spec fn inv(&self) -> bool {
        &&& self.map.wf()
        &&& self.snek_body.wf()
        &&& self.map@ == self@.tiles()
    }

    /// The game is in a state that play can reach.
    pub open spec fn wf(&self) -> bool {
        self.inv() && self@.valid()
    }

    /// The board shows the fruit of `g`, once it shows the tiles of `g`.
    proof fn lemma_fruit_of_tiles(g: GameView)
        requires
            g.fruit matches Some(f) ==> is_interior(f),
        ensures
            fruit_of(g.tiles()) == g.fruit,
    {
        let tiles = g.tiles();
        if let Some(f) = g.fruit {
            assert(in_bounds(f) && tiles[f] == Tile::Fruit);
        }
    }

    /// A new game at time `now`: a snake of three cells down the left side of
    /// the board with its head at `(1, 3)`, heading right; no score; and a
    /// fruit on a free cell drawn by chance.
    pub fn new(now: u64) -> (g: MyGame)
        ensures
            g.wf(),
            GameView::initial(now).respawned(g@),
            g@.fruit is Some,
    {
        let mut cells: Vec<Coord> = Vec::new();
        cells.push((1, 1));
        cells.push((1, 2));
        cells.push((1, 3));
        assert(cells@ =~= GameView::initial(now).body);
        let mut g = MyGame {
            snek_body: Snake::from_cells(&cells),
            snek_dir: Direction::Right,
            map: Grid::initialize(),
            state: State::Playing,
            last_update: now,
            score: 0,
        };
        proof {
            assert(g.map@ =~= GameView::initial(now).tiles());
            Self::lemma_fruit_of_tiles(GameView::initial(now));
            assert(g@ == GameView::initial(now));
        }
        g.swap_fruit((1, 1));
        proof {
            lemma_start_valid(now, g@);
        }
        g
    }

    /// Whether the game runs, rests, or is over.
    pub fn state(&self) -> (s: State)
        ensures
            s == self@.state,
    {
        self.state
    }

    /// The number of fruit eaten so far.
    pub fn score(&self) -> (n: usize)
        ensures
            n == self@.score,
    {
        self.score
    }

    /// The heading of the snake.
    pub fn direction(&self) -> (d: Direction)
        ensures
            d == self@.dir,
    {
        self.snek_dir
    }

    /// The time of the last move, in milliseconds on the host's clock.
    pub fn last_update(&self) -> (t: u64)
        ensures
            t == self@.last_update,
    {
        self.last_update
    }

    /// The snake.
    pub fn snake(&self) -> (s: &Snake)
        ensures
            s@ == self@.body,
            self.inv() ==> s.wf(),
    {
        &self.snek_body
    }

    /// The tile of cell `c`.
    pub fn tile_at(&self, c: Coord) -> (t: Tile)
        requires
            self.inv(),
            in_bounds(c),
        ensures
            t == self@.tile(c),
    {
        self.map.tile_at(c)
    }

    /// The cell that holds the fruit, if there is one.
    pub fn fruit(&self) -> (f: Option<Coord>)
        requires
            self.inv(),
        ensures
            f == self@.fruit,
    {
        let mut i: usize = 0;
        while i < MAP_SIZE * MAP_SIZE
            invariant
                self.inv(),
                i <= MAP_SIZE * MAP_SIZE,
                forall|c: Coord|
                    in_bounds(c) && c.0 * MAP_SIZE + c.1 < i ==> #[trigger] self@.tile(c)
                        != Tile::Fruit,
            decreases MAP_SIZE * MAP_SIZE - i,
        {
            let c: Coord = (i / MAP_SIZE, i % MAP_SIZE);
            if self.map.tile_at(c) == Tile::Fruit {
                return Some(c);
            }
            i = i + 1;
        }
        proof {
            if let Some(f) = self@.fruit {
                assert(self@.tile(f) == Tile::Fruit);
            }
        }
        None
    }

    /// Takes the fruit off cell `at`.
    pub fn remove_fruit(&mut self, at: Coord)
        requires
            old(self).inv(),
            is_interior(at),
            old(self)@.fruit matches Some(f) ==> f == at,
        ensures
            final(self).inv(),
            final(self)@ == (GameView { fruit: None, ..old(self)@ }),
            old(self).wf() ==> final(self).wf(),
    {
        self.map.set_tile(at, Tile::Nothing);
        proof {
            let g = GameView { fruit: None, ..old(self)@ };
            assert(self.map@ =~= g.tiles());
            Self::lemma_fruit_of_tiles(g);
        }
    }

    /// Lays the fruit on cell `to` of a board that holds none.
    pub fn put_fruit(&mut self, to: Coord)
        requires
            old(self).inv(),
            old(self)@.fruit is None,
            old(self)@.is_free(to),
        ensures
            final(self).inv(),
            final(self)@ == (GameView { fruit: Some(to), ..old(self)@ }),
            old(self).wf() ==> final(self).wf(),
    {
        self.map.set_tile(to, Tile::Fruit);
        proof {
            let g = GameView { fruit: Some(to), ..old(self)@ };
            assert(self.map@ =~= g.tiles());
            Self::lemma_fruit_of_tiles(g);
        }
    }

    /// The cells on which a fruit may be laid, column after column.
    pub fn free_cells(&self) -> (cells: Vec<Coord>)
        ensures
            cells@ == self@.free_cells(),
    {
        let ghost pred = |c: Coord| !self@.body.contains(c);
        let mut cells: Vec<Coord> = Vec::new();
        let mut i: usize = 0;
        assert(interior_cells().take(0) =~= Seq::<Coord>::empty());
        while i < MAP_INNER * MAP_INNER
            invariant
                i <= MAP_INNER * MAP_INNER,
                pred == |c: Coord| !self@.body.contains(c),
                cells@ == interior_cells().take(i as int).filter(pred),
            decreases MAP_INNER * MAP_INNER - i,
        {
            let c: Coord = (1 + i / MAP_INNER, 1 + i % MAP_INNER);
            proof {
                assert(interior_cells()[i as int] == c);
                interior_cells().lemma_take_succ_push(i as int);
                interior_cells().take(i as int).lemma_filter_push(c, pred);
            }
            if !self.snek_body.contains(c) {
                cells.push(c);
            }
            i = i + 1;
        }
        assert(interior_cells().take(i as int) =~= interior_cells());
        cells
    }

    /// Takes the fruit off cell `at` and lays a new one on a free cell drawn
    /// by chance, each with the same chance. Where the snake covers every cell
    /// inside the wall the board is left without a fruit.
    pub fn swap_fruit(&mut self, at: Coord)
        requires
            old(self).inv(),
            is_interior(at),
            old(self)@.fruit matches Some(f) ==> f == at,
        ensures
            final(self).inv(),
            old(self)@.respawned(final(self)@),
            old(self).wf() ==> final(self).wf(),
    {
        self.remove_fruit(at);
        let free = self.free_cells();
        proof {
            lemma_free_cells(self@);
        }
        if free.len() > 0 {
            let k = sample_range(0, free.len());
            let to = free[k];
            assert(self@.free_cells().contains(to));
            self.put_fruit(to);
        } else {
            assert forall|c: Coord| !#[trigger] old(self)@.is_free(c) by {
                if self@.is_free(c) {
                    assert(self@.free_cells().contains(c));
                }
            }
        }
    }

    /// One frame of the game at time `now`, in milliseconds on the host's
    /// clock. While the game runs and at least `UPDATE_RATE` milliseconds have
    /// passed since the last move, the snake moves one cell; otherwise nothing
    /// changes.
    pub fn update(&mut self, now: u64)
        requires
            old(self).wf(),
        ensures
            final(self).wf(),
            old(self)@.tick_to(now, final(self)@),
    {
        let elapsed: u64 = if now >= self.last_update {
            now - self.last_update
        } else {
            0
        };
        if self.state == State::Playing && elapsed >= UPDATE_RATE {
            let ghost before = self@;
            let ghost mut grown = self@;
            let ghost mut placed = self@;
            let new_c = new_coord(self.snek_dir, self.snek_body.head());
            if self.snek_body.contains(new_c) {
                self.state = State::GameOver;
            }
            if self.map.tile_at(new_c) == Tile::Fruit {
                self.snek_body.advance(new_c, true);
                proof {
                    self.snek_body.lemma_len_fits();
                }
                self.score += 1;
                proof {
                    lemma_tiles_of_fruit(before, self@);
                    grown = self@;
                }
                self.swap_fruit(new_c);
                proof {
                    placed = self@;
                }
            } else {
                self.snek_body.advance(new_c, false);
            }
            if self.map.tile_at(new_c) == Tile::Wall {
                self.state = State::GameOver;
            }
            self.last_update = now;
            proof {
                lemma_tiles_of_fruit(placed, self@);
                if before.eats() && self@.fruit is None {
                    assert forall|c: Coord| !#[trigger] before.moved(now).is_free(c) by {
                        assert(!grown.is_free(c));
                    }
                }
                lemma_tick_keeps_valid(before, now, self@);
            }
        }
    }

    /// Takes a key press. Returns whether the key asks to leave the game;
    /// leaving is up to the host.
    pub fn key_down_event(&mut self, key: Key) -> (quit: bool)
        requires
            old(self).wf(),
        ensures
            final(self).wf(),
            final(self)@ == old(self)@.after_key(key),
            quit == (spec_key_action(key) == Action::Quit),
    {
        let quit = match key_action(key) {
            Action::Turn(d) => {
                self.snek_dir = self.snek_dir.turned(d);
                false
            },
            Action::TogglePause => {
                self.state = self.state.toggled();
                false
            },
            Action::Quit => true,
            Action::Ignore => false,
        };
        proof {
            lemma_tiles_of_fruit(old(self)@, self@);
            lemma_key_keeps_valid(old(self)@, key);
        }
        quit
    }
}

} // verus!
