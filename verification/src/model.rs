//! The game as a mathematical state, and the rules that lead from one state
//! to the next.

use vstd::prelude::*;
use crate::direction::{in_bounds, is_border, is_interior, spec_new_coord, Coord, Direction};
use crate::grid::Tile;
use crate::input::{spec_key_action, Action, Key};

verus! {

/// Milliseconds that pass between two moves of the snake.
pub const UPDATE_RATE: u64 = 100;

/// Side length of the part of the board that lies inside the wall.
pub const MAP_INNER: usize = 18;

/// The number of cells that the snake covers when the game starts.
pub const INITIAL_LENGTH: usize = 3;

/// Whether the game runs, rests, or is over.
#[derive(Clone, Copy, Debug, PartialEq, Eq, Structural)]
pub enum State {
    Pause,
    GameOver,
    Playing,
}

impl State {
    /// The state after the pause key: a running game rests, a resting game
    /// runs, and a game that is over stays over.
    pub open spec fn spec_toggled(self) -> State {
        match self {
            State::Pause => State::Playing,
            State::Playing => State::Pause,
            State::GameOver => State::GameOver,
        }
    }

    /// The state after the pause key.
    #[verifier::when_used_as_spec(spec_toggled)]
    pub fn toggled(self) -> (s: State)
        ensures
            s == self.spec_toggled(),
    {
        match self {
            State::Pause => State::Playing,
            State::Playing => State::Pause,
            State::GameOver => State::GameOver,
        }
    }
}

/// What can happen to a game.
pub enum Event {
    /// The host reports the time, in milliseconds on its clock.
    Tick(u64),
    /// A key is pressed.
    Key(Key),
}

/// The state of a game.
pub struct GameView {
    /// The cells that the snake covers, from the tail to the head.
    pub body: Seq<Coord>,
    /// The heading of the snake.
    pub dir: Direction,
    /// The cell that holds the fruit, if there is one.
    pub fruit: Option<Coord>,
    /// Whether the game runs, rests, or is over.
    pub state: State,
    /// The time of the last move, in milliseconds on the host's clock.
    pub last_update: u64,
    /// The number of fruit eaten so far.
    pub score: nat,
}

/// The cells inside the wall, column after column.
pub open spec fn interior_cells() -> Seq<Coord> {
    Seq::new(
        ((MAP_INNER * MAP_INNER) as nat),
        |i: int| ((1 + i / MAP_INNER as int) as usize, (1 + i % MAP_INNER as int) as usize),
    )
}

impl GameView {
    /// The game as it starts, before the first fruit is laid out: a snake of
    /// three cells that heads right.
    pub open spec fn initial(now: u64) -> GameView {
        GameView {
            body: seq![(1usize, 1usize), (1usize, 2usize), (1usize, 3usize)],
            dir: Direction::Right,
            fruit: None,
            state: State::Playing,
            last_update: now,
            score: 0,
        }
    }

    /// The cell of the snake's head.
    pub open spec fn head(self) -> Coord {
        self.body.last()
    }

    /// The tile of cell `c`: wall on the outer ring, the fruit where it lies,
    /// nothing elsewhere.
    pub open spec fn tile(self, c: Coord) -> Tile {
        if is_border(c) {
            Tile::Wall
        } else if self.fruit == Some(c) {
            Tile::Fruit
        } else {
            Tile::Nothing
        }
    }

    /// The tiles of the whole board.
    pub open spec fn tiles(self) -> Map<Coord, Tile> {
        Map::new(|c: Coord| in_bounds(c), |c: Coord| self.tile(c))
    }

    /// Whether a fruit may be laid on `c`: the cell lies inside the wall and
    /// the snake does not cover it.
    pub open spec fn is_free(self, c: Coord) -> bool {
        is_interior(c) && !self.body.contains(c)
    }

    /// The cells on which a fruit may be laid, column after column.
    pub open spec fn free_cells(self) -> Seq<Coord> {
        interior_cells().filter(|c: Coord| !self.body.contains(c))
    }

    /// What holds of every state that a game can reach.
    ///
    /// The snake is as long as at the start plus one cell for each fruit
    /// eaten. It lies on the board, and inside the wall but for the head of a
    /// game that is over. Until the game is over no two of its cells are the
    /// same. The fruit lies inside the wall on a cell that the snake does not
    /// cover.
    pub open spec fn valid(self) -> bool {
        &&& self.body.len() == INITIAL_LENGTH + self.score
        &&& forall|i: int| 0 <= i < self.body.len() - 1 ==> is_interior(#[trigger] self.body[i])
        &&& in_bounds(self.head())
        &&& self.state != State::GameOver ==> is_interior(self.head())
        &&& self.state != State::GameOver ==> self.body.no_duplicates()
        &&& self.fruit matches Some(f) ==> self.is_free(f)
    }

    /// Milliseconds from the last move to `now`; none if the clock went back.
    pub open spec fn elapsed(self, now: u64) -> int {
        if now >= self.last_update {
            now - self.last_update
        } else {
            0
        }
    }

    /// Whether the snake moves at time `now`: the game runs and the time
    /// between two moves has passed.
    pub open spec fn due(self, now: u64) -> bool {
        self.state == State::Playing && self.elapsed(now) >= UPDATE_RATE
    }

    /// The cell that the head moves to.
    pub open spec fn next_head(self) -> Coord {
        spec_new_coord(self.dir, self.head())
    }

    /// Whether the head moves onto a cell that the snake covers.
    pub open spec fn hits_self(self) -> bool {
        self.body.contains(self.next_head())
    }

    /// Whether the head moves onto the wall.
    pub open spec fn hits_wall(self) -> bool {
        self.tile(self.next_head()) == Tile::Wall
    }

    /// Whether the head moves onto the fruit.
    pub open spec fn eats(self) -> bool {
        self.tile(self.next_head()) == Tile::Fruit
    }

    /// The state after the snake has moved at time `now`, before a new fruit
    /// is laid out.
    ///
    /// The head moves one cell. Onto the fruit: the snake grows by that cell,
    /// the score rises by one and the fruit is gone. Onto any other cell: the
    /// tail gives up its cell. The game is over if the head has moved onto the
    /// snake or onto the wall.
    pub open spec fn moved(self, now: u64) -> GameView {
        GameView {
            body: if self.eats() {
                self.body.push(self.next_head())
            } else {
                self.body.push(self.next_head()).drop_first()
            },
            dir: self.dir,
            fruit: if self.eats() {
                None
            } else {
                self.fruit
            },
            state: if self.hits_self() || self.hits_wall() {
                State::GameOver
            } else {
                State::Playing
            },
            last_update: now,
            score: if self.eats() {
                self.score + 1
            } else {
                self.score
            },
        }
    }

    /// The state after a press of `key`. A key for a heading turns the snake
    /// unless it asks to reverse; the pause key rests a running game and runs
    /// a resting one; no other key changes the state.
    pub open spec fn after_key(self, key: Key) -> GameView {
        match spec_key_action(key) {
            Action::Turn(d) => GameView { dir: self.dir.spec_turned(d), ..self },
            Action::TogglePause => GameView { state: self.state.spec_toggled(), ..self },
            Action::Quit => self,
            Action::Ignore => self,
        }
    }

    /// Whether `next` is `self` with a fruit laid out anew: on a free cell if
    /// there is one, and nowhere if the snake covers every cell inside the
    /// wall. Where the fruit lay before does not count.
    pub open spec fn respawned(self, next: GameView) -> bool {
        &&& next == GameView { fruit: next.fruit, ..self }
        &&& match next.fruit {
            Some(f) => self.is_free(f),
            None => forall|c: Coord| !#[trigger] self.is_free(c),
        }
    }

    /// Whether `next` may follow `self` on event `e`.
    pub open spec fn step_to(self, e: Event, next: GameView) -> bool {
        match e {
            Event::Tick(now) => self.tick_to(now, next),
            Event::Key(key) => next == self.after_key(key),
        }
    }

    /// Whether event `e` makes the snake eat the fruit.
    pub open spec fn eats_on(self, e: Event) -> bool {
        e matches Event::Tick(now) && self.due(now) && self.eats()
    }

    /// Whether `next` may follow `self` when the host reports time `now`.
    ///
    /// Nothing changes unless the snake is due to move. If it is, the snake
    /// moves, and where it has eaten the fruit a new one is laid out.
    pub open spec fn tick_to(self, now: u64, next: GameView) -> bool {
        if !self.due(now) {
            next == self
        } else if self.eats() {
            self.moved(now).respawned(next)
        } else {
            next == self.moved(now)
        }
    }
}

/// The number of fruit that event `e` makes the snake eat in state `g`.
pub open spec fn eaten_on(g: GameView, e: Event) -> nat {
    if g.eats_on(e) {
        1
    } else {
        0
    }
}

/// Whether `states` is a course of play under `events`: each event leads from
/// one state to the next.
pub open spec fn is_run(states: Seq<GameView>, events: Seq<Event>) -> bool {
    &&& states.len() == events.len() + 1
    &&& forall|i: int|
        0 <= i < events.len() ==> (#[trigger] states[i]).step_to(events[i], states[i + 1])
}

/// The number of events of a course of play on which the snake eats the fruit.
pub open spec fn fruit_eaten(states: Seq<GameView>, events: Seq<Event>) -> nat
    decreases events.len(),
{
    if events.len() == 0 {
        0
    } else {
        fruit_eaten(states.drop_last(), events.drop_last()) + eaten_on(
            states[events.len() - 1],
            events.last(),
        )
    }
}

/// The tiles of the board depend on the fruit alone.
pub proof fn lemma_tiles_of_fruit(g: GameView, h: GameView)
    requires
        g.fruit == h.fruit,
    ensures
        g.tiles() == h.tiles(),
{
    assert(g.tiles() =~= h.tiles());
}

/// The cells inside the wall are exactly the interior cells, each listed once.
pub proof fn lemma_interior_cells()
    ensures
        interior_cells().no_duplicates(),
        forall|c: Coord| #[trigger] interior_cells().contains(c) <==> is_interior(c),
{
    assert forall|c: Coord| is_interior(c) implies #[trigger] interior_cells().contains(c) by {
        let i = (c.0 - 1) * MAP_INNER + (c.1 - 1);
        assert(i / MAP_INNER as int == c.0 - 1 && i % MAP_INNER as int == c.1 - 1);
        assert(interior_cells()[i] == c);
    }
}

/// A fruit may be laid on exactly the cells that `free_cells` lists.
pub proof fn lemma_free_cells(g: GameView)
    ensures
        forall|c: Coord| #[trigger] g.free_cells().contains(c) <==> g.is_free(c),
{
    let pred = |c: Coord| !g.body.contains(c);
    let all = interior_cells();
    lemma_interior_cells();
    broadcast use vstd::seq_lib::group_filter_ensures;

    assert forall|c: Coord| #[trigger] g.free_cells().contains(c) implies g.is_free(c) by {
        all.lemma_filter_contains_rev(pred, c);
    }
    assert forall|c: Coord| g.is_free(c) implies #[trigger] g.free_cells().contains(c) by {
        let i = all.lemma_contains_to_index(c);
        assert(pred(all[i]));
    }
}

/// Every state that may follow a valid state is valid: after any tick the
/// cells of the snake differ from one another or the game is over, and the
/// fruit lies inside the wall on a cell that the snake does not cover.
pub proof fn lemma_tick_keeps_valid(g: GameView, now: u64, next: GameView)
    requires
        g.valid(),
        g.tick_to(now, next),
    ensures
        next.valid(),
        next.state != State::GameOver ==> next.body.no_duplicates(),
        next.fruit matches Some(f) ==> is_interior(f) && !is_border(f) && !next.body.contains(f),
{
    if g.due(now) {
        let nh = g.next_head();
        let pushed = g.body.push(nh);
        assert(in_bounds(nh));
        assert(forall|i: int| 0 <= i < g.body.len() ==> #[trigger] pushed[i] == g.body[i]);
        if g.eats() {
            assert(!g.body.contains(nh));
            assert(next.body == pushed);
            assert(pushed.no_duplicates());
        } else {
            assert(next.body == pushed.drop_first());
            assert(forall|i: int| 0 <= i < next.body.len() ==> next.body[i] == pushed[i + 1]);
            if !g.hits_self() {
                assert(pushed.no_duplicates());
                assert(next.body.no_duplicates());
            }
            if let Some(f) = g.fruit {
                assert(f != nh);
                if next.body.contains(f) {
                    let i = choose|i: int| 0 <= i < next.body.len() && next.body[i] == f;
                    assert(pushed[i + 1] == f);
                    assert(g.body[i + 1] == f);
                }
            }
        }
    }
}

/// A tick on which the snake eats the fruit adds one to the score and one
/// cell to the snake; any other tick leaves both as they were. So the score
/// never falls.
pub proof fn lemma_tick_score(g: GameView, now: u64, next: GameView)
    requires
        g.tick_to(now, next),
    ensures
        g.due(now) && g.eats() ==> next.score == g.score + 1 && next.body.len() == g.body.len() + 1,
        !(g.due(now) && g.eats()) ==> next.score == g.score && next.body.len() == g.body.len(),
        next.score >= g.score,
{
}

/// A tick changes nothing while the game rests or is over, whatever the time.
pub proof fn lemma_tick_idle(g: GameView, now: u64, next: GameView)
    requires
        g.state != State::Playing,
        g.tick_to(now, next),
    ensures
        next == g,
{
}

/// A key press leaves the snake, the fruit, the score and the clock as they
/// are, and a valid state valid. It never ends a game, and never revives one
/// that is over.
pub proof fn lemma_key_keeps_valid(g: GameView, key: Key)
    requires
        g.valid(),
    ensures
        g.after_key(key).valid(),
        g.after_key(key).body == g.body,
        g.after_key(key).fruit == g.fruit,
        g.after_key(key).score == g.score,
        g.after_key(key).last_update == g.last_update,
        g.after_key(key).state == State::GameOver <==> g.state == State::GameOver,
{
}

/// Two presses of the pause key bring every state back to itself, and a game
/// that is over stays over.
pub proof fn lemma_toggle_twice(s: State)
    ensures
        s.spec_toggled().spec_toggled() == s,
        s == State::GameOver <==> s.spec_toggled() == State::GameOver,
        s == State::Playing <==> s.spec_toggled() == State::Pause,
{
}

/// Whatever happens to a valid game leaves it valid.
pub proof fn lemma_step_keeps_valid(g: GameView, e: Event, next: GameView)
    requires
        g.valid(),
        g.step_to(e, next),
    ensures
        next.valid(),
{
    match e {
        Event::Tick(now) => {
            lemma_tick_keeps_valid(g, now, next);
        },
        Event::Key(key) => {
            lemma_key_keeps_valid(g, key);
        },
    }
}

/// Whatever happens to a game adds to the score and to the length of the
/// snake one for a fruit eaten, and nothing else.
pub proof fn lemma_step_score(g: GameView, e: Event, next: GameView)
    requires
        g.step_to(e, next),
    ensures
        next.score == g.score + eaten_on(g, e),
        next.body.len() == g.body.len() + eaten_on(g, e),
{
    match e {
        Event::Tick(now) => {
            lemma_tick_score(g, now, next);
        },
        Event::Key(key) => {},
    }
}

/// A course of play without its last event is a course of play.
proof fn lemma_run_prefix(states: Seq<GameView>, events: Seq<Event>)
    requires
        is_run(states, events),
        events.len() > 0,
    ensures
        is_run(states.drop_last(), events.drop_last()),
        states.drop_last().last() == states[events.len() - 1],
        states[events.len() - 1].step_to(events.last(), states.last()),
{
    let states0 = states.drop_last();
    let events0 = events.drop_last();
    assert forall|i: int| 0 <= i < events0.len() implies (#[trigger] states0[i]).step_to(
        events0[i],
        states0[i + 1],
    ) by {
        assert(states[i].step_to(events[i], states[i + 1]));
    }
    assert(states[events.len() - 1].step_to(events[events.len() - 1], states[events.len() as int]));
}

/// Over a course of play that starts in a valid state every state is valid:
/// at any time the cells of the snake differ from one another or the game is
/// over, the snake is as long as at the start plus the score, and the fruit
/// lies inside the wall on a cell that the snake does not cover.
pub proof fn lemma_run_keeps_valid(states: Seq<GameView>, events: Seq<Event>)
    requires
        is_run(states, events),
        states[0].valid(),
    ensures
        forall|i: int| 0 <= i < states.len() ==> (#[trigger] states[i]).valid(),
    decreases events.len(),
{
    if events.len() > 0 {
        let n = events.len() as int;
        let states0 = states.drop_last();
        lemma_run_prefix(states, events);
        lemma_run_keeps_valid(states0, events.drop_last());
        assert(states0[n - 1].valid());
        lemma_step_keeps_valid(states[n - 1], events[n - 1], states[n]);
        assert forall|i: int| 0 <= i < states.len() implies (#[trigger] states[i]).valid() by {
            if i < n {
                assert(states0[i].valid());
            }
        }
    }
}

/// Over a course of play the score rises by the number of fruit eaten, and
/// the snake grows by as many cells. A course without a fruit eaten leaves
/// the snake as long as it was.
pub proof fn lemma_run_score(states: Seq<GameView>, events: Seq<Event>)
    requires
        is_run(states, events),
    ensures
        states.last().score == states[0].score + fruit_eaten(states, events),
        states.last().body.len() == states[0].body.len() + fruit_eaten(states, events),
    decreases events.len(),
{
    if events.len() > 0 {
        let n = events.len() as int;
        lemma_run_prefix(states, events);
        lemma_run_score(states.drop_last(), events.drop_last());
        lemma_step_score(states[n - 1], events[n - 1], states[n]);
    }
}

/// Over a course of play the score never falls.
pub proof fn lemma_score_never_falls(states: Seq<GameView>, events: Seq<Event>, i: int, j: int)
    requires
        is_run(states, events),
        0 <= i <= j < states.len(),
    ensures
        states[i].score <= states[j].score,
    decreases j - i,
{
    if i < j {
        lemma_score_never_falls(states, events, i, j - 1);
        assert(states[j - 1].step_to(events[j - 1], states[j]));
        lemma_step_score(states[j - 1], events[j - 1], states[j]);
    }
}

/// A game that has just started is valid, with a snake of `INITIAL_LENGTH`
/// cells and no score, wherever its first fruit was laid out.
pub proof fn lemma_start_valid(now: u64, g: GameView)
    requires
        GameView::initial(now).respawned(g),
    ensures
        g.valid(),
        g.body.len() == INITIAL_LENGTH,
        g.score == 0,
        g.fruit is Some,
{
    let start = GameView::initial(now);
    assert(start.is_free((5usize, 5usize)));
}

/// A snake that moves onto the wall ends the game.
pub proof fn lemma_wall_ends_game(g: GameView, now: u64, next: GameView)
    requires
        g.due(now),
        g.hits_wall(),
        g.tick_to(now, next),
    ensures
        next.state == State::GameOver,
{
}

} // verus!
