//! What a frame shows: the board, the snake and the texts, as shapes for the
//! host to paint in order.

use vstd::prelude::*;
use crate::direction::{in_bounds, Coord, MAP_SIZE};
use crate::game::MyGame;
use crate::grid::Tile;
use crate::model::{GameView, State};

verus! {

/// Side length of a cell on the screen, in pixels.
pub const CELL_SIZE: usize = 10;

/// Width of the panel to the right of the board, in pixels.
pub const PANEL_WIDTH: usize = 80;

/// Height of the strip below the board, in pixels.
pub const PANEL_HEIGHT: usize = 30;

/// The scale at which every text is set.
pub const TEXT_SCALE: usize = 20;

/// A colour, each part in hundredths of full intensity.
#[derive(Clone, Copy, Debug, PartialEq, Eq, Structural)]
pub struct Color {
    pub red: u8,
    pub green: u8,
    pub blue: u8,
}

/// What a filled square stands for.
#[derive(Clone, Copy, Debug, PartialEq, Eq, Structural)]
pub enum Paint {
    Wall,
    Fruit,
    Body,
    Head,
}

impl Paint {
    /// The colour of the square: the wall white, the fruit green, the snake
    /// red with a darker head.
    pub open spec fn spec_color(self) -> Color {
        match self {
            Paint::Wall => Color { red: 100, green: 100, blue: 100 },
            Paint::Fruit => Color { red: 0, green: 100, blue: 0 },
            Paint::Body => Color { red: 100, green: 0, blue: 0 },
            Paint::Head => Color { red: 70, green: 0, blue: 0 },
        }
    }

    /// The colour of the square.
    #[verifier::when_used_as_spec(spec_color)]
    pub fn color(self) -> (c: Color)
        ensures
            c == self.spec_color(),
    {
        match self {
            Paint::Wall => Color { red: 100, green: 100, blue: 100 },
            Paint::Fruit => Color { red: 0, green: 100, blue: 0 },
            Paint::Body => Color { red: 100, green: 0, blue: 0 },
            Paint::Head => Color { red: 70, green: 0, blue: 0 },
        }
    }
}

/// A text on the screen.
#[derive(Clone, Copy, Debug, PartialEq, Eq, Structural)]
pub enum Text {
    /// The words that tell that the game is over.
    GameOver,
    /// The word that tells that the game rests.
    Pause,
    /// The heading above the score.
    ScoreTitle,
    /// The score, as a number.
    Score(usize),
}

impl Text {
    /// The words of a text that is always the same; `None` for the score,
    /// which the host writes out as a decimal number.
    pub fn words(self) -> (w: Option<&'static str>)
        ensures
            self == Text::GameOver ==> w.is_some() && w.unwrap()@ == "Game Over"@,
            self == Text::Pause ==> w.is_some() && w.unwrap()@ == "Pause"@,
            self == Text::ScoreTitle ==> w.is_some() && w.unwrap()@ == "SCORE:"@,
            self is Score <==> w.is_none(),
    {
        match self {
            Text::GameOver => Some("Game Over"),
            Text::Pause => Some("Pause"),
            Text::ScoreTitle => Some("SCORE:"),
            Text::Score(_) => None,
        }
    }
}

/// One thing to paint. Places and sizes are in pixels from the upper left
/// corner of the window.
#[derive(Clone, Copy, Debug, PartialEq, Eq, Structural)]
pub enum Shape {
    /// A filled rectangle.
    Rect { x: usize, y: usize, w: usize, h: usize, paint: Paint },
    /// A white text at scale `TEXT_SCALE`.
    Label { x: usize, y: usize, text: Text },
}

/// The size of the window, width first: the board with a panel to its right
/// and a strip below.
pub open spec fn spec_window_size() -> (usize, usize) {
    ((MAP_SIZE * CELL_SIZE + PANEL_WIDTH) as usize, (MAP_SIZE * CELL_SIZE + PANEL_HEIGHT) as usize)
}

/// The size of the window in pixels, width first.
#[verifier::when_used_as_spec(spec_window_size)]
pub fn window_size() -> (size: (usize, usize))
    ensures
        size == spec_window_size(),
{
    (MAP_SIZE * CELL_SIZE + PANEL_WIDTH, MAP_SIZE * CELL_SIZE + PANEL_HEIGHT)
}

/// The cells of the board, column after column.
pub open spec fn all_cells() -> Seq<Coord> {
    Seq::new(
        (MAP_SIZE * MAP_SIZE) as nat,
        |i: int| ((i / MAP_SIZE as int) as usize, (i % MAP_SIZE as int) as usize),
    )
}

/// The square that covers cell `c`.
pub open spec fn cell_rect(c: Coord, paint: Paint) -> Shape {
    Shape::Rect {
        x: (c.0 * CELL_SIZE) as usize,
        y: (c.1 * CELL_SIZE) as usize,
        w: CELL_SIZE,
        h: CELL_SIZE,
        paint,
    }
}

/// The square of a tile that is painted.
pub open spec fn tile_rect(g: GameView, c: Coord) -> Shape {
    cell_rect(
        c,
        if g.tile(c) == Tile::Wall {
            Paint::Wall
        } else {
            Paint::Fruit
        },
    )
}

/// The squares of the board: one for each cell that holds the wall or the
/// fruit, column after column.
pub open spec fn board_shapes(g: GameView) -> Seq<Shape> {
    all_cells().filter(|c: Coord| g.tile(c) != Tile::Nothing).map_values(
        |c: Coord| tile_rect(g, c),
    )
}

/// The squares of the snake: its cells from the tail on, the head last and in
/// its own colour.
pub open spec fn snake_shapes(g: GameView) -> Seq<Shape> {
    g.body.drop_last().map_values(|c: Coord| cell_rect(c, Paint::Body)).push(
        cell_rect(g.head(), Paint::Head),
    )
}

/// The text below the board that tells that the game rests or is over; none
/// while it runs.
pub open spec fn status_shapes(state: State) -> Seq<Shape> {
    match state {
        State::GameOver => seq![
            Shape::Label { x: 0, y: (MAP_SIZE * CELL_SIZE) as usize, text: Text::GameOver },
        ],
        State::Pause => seq![
            Shape::Label { x: 0, y: (MAP_SIZE * CELL_SIZE) as usize, text: Text::Pause },
        ],
        State::Playing => seq![],
    }
}

/// The score to the right of the board: its heading, and the number below.
pub open spec fn score_shapes(score: nat) -> Seq<Shape> {
    seq![
        Shape::Label { x: (MAP_SIZE * CELL_SIZE) as usize, y: 0, text: Text::ScoreTitle },
        Shape::Label {
            x: (MAP_SIZE * CELL_SIZE) as usize,
            y: (2 * CELL_SIZE) as usize,
            text: Text::Score(score as usize),
        },
    ]
}

/// All that a frame shows, in the order in which it is painted: the board,
/// the snake, the status and the score.
pub open spec fn picture(g: GameView) -> Seq<Shape> {
    board_shapes(g) + snake_shapes(g) + status_shapes(g.state) + score_shapes(g.score)
}

impl MyGame {
    /// The shapes of the board.
    fn draw_board(&self) -> (shapes: Vec<Shape>)
        requires
            self.inv(),
        ensures
            shapes@ == board_shapes(self@),
    {
        let ghost g = self@;
        let ghost shown = |c: Coord| g.tile(c) != Tile::Nothing;
        let ghost rect = |c: Coord| tile_rect(g, c);
        let mut shapes: Vec<Shape> = Vec::new();
        let mut i: usize = 0;
        assert(all_cells().take(0).filter(shown).map_values(rect) =~= Seq::<Shape>::empty());
        while i < MAP_SIZE * MAP_SIZE
            invariant
                self.inv(),
                g == self@,
                shown == |c: Coord| g.tile(c) != Tile::Nothing,
                rect == |c: Coord| tile_rect(g, c),
                i <= MAP_SIZE * MAP_SIZE,
                shapes@ == all_cells().take(i as int).filter(shown).map_values(rect),
            decreases MAP_SIZE * MAP_SIZE - i,
        {
            let c: Coord = (i / MAP_SIZE, i % MAP_SIZE);
            let tile = self.tile_at(c);
            proof {
                assert(all_cells()[i as int] == c);
                all_cells().lemma_take_succ_push(i as int);
                all_cells().take(i as int).lemma_filter_push(c, shown);
                all_cells().take(i as int).filter(shown).lemma_push_map_commute(rect, c);
            }
            if tile != Tile::Nothing {
                let paint = if tile == Tile::Wall {
                    Paint::Wall
                } else {
                    Paint::Fruit
                };
                shapes.push(
                    Shape::Rect { x: c.0 * CELL_SIZE, y: c.1 * CELL_SIZE, w: CELL_SIZE, h: CELL_SIZE, paint },
                );
            }
            i = i + 1;
        }
        assert(all_cells().take(i as int) =~= all_cells());
        shapes
    }

    /// All that a frame shows, in the order in which the host is to paint it
    /// on a black ground.
    pub fn draw(&self) -> (shapes: Vec<Shape>)
        requires
            self.wf(),
        ensures
            shapes@ == picture(self@),
    {
        let ghost g = self@;
        let ghost rect = |c: Coord| cell_rect(c, Paint::Body);
        let mut shapes = self.draw_board();
        let snake = self.snake();
        let n = snake.len();
        let mut k: usize = 0;
        assert(g.body.take(0).map_values(rect) =~= Seq::<Shape>::empty());
        while k < n - 1
            invariant
                g == self@,
                g.valid(),
                snake@ == g.body,
                n == g.body.len(),
                rect == |c: Coord| cell_rect(c, Paint::Body),
                k <= n - 1,
                shapes@ == board_shapes(g) + g.body.take(k as int).map_values(rect),
            decreases n - k,
        {
            let c = snake.segment(k);
            proof {
                g.body.lemma_take_succ_push(k as int);
                g.body.take(k as int).lemma_push_map_commute(rect, c);
                assert(in_bounds(c));
            }
            shapes.push(
                Shape::Rect { x: c.0 * CELL_SIZE, y: c.1 * CELL_SIZE, w: CELL_SIZE, h: CELL_SIZE, paint: Paint::Body },
            );
            k = k + 1;
        }
        assert(g.body.take(k as int) =~= g.body.drop_last());
        let head = snake.head();
        shapes.push(
            Shape::Rect {
                x: head.0 * CELL_SIZE,
                y: head.1 * CELL_SIZE,
                w: CELL_SIZE,
                h: CELL_SIZE,
                paint: Paint::Head,
            },
        );
        assert(shapes@ =~= board_shapes(g) + snake_shapes(g));
        match self.state() {
            State::GameOver => {
                shapes.push(Shape::Label { x: 0, y: MAP_SIZE * CELL_SIZE, text: Text::GameOver });
            },
            State::Pause => {
                shapes.push(Shape::Label { x: 0, y: MAP_SIZE * CELL_SIZE, text: Text::Pause });
            },
            State::Playing => {},
        }
        assert(shapes@ =~= board_shapes(g) + snake_shapes(g) + status_shapes(g.state));
        shapes.push(Shape::Label { x: MAP_SIZE * CELL_SIZE, y: 0, text: Text::ScoreTitle });
        shapes.push(
            Shape::Label { x: MAP_SIZE * CELL_SIZE, y: 2 * CELL_SIZE, text: Text::Score(self.score()) },
        );
        assert(shapes@ =~= picture(g));
        shapes
    }
}

} // verus!
