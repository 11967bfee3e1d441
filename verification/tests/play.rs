use snek::direction::{Coord, Direction, MAP_SIZE};
use snek::game::MyGame;
use snek::grid::Tile;
use snek::input::Key;
use snek::model::State;

/// A new game at time 0 with the fruit moved to `fruit`.
fn game_with_fruit(fruit: Coord) -> MyGame {
    let mut g = MyGame::new(0);
    move_fruit(&mut g, fruit);
    g
}

fn move_fruit(g: &mut MyGame, to: Coord) {
    let at = g.fruit().expect("a fruit on the board");
    g.remove_fruit(at);
    assert_eq!(g.fruit(), None);
    assert!(!g.snake().contains(to));
    g.put_fruit(to);
    assert_eq!(g.fruit(), Some(to));
}

fn is_interior(c: Coord) -> bool {
    1 <= c.0 && c.0 < MAP_SIZE - 1 && 1 <= c.1 && c.1 < MAP_SIZE - 1
}

fn distinct(cells: &[Coord]) -> bool {
    for i in 0..cells.len() {
        for j in i + 1..cells.len() {
            if cells[i] == cells[j] {
                return false;
            }
        }
    }
    true
}

fn count_fruit(g: &MyGame) -> usize {
    let mut n = 0;
    for x in 0..MAP_SIZE {
        for y in 0..MAP_SIZE {
            if g.tile_at((x, y)) == Tile::Fruit {
                n += 1;
            }
        }
    }
    n
}

#[test]
fn new_game_starts_with_three_cells_heading_right() {
    let g = MyGame::new(1234);
    assert_eq!(g.snake().cells(), vec![(1, 1), (1, 2), (1, 3)]);
    assert_eq!(g.direction(), Direction::Right);
    assert_eq!(g.state(), State::Playing);
    assert_eq!(g.score(), 0);
    assert_eq!(g.last_update(), 1234);
}

#[test]
fn new_game_has_one_fruit_on_a_free_cell() {
    for _ in 0..200 {
        let g = MyGame::new(0);
        let f = g.fruit().expect("a fruit on the board");
        assert!(is_interior(f));
        assert!(!g.snake().contains(f));
        assert_eq!(g.tile_at(f), Tile::Fruit);
        assert_eq!(count_fruit(&g), 1);
    }
}

#[test]
fn new_game_has_walls_around_the_board() {
    let g = game_with_fruit((5, 5));
    for x in 0..MAP_SIZE {
        for y in 0..MAP_SIZE {
            let expected = if !is_interior((x, y)) {
                Tile::Wall
            } else if (x, y) == (5, 5) {
                Tile::Fruit
            } else {
                Tile::Nothing
            };
            assert_eq!(g.tile_at((x, y)), expected);
        }
    }
}

#[test]
fn free_cells_are_the_interior_without_the_snake() {
    let g = MyGame::new(0);
    let free = g.free_cells();
    assert_eq!(free.len(), 18 * 18 - 3);
    assert_eq!(free[0], (1, 4));
    assert_eq!(free[1], (1, 5));
    assert_eq!(free[14], (1, 18));
    assert_eq!(free[15], (2, 1));
    assert_eq!(free[free.len() - 1], (18, 18));
    assert!(distinct(&free));
    for c in &free {
        assert!(is_interior(*c));
        assert!(!g.snake().contains(*c));
    }
}

#[test]
fn swap_fruit_lays_the_fruit_on_a_free_cell() {
    let mut g = MyGame::new(0);
    let mut seen: Vec<Coord> = Vec::new();
    for _ in 0..300 {
        let at = g.fruit().expect("a fruit on the board");
        g.swap_fruit(at);
        let f = g.fruit().expect("a fruit on the board");
        assert!(is_interior(f));
        assert!(!g.snake().contains(f));
        assert_eq!(count_fruit(&g), 1);
        if !seen.contains(&f) {
            seen.push(f);
        }
        assert_eq!(g.snake().cells(), vec![(1, 1), (1, 2), (1, 3)]);
        assert_eq!(g.score(), 0);
        assert_eq!(g.state(), State::Playing);
    }
    assert!(seen.len() > 1);
}

#[test]
fn first_tick_moves_the_head_right() {
    let mut g = game_with_fruit((5, 5));
    g.update(100);
    assert_eq!(g.snake().cells(), vec![(1, 2), (1, 3), (2, 3)]);
    assert_eq!(g.snake().len(), 3);
    assert_eq!(g.score(), 0);
    assert_eq!(g.state(), State::Playing);
    assert_eq!(g.fruit(), Some((5, 5)));
    assert_eq!(g.last_update(), 100);
}

#[test]
fn update_waits_for_the_tick() {
    let mut g = game_with_fruit((5, 5));
    g.update(99);
    assert_eq!(g.snake().cells(), vec![(1, 1), (1, 2), (1, 3)]);
    assert_eq!(g.last_update(), 0);
    g.update(100);
    assert_eq!(g.snake().cells(), vec![(1, 2), (1, 3), (2, 3)]);
    assert_eq!(g.last_update(), 100);
    g.update(199);
    assert_eq!(g.snake().cells(), vec![(1, 2), (1, 3), (2, 3)]);
    assert_eq!(g.last_update(), 100);
    g.update(250);
    assert_eq!(g.snake().cells(), vec![(1, 3), (2, 3), (3, 3)]);
    assert_eq!(g.last_update(), 250);
}

#[test]
fn update_ignores_a_clock_that_went_back() {
    let mut g = MyGame::new(5000);
    let f = g.fruit();
    g.update(0);
    g.update(4999);
    g.update(5099);
    assert_eq!(g.snake().cells(), vec![(1, 1), (1, 2), (1, 3)]);
    assert_eq!(g.last_update(), 5000);
    assert_eq!(g.fruit(), f);
}

#[test]
fn update_at_the_end_of_the_clock() {
    let mut g = game_with_fruit((5, 5));
    g.update(u64::MAX);
    assert_eq!(g.snake().cells(), vec![(1, 2), (1, 3), (2, 3)]);
    assert_eq!(g.last_update(), u64::MAX);
    g.update(u64::MAX);
    assert_eq!(g.snake().cells(), vec![(1, 2), (1, 3), (2, 3)]);
}

#[test]
fn length_is_constant_without_fruit() {
    let mut g = game_with_fruit((5, 5));
    let mut now = 0;
    for _ in 0..10 {
        now += 100;
        g.update(now);
        assert_eq!(g.snake().len(), 3);
        assert_eq!(g.score(), 0);
        assert_eq!(g.state(), State::Playing);
    }
    assert_eq!(g.snake().cells(), vec![(9, 3), (10, 3), (11, 3)]);
}

#[test]
fn eating_grows_the_snake_and_raises_the_score() {
    let mut g = game_with_fruit((2, 3));
    g.update(100);
    assert_eq!(g.snake().cells(), vec![(1, 1), (1, 2), (1, 3), (2, 3)]);
    assert_eq!(g.score(), 1);
    assert_eq!(g.state(), State::Playing);
    let f = g.fruit().expect("a new fruit");
    assert!(is_interior(f));
    assert!(!g.snake().contains(f));
    assert_eq!(g.tile_at((2, 3)), Tile::Nothing);
    assert_eq!(count_fruit(&g), 1);
}

#[test]
fn length_is_three_plus_the_fruit_eaten() {
    let mut g = game_with_fruit((2, 3));
    let mut now = 0;
    for k in 1..=10usize {
        now += 100;
        g.update(now);
        assert_eq!(g.score(), k);
        assert_eq!(g.snake().len(), 3 + k);
        assert!(distinct(&g.snake().cells()));
        move_fruit(&mut g, (2 + k, 3));
    }
    move_fruit(&mut g, (5, 10));
    for _ in 0..3 {
        now += 100;
        g.update(now);
        assert_eq!(g.score(), 10);
        assert_eq!(g.snake().len(), 13);
    }
}

#[test]
fn score_never_falls() {
    let mut g = MyGame::new(0);
    let keys = [Key::Other, Key::Down, Key::Other, Key::Right, Key::Other, Key::Up, Key::Other, Key::Left];
    let mut now = 0;
    let mut last = 0;
    for step in 0..400 {
        g.key_down_event(keys[step % keys.len()]);
        now += 100;
        g.update(now);
        assert!(g.score() >= last);
        assert!(g.score() <= last + 1);
        assert_eq!(g.snake().len(), 3 + g.score());
        last = g.score();
        if g.state() != State::GameOver {
            assert!(distinct(&g.snake().cells()));
        }
        if let Some(f) = g.fruit() {
            assert!(is_interior(f));
            assert!(!g.snake().contains(f));
        }
    }
}

#[test]
fn paused_game_does_not_move() {
    let mut g = game_with_fruit((2, 3));
    assert!(!g.key_down_event(Key::P));
    assert_eq!(g.state(), State::Pause);
    for now in [0, 100, 1000, 1_000_000, u64::MAX] {
        g.update(now);
        assert_eq!(g.snake().cells(), vec![(1, 1), (1, 2), (1, 3)]);
        assert_eq!(g.score(), 0);
        assert_eq!(g.fruit(), Some((2, 3)));
        assert_eq!(g.state(), State::Pause);
        assert_eq!(g.last_update(), 0);
    }
}

#[test]
fn wall_ends_the_game() {
    let mut g = game_with_fruit((5, 5));
    let mut now = 0;
    for x in 2..=18 {
        now += 100;
        g.update(now);
        assert_eq!(g.state(), State::Playing);
        assert_eq!(g.snake().head(), (x, 3));
    }
    now += 100;
    g.update(now);
    assert_eq!(g.state(), State::GameOver);
    assert_eq!(g.snake().cells(), vec![(17, 3), (18, 3), (19, 3)]);
    assert_eq!(g.tile_at((19, 3)), Tile::Wall);
    assert_eq!(g.score(), 0);
    assert_eq!(g.last_update(), 1800);
}

#[test]
fn game_over_is_final() {
    let mut g = game_with_fruit((5, 5));
    for t in 1..=18u64 {
        g.update(t * 100);
    }
    assert_eq!(g.state(), State::GameOver);
    for now in [1900, 2000, 100_000, u64::MAX] {
        g.update(now);
        assert_eq!(g.state(), State::GameOver);
        assert_eq!(g.snake().cells(), vec![(17, 3), (18, 3), (19, 3)]);
        assert_eq!(g.score(), 0);
        assert_eq!(g.fruit(), Some((5, 5)));
        assert_eq!(g.last_update(), 1800);
    }
    assert!(!g.key_down_event(Key::P));
    assert_eq!(g.state(), State::GameOver);
    g.update(u64::MAX);
    assert_eq!(g.snake().cells(), vec![(17, 3), (18, 3), (19, 3)]);
}

#[test]
fn running_into_itself_ends_the_game() {
    let mut g = game_with_fruit((2, 3));
    g.update(100);
    move_fruit(&mut g, (3, 3));
    g.update(200);
    move_fruit(&mut g, (10, 10));
    assert_eq!(g.snake().cells(), vec![(1, 1), (1, 2), (1, 3), (2, 3), (3, 3)]);
    g.key_down_event(Key::Down);
    g.update(300);
    assert_eq!(g.snake().cells(), vec![(1, 2), (1, 3), (2, 3), (3, 3), (3, 4)]);
    g.key_down_event(Key::Left);
    g.update(400);
    assert_eq!(g.snake().cells(), vec![(1, 3), (2, 3), (3, 3), (3, 4), (2, 4)]);
    assert_eq!(g.state(), State::Playing);
    g.key_down_event(Key::Up);
    g.update(500);
    assert_eq!(g.state(), State::GameOver);
    assert_eq!(g.snake().cells(), vec![(2, 3), (3, 3), (3, 4), (2, 4), (2, 3)]);
    assert_eq!(g.score(), 2);
    assert_eq!(g.fruit(), Some((10, 10)));
}

#[test]
fn moving_onto_the_cell_the_tail_leaves_ends_the_game() {
    let mut g = game_with_fruit((2, 3));
    g.update(100);
    move_fruit(&mut g, (10, 10));
    g.key_down_event(Key::Up);
    g.update(200);
    assert_eq!(g.snake().cells(), vec![(1, 2), (1, 3), (2, 3), (2, 2)]);
    assert_eq!(g.state(), State::Playing);
    g.key_down_event(Key::Left);
    g.update(300);
    assert_eq!(g.state(), State::GameOver);
    assert_eq!(g.snake().cells(), vec![(1, 3), (2, 3), (2, 2), (1, 2)]);
    assert_eq!(g.score(), 1);
}

#[test]
fn turning_up_at_the_start_runs_into_the_body() {
    let mut g = game_with_fruit((5, 5));
    g.key_down_event(Key::W);
    assert_eq!(g.direction(), Direction::Up);
    g.update(100);
    assert_eq!(g.state(), State::GameOver);
    assert_eq!(g.snake().cells(), vec![(1, 2), (1, 3), (1, 2)]);
}

#[test]
fn pause_key_toggles() {
    let mut g = game_with_fruit((5, 5));
    assert_eq!(g.state(), State::Playing);
    assert!(!g.key_down_event(Key::P));
    assert_eq!(g.state(), State::Pause);
    assert!(!g.key_down_event(Key::P));
    assert_eq!(g.state(), State::Playing);
    g.update(100);
    assert_eq!(g.snake().cells(), vec![(1, 2), (1, 3), (2, 3)]);
}

#[test]
fn direction_keys_turn_the_snake() {
    let mut g = game_with_fruit((5, 5));
    for k in [Key::J, Key::S, Key::Down] {
        let mut h = game_with_fruit((5, 5));
        assert!(!h.key_down_event(k));
        assert_eq!(h.direction(), Direction::Down);
    }
    assert!(!g.key_down_event(Key::Down));
    assert_eq!(g.direction(), Direction::Down);
    g.update(100);
    assert_eq!(g.snake().cells(), vec![(1, 2), (1, 3), (1, 4)]);
    for k in [Key::L, Key::D, Key::Right] {
        g.key_down_event(Key::Down);
        assert!(!g.key_down_event(k));
        assert_eq!(g.direction(), Direction::Right);
    }
    for k in [Key::H, Key::A, Key::Left] {
        g.key_down_event(Key::Down);
        assert!(!g.key_down_event(k));
        assert_eq!(g.direction(), Direction::Left);
    }
    for k in [Key::K, Key::W, Key::Up] {
        g.key_down_event(Key::Left);
        assert!(!g.key_down_event(k));
        assert_eq!(g.direction(), Direction::Up);
    }
}

#[test]
fn reversal_is_refused() {
    let mut g = game_with_fruit((5, 5));
    for k in [Key::H, Key::A, Key::Left] {
        g.key_down_event(k);
        assert_eq!(g.direction(), Direction::Right);
    }
    g.key_down_event(Key::Down);
    for k in [Key::K, Key::W, Key::Up] {
        g.key_down_event(k);
        assert_eq!(g.direction(), Direction::Down);
    }
    g.key_down_event(Key::Left);
    for k in [Key::L, Key::D, Key::Right] {
        g.key_down_event(k);
        assert_eq!(g.direction(), Direction::Left);
    }
    g.key_down_event(Key::Up);
    for k in [Key::J, Key::S, Key::Down] {
        g.key_down_event(k);
        assert_eq!(g.direction(), Direction::Up);
    }
}

#[test]
fn last_turn_before_the_tick_wins() {
    let mut g = game_with_fruit((5, 5));
    g.key_down_event(Key::Down);
    g.key_down_event(Key::Left);
    assert_eq!(g.direction(), Direction::Left);
    g.update(100);
    assert_eq!(g.state(), State::GameOver);
    assert_eq!(g.snake().cells(), vec![(1, 2), (1, 3), (0, 3)]);
}

#[test]
fn keys_turn_the_snake_while_paused() {
    let mut g = game_with_fruit((5, 5));
    g.key_down_event(Key::P);
    g.key_down_event(Key::Down);
    assert_eq!(g.direction(), Direction::Down);
    assert_eq!(g.state(), State::Pause);
    g.update(1000);
    assert_eq!(g.snake().cells(), vec![(1, 1), (1, 2), (1, 3)]);
}

#[test]
fn quit_key_asks_to_leave_in_every_state() {
    let mut g = game_with_fruit((5, 5));
    assert!(g.key_down_event(Key::Q));
    assert_eq!(g.state(), State::Playing);
    g.key_down_event(Key::P);
    assert!(g.key_down_event(Key::Q));
    assert_eq!(g.state(), State::Pause);
    g.key_down_event(Key::P);
    g.key_down_event(Key::Up);
    g.update(100);
    assert_eq!(g.state(), State::GameOver);
    assert!(g.key_down_event(Key::Q));
    assert_eq!(g.state(), State::GameOver);
}

#[test]
fn other_keys_change_nothing() {
    let mut g = game_with_fruit((5, 5));
    assert!(!g.key_down_event(Key::Other));
    assert_eq!(g.direction(), Direction::Right);
    assert_eq!(g.state(), State::Playing);
    assert_eq!(g.snake().cells(), vec![(1, 1), (1, 2), (1, 3)]);
    assert_eq!(g.fruit(), Some((5, 5)));
    assert_eq!(g.score(), 0);
}

#[test]
fn remove_fruit_leaves_the_board_without_fruit() {
    let mut g = MyGame::new(0);
    let at = g.fruit().expect("a fruit on the board");
    g.remove_fruit(at);
    assert_eq!(g.fruit(), None);
    assert_eq!(count_fruit(&g), 0);
    assert_eq!(g.tile_at(at), Tile::Nothing);
    g.update(100);
    assert_eq!(g.snake().cells(), vec![(1, 2), (1, 3), (2, 3)]);
    assert_eq!(g.fruit(), None);
}
