//! From key presses to what the game does with them.

use vstd::prelude::*;
use crate::direction::Direction;

verus! {

/// A key of the keyboard, as far as the game tells keys apart.
#[derive(Clone, Copy, Debug, PartialEq, Eq, Structural)]
pub enum Key {
    A,
    D,
    H,
    J,
    K,
    L,
    P,
    Q,
    S,
    W,
    Left,
    Down,
    Up,
    Right,
    /// Any key that the game does not use.
    Other,
}

/// What a key press asks for.
#[derive(Clone, Copy, Debug, PartialEq, Eq, Structural)]
pub enum Action {
    /// Turn the snake to this heading.
    Turn(Direction),
    /// Rest a running game, or run a resting one.
    TogglePause,
    /// Leave the game.
    Quit,
    /// Nothing at all.
    Ignore,
}

/// What a press of `key` asks for. Each heading has three keys: an arrow, one
/// of `W` `A` `S` `D`, and one of `H` `J` `K` `L`. `P` pauses and `Q` quits.
pub open spec fn spec_key_action(key: Key) -> Action {
    match key {
        Key::H | Key::A | Key::Left => Action::Turn(Direction::Left),
        Key::J | Key::S | Key::Down => Action::Turn(Direction::Down),
        Key::K | Key::W | Key::Up => Action::Turn(Direction::Up),
        Key::L | Key::D | Key::Right => Action::Turn(Direction::Right),
        Key::P => Action::TogglePause,
        Key::Q => Action::Quit,
        Key::Other => Action::Ignore,
    }
}

/// What a press of `key` asks for.
#[verifier::when_used_as_spec(spec_key_action)]
pub fn key_action(key: Key) -> (a: Action)
    ensures
        a == spec_key_action(key),
{
    match key {
        Key::H | Key::A | Key::Left => Action::Turn(Direction::Left),
        Key::J | Key::S | Key::Down => Action::Turn(Direction::Down),
        Key::K | Key::W | Key::Up => Action::Turn(Direction::Up),
        Key::L | Key::D | Key::Right => Action::Turn(Direction::Right),
        Key::P => Action::TogglePause,
        Key::Q => Action::Quit,
        Key::Other => Action::Ignore,
    }
}

} // verus!
