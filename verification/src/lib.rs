//! The rules of a grid-based snake game.
//!
//! The board is a fixed square of tiles with a wall around it. A snake moves
//! over the board one cell per tick, grows when it eats the fruit, and the game
//! ends when it runs into the wall or into itself. This crate holds the rules
//! only: the host supplies the clock and the key presses, and paints the frame
//! that [`game::MyGame::draw`] describes.

pub mod direction;
pub mod grid;
pub mod snake;
pub mod input;
pub mod model;
pub mod game;
pub mod render;
mod random;
