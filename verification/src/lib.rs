//! A single-player Snake engine: a board of cells, a snake, an apple, and the
//! rule that advances the game by one move.

pub mod board;
pub mod cell;
pub mod game;
pub mod laws;
pub mod play;
mod random;
pub mod state;
pub mod strategy;
pub mod text;

pub use board::{Board, Grid};
pub use cell::{Cell, Direction, SnakeLost};
pub use game::Game;
pub use play::{Ending, Turn};
pub use state::GameView;
pub use strategy::{action_for_key, Action, Key, Rotate, SnakeStrategy};
