//! The simulation core of a snake game on a square board that wraps at its
//! edges: the board, the snake, the reward cell and the state of the game,
//! advanced one tick at a time.

pub mod grid;
pub mod laws;
pub mod world;
