//! The rules of a snake game on a bounded grid that wraps at its edges:
//! how the snake moves, eats, grows and runs into itself, where food may
//! be placed, and how key presses steer the snake.

pub mod geometry;
pub mod food;
pub mod snake;
pub mod control;
pub mod laws;
