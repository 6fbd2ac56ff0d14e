//! A terminal snake game: the board geometry, the snake, food placement and
//! the per-frame rules of a play session.

pub mod direction;
pub mod food;
pub mod input;
pub mod snake;
pub mod game;
