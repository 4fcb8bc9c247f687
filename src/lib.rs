//! A terminal snake game: the board geometry, the snake's movement, growth
//! and collision rules, food placement, key decoding and frame layout.

pub mod snake;
pub mod food;
pub mod game;
pub mod render;
