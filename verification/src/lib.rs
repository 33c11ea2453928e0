//! Snake on a grid, with its rules stated as contracts and proved.
//!
//! A [`game::Game`] holds the snake, the food, the score and the board's
//! size. [`game::Game::tick`] advances it by one step, and
//! [`model::GameModel::ticked`] says what that step is. [`board`] finds the
//! cells that the snake leaves free, [`input`] turns keys into turns,
//! [`screen`] says what a terminal shows of a game, and [`high_score`]
//! reads and writes the best score.
//!
//! Three things are taken on trust from other libraries: the random draw
//! that picks the cell for new food, the layout of the terminal, and the
//! making of a `Duration`. Each stands behind one function that says what
//! is assumed of it.

pub mod board;
pub mod game;
pub mod geometry;
pub mod high_score;
pub mod input;
pub mod model;
mod random;
pub mod screen;
