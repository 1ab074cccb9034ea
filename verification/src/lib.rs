//! A verified engine for a grid-based snake game.
//!
//! The engine owns the board, the snake body, the food cell, the score and
//! the game status, and advances them one tick at a time. A presentation
//! layer feeds it direction, pause and restart intents and reads snapshots;
//! nothing here performs any input or output.

pub mod board;
pub mod cell;
pub mod direction;
pub mod game;
pub mod laws;
mod rng;
pub mod status;
