//! A two-player vertical-drop grid game: players alternate dropping tokens
//! into columns, a token falls to the lowest free cell of its column, and the
//! game ends when four tokens of one player line up or the board is full.

pub mod board;
pub mod error;
pub mod game;
pub mod player;
pub mod position;
pub mod tokens;
