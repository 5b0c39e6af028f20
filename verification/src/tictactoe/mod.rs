//! The game: a board of three by three cells, two players, a cursor.

pub mod coordinates;
pub mod game;
pub mod logic;
pub mod movement;
pub mod player;
