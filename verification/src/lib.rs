//! A terminal tic-tac-toe game on top of a small character-grid engine:
//! frames of glyphs, layered sprites, a diffing renderer and a fixed-rate tick.

pub mod engine;
pub mod tictactoe;
