//! Core of a falling-block puzzle game: the tetromino catalog, the playfield
//! grid, the random seven-bag piece generator, and the movement, gravity and
//! line-clear engine. Rendering and input plumbing live outside this crate;
//! they hand the core discrete input events and elapsed time, and read back
//! the grid and piece state.
pub mod bag;
pub mod clock;
pub mod field;
pub mod game;
pub mod pieces;
