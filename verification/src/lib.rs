//! Core logic of a falling-block puzzle game: the board grid, the seven
//! tetromino pieces and their rotations, collision rules, and the game
//! session state machine (spawn, gravity, lock, line clear, scoring).
//!
//! Everything here is pure, tick-driven logic; rendering, audio and input
//! wiring live outside and talk to this crate through plain values.

pub mod grid;
pub mod piece;
pub mod rules;
pub mod session;
