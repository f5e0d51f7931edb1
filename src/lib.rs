//! Pseudo-legal chess move generation over a verified board model.

pub mod color;
pub mod error;
pub mod piece;
pub mod square;
pub mod board;
pub mod movement;
pub mod rules;
pub mod movegen;
pub mod apply;
