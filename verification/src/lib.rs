//! A chess engine: board representation, legal move generation, position
//! evaluation, search, and the parsing and formatting of the textual formats
//! that chess software exchanges (FEN, SAN, UCI).

pub mod chess;
pub mod engine;
pub mod text;
