pub mod bits;
pub mod bitboard;
pub mod board;
pub mod direction;
pub mod fen;
pub mod game;
pub mod moves;
pub mod piece;
pub mod player;
pub mod san;
pub mod square;
pub mod zobrist;
pub mod movegen;
pub mod perft;
