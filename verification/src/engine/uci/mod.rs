//! The Universal Chess Interface: reading commands, deciding what they do,
//! and writing responses.

pub mod commands;
pub mod lexer;
pub mod options;
pub mod parser;
pub mod reporter;
pub mod responses;
pub mod session;
pub mod uci_move;
