//! Legal move generation.

pub mod attackers;
pub mod gen;
pub mod pins;
pub mod tables;

pub use attackers::{all_attackers_of, generate_attackers_of};
pub use pins::get_pins;
