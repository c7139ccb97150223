//! Command-line arguments of the chess program.
pub mod commands;
