//! Game configuration, commands, modes and display.
pub mod action;
pub mod alpha_beta_benchmark;
pub mod command;
pub mod display;
pub mod engine;
pub mod game;
pub mod game_mode;
pub mod mode;
pub mod position_counter;
pub mod renderer;
pub mod stockfish_elo;
pub mod stockfish_interface;
