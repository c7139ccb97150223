//! The arguments of each command.
pub mod benchmark_alpha_beta;
pub mod count_positions;
pub mod determine_stockfish_elo;
pub mod solve_puzzles;
pub mod uci;
