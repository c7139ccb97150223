pub mod bitboard;
pub mod board;
pub mod chess_move;
pub mod evaluate;
pub mod chess_search;
pub mod cli;
pub mod diagnostics;
pub mod game;
pub mod input_handler;
pub mod piece;
pub mod square;
pub mod targets;
pub mod text;
