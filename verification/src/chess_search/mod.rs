//! Move ordering and search helpers for chess.
pub mod history_table;
pub mod implementation;
pub mod move_orderer;

pub use history_table::HistoryTable;
pub use implementation::ChessEvaluator;
pub use move_orderer::ChessMoveOrderer;
