//! Commands that can be executed on the engine.
use vstd::prelude::*;

verus! {

/// A command to make a move on the board.
#[derive(Debug, Clone)]
pub enum MakeMove {
    /// A move given by its squares of departure and arrival, e.g. "e2e4".
    Coordinate { from_square: String, to_square: String },
    /// A move in algebraic notation, e.g. "e4".
    Algebraic { algebraic: String },
}

/// A command to make a move from the opening book, or else the best move the
/// search finds.
#[derive(Debug, Clone, Copy, Default)]
pub struct MakeWaterfallMove {}

} // verus!
