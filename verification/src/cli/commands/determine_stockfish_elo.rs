//! Arguments of the Elo measurement against Stockfish.
use vstd::prelude::*;

verus! {

/// The engine's search depth and the Stockfish Elo to start from.
#[derive(Debug, Clone, Copy)]
pub struct DetermineStockfishEloArgs {
    pub depth: u8,
    pub starting_elo: u32,
}

} // verus!
