//! Arguments of the puzzle suite.
use vstd::prelude::*;

verus! {

/// Only run the puzzles of one tier (1 tactical, 2 strategic, 3 deep), or all.
#[derive(Debug, Clone, Copy)]
pub struct SolvePuzzlesArgs {
    pub tier: Option<u8>,
}

} // verus!
