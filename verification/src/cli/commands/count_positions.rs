//! Arguments of position counting.
use vstd::prelude::*;

use crate::game::position_counter::CountPositionsStrategy;

verus! {

/// How deep to count, and which positions.
#[derive(Debug, Clone, Copy)]
pub struct CountPositionsArgs {
    pub depth: u8,
    pub strategy: CountPositionsStrategy,
}

} // verus!
