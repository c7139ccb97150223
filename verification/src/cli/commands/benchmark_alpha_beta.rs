//! Arguments of the alpha-beta benchmark.
use vstd::prelude::*;

verus! {

/// Search depth, whether to search in parallel, which benchmark position (all
/// when none), and whether to list the positions instead.
#[derive(Debug, Clone)]
pub struct BenchmarkAlphaBetaArgs {
    pub depth: u8,
    pub parallel: bool,
    pub position: Option<String>,
    pub list: bool,
}

} // verus!
