//! Arguments of UCI mode.
use vstd::prelude::*;

verus! {

/// UCI mode takes no arguments.
#[derive(Debug, Clone, Copy, Default)]
pub struct UciArgs {}

} // verus!
