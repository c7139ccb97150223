use vstd::prelude::*;

verus! {

/// What a move does to the opponent's king, once that has been worked out.
#[derive(Clone, Copy, Debug, PartialEq, Eq, Structural)]
pub enum ChessMoveEffect {
    NoCheck,
    Check,
    Checkmate,
}

} // verus!
