//! Errors of a game.
use vstd::prelude::*;

use crate::board::BoardError;

verus! {

/// Why a game refused a move.
#[derive(Debug, Clone, Copy, PartialEq, Eq, Structural)]
pub enum GameError {
    InvalidMove,
    BoardError { error: BoardError },
    SearchError,
}

} // verus!
