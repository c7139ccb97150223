use vstd::prelude::*;

use crate::piece::Piece;

verus! {

/// The kind of piece a move captures.
#[derive(Clone, Copy, Debug, PartialEq, Eq, Structural)]
pub struct Capture(pub Piece);

} // verus!
