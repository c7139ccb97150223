//! Simple piece values.
use vstd::prelude::*;

use crate::piece::Piece;

verus! {

/// The value of a piece kind on a small scale.
pub open spec fn spec_material_value(piece: Piece) -> u16 {
    match piece {
        Piece::Pawn => 8,
        Piece::Knight => 3,
        Piece::Bishop => 3,
        Piece::Rook => 5,
        Piece::Queen => 9,
        Piece::King => 100,
    }
}

/// The value of a piece kind on a small scale.
pub fn material_value(piece: Piece) -> (r: u16)
    ensures
        r == spec_material_value(piece),
{
    match piece {
        Piece::Pawn => 8,
        Piece::Knight => 3,
        Piece::Bishop => 3,
        Piece::Rook => 5,
        Piece::Queen => 9,
        Piece::King => 100,
    }
}

} // verus!
