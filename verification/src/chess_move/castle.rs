//! Castling: the king moves two squares towards a rook, which jumps over it.
use vstd::prelude::*;

use crate::board::{
    lemma_cleared, lemma_piece_at_ext, lemma_piece_at_same_pieces, lemma_placed, lemma_wf_same_pieces, Board,
    BoardError, BoardModel, CastleRights,
};
use crate::piece::{Color, Piece};
use crate::square::{lemma_index_bound, Square};

use super::chess_move_effect::ChessMoveEffect;
use super::standard::{advance_for_move, retreat_for_undo, same_occupant};

verus! {

/// The rook's squares of departure and arrival for a castle of `color` on the
/// kingside (`kingside`) or the queenside.
pub open spec fn rook_squares(color: Color, kingside: bool) -> (Square, Square) {
    match (color, kingside) {
        (Color::White, true) => (Square::H1, Square::F1),
        (Color::White, false) => (Square::A1, Square::D1),
        (Color::Black, true) => (Square::H8, Square::F8),
        (Color::Black, false) => (Square::A8, Square::D8),
    }
}

/// What a king move from `from` to `to` means as a castle: the side, the wing
/// and the rook's squares; none when the king does not move two squares along
/// the first or the eighth rank.
pub open spec fn castle_details(from: Square, to: Square) -> Option<(Color, bool, Square, Square)> {
    let f = from.spec_index() as int;
    let t = to.spec_index() as int;
    let kingside = if t == f + 2 {
        Some(true)
    } else if t + 2 == f {
        Some(false)
    } else {
        None
    };
    let color = if f < 8 {
        Some(Color::White)
    } else if f >= 56 {
        Some(Color::Black)
    } else {
        None
    };
    match (color, kingside) {
        (Some(c), Some(k)) => Some((c, k, rook_squares(c, k).0, rook_squares(c, k).1)),
        _ => None,
    }
}

/// The castle rights (as bits) a side loses by castling: both of its own.
pub open spec fn castle_rights_lost(color: Color) -> u8 {
    match color {
        Color::White => 3,
        Color::Black => 12,
    }
}

/// The king stands on `from`, its rook on the rook's square, and the squares
/// both land on are empty.
pub open spec fn castle_apply_ready(m: BoardModel, from: Square, to: Square) -> bool {
    match castle_details(from, to) {
        Some((c, _, rook_from, rook_to)) => {
            &&& m.piece_at(from.spec_index() as int) == Some((Piece::King, c))
            &&& m.piece_at(to.spec_index() as int) is None
            &&& m.piece_at(rook_from.spec_index() as int) == Some((Piece::Rook, c))
            &&& m.piece_at(rook_to.spec_index() as int) is None
        },
        None => false,
    }
}

/// Castling does not panic: when it gets to move the pieces, the king and the
/// rook do not land on the same square.
pub open spec fn castle_apply_allowed(m: BoardModel, from: Square, to: Square) -> bool {
    castle_apply_ready(m, from, to) ==> to != castle_details(from, to).unwrap().3
}

/// What castling does: the king and the rook move, the halfmove and fullmove
/// clocks advance, no en passant target, and the side loses its castle rights.
pub open spec fn castle_apply_outcome(m: BoardModel, from: Square, to: Square) -> (Result<(), BoardError>, BoardModel) {
    match castle_details(from, to) {
        None => (Err(BoardError::InvalidCastleMoveError), m),
        Some((c, _, rook_from, rook_to)) => if !castle_apply_ready(m, from, to) {
            (Err(BoardError::InvalidCastleStateError), m)
        } else {
            let moved = m.cleared(from.spec_index() as int).placed(to.spec_index() as int, Piece::King, c).cleared(
                rook_from.spec_index() as int,
            ).placed(rook_to.spec_index() as int, Piece::Rook, c);
            (Ok(()), advance_for_move(moved, false, None, castle_rights_lost(c)))
        },
    }
}

/// The castled king and rook stand on their squares of arrival, and their
/// squares of departure are empty.
pub open spec fn castle_undo_ready(m: BoardModel, from: Square, to: Square) -> bool {
    match castle_details(from, to) {
        Some((c, _, rook_from, rook_to)) => {
            &&& m.piece_at(to.spec_index() as int) == Some((Piece::King, c))
            &&& m.piece_at(from.spec_index() as int) is None
            &&& m.piece_at(rook_to.spec_index() as int) == Some((Piece::Rook, c))
            &&& m.piece_at(rook_from.spec_index() as int) is None
        },
        None => false,
    }
}

/// Undoing a castle does not panic: when it gets to move the pieces back, the
/// king and the rook do not go back to the same square and the stacks can be popped.
pub open spec fn castle_undo_allowed(m: BoardModel, from: Square, to: Square) -> bool {
    castle_undo_ready(m, from, to) ==> {
        &&& from != castle_details(from, to).unwrap().2
        &&& m.halfmove_clocks.len() >= 2
        &&& m.en_passant_targets.len() >= 2
        &&& m.castle_rights.len() >= 2
    }
}

/// What undoing a castle does: the king and the rook go back and the clocks and
/// stacks are popped.
pub open spec fn castle_undo_outcome(m: BoardModel, from: Square, to: Square) -> (Result<(), BoardError>, BoardModel) {
    match castle_details(from, to) {
        None => (Err(BoardError::InvalidCastleMoveError), m),
        Some((c, _, rook_from, rook_to)) => if !castle_undo_ready(m, from, to) {
            (Err(BoardError::InvalidCastleStateError), m)
        } else {
            let moved = m.cleared(to.spec_index() as int).placed(from.spec_index() as int, Piece::King, c).cleared(
                rook_to.spec_index() as int,
            ).placed(rook_from.spec_index() as int, Piece::Rook, c);
            (Ok(()), retreat_for_undo(moved))
        },
    }
}

/// Undoing a castle right after applying it succeeds and restores the board.
pub proof fn lemma_castle_undo_reverts_apply(m: BoardModel, from: Square, to: Square)
    requires
        m.wf(),
        castle_apply_allowed(m, from, to),
        castle_apply_outcome(m, from, to).0 is Ok,
    ensures
        castle_undo_allowed(castle_apply_outcome(m, from, to).1, from, to),
        castle_undo_outcome(castle_apply_outcome(m, from, to).1, from, to) == (Ok::<(), BoardError>(()), m),
{
    let (c, k, rook_from, rook_to) = castle_details(from, to).unwrap();
    let kf = from.spec_index() as int;
    let kt = to.spec_index() as int;
    let rf = rook_from.spec_index() as int;
    let rt = rook_to.spec_index() as int;
    lemma_index_bound(from);
    lemma_index_bound(to);
    lemma_index_bound(rook_from);
    lemma_index_bound(rook_to);
    let a1 = m.cleared(kf);
    lemma_cleared(m, kf);
    let a2 = a1.placed(kt, Piece::King, c);
    lemma_placed(a1, kt, Piece::King, c);
    let a3 = a2.cleared(rf);
    lemma_cleared(a2, rf);
    let a4 = a3.placed(rt, Piece::Rook, c);
    lemma_placed(a3, rt, Piece::Rook, c);
    let applied = advance_for_move(a4, false, None, castle_rights_lost(c));
    lemma_wf_same_pieces(a4, applied);
    assert forall|s: int| #[trigger] applied.piece_at(s) == a4.piece_at(s) by {
        lemma_piece_at_same_pieces(a4, applied, s);
    }
    assert(castle_undo_ready(applied, from, to));
    let u1 = applied.cleared(kt);
    lemma_cleared(applied, kt);
    let u2 = u1.placed(kf, Piece::King, c);
    lemma_placed(u1, kf, Piece::King, c);
    let u3 = u2.cleared(rt);
    lemma_cleared(u2, rt);
    let u4 = u3.placed(rf, Piece::Rook, c);
    lemma_placed(u3, rf, Piece::Rook, c);
    let back = retreat_for_undo(u4);
    lemma_wf_same_pieces(u4, back);
    assert forall|s: int| 0 <= s < 64 implies #[trigger] back.piece_at(s) == m.piece_at(s) by {
        lemma_piece_at_same_pieces(u4, back, s);
    }
    lemma_piece_at_ext(back, m);
    assert(back =~= m);
}

/// A castle. Built by `castle_kingside` and `castle_queenside`.
#[derive(Clone, Copy, Debug, PartialEq, Eq, Structural)]
pub struct CastleChessMove {
    from_square: Square,
    to_square: Square,
    effect: Option<ChessMoveEffect>,
}

impl CastleChessMove {
    pub closed spec fn spec_from_square(self) -> Square {
        self.from_square
    }

    pub closed spec fn spec_to_square(self) -> Square {
        self.to_square
    }

    pub closed spec fn spec_effect(self) -> Option<ChessMoveEffect> {
        self.effect
    }

    fn new(from_square: Square, to_square: Square) -> (r: Self)
        ensures
            r.spec_from_square() == from_square,
            r.spec_to_square() == to_square,
            r.spec_effect() is None,
    {
        Self { from_square, to_square, effect: None }
    }

    /// Castling on the king's side: the king from E1 to G1 (E8 to G8 for Black).
    pub fn castle_kingside(color: Color) -> (r: Self)
        ensures
            r.spec_from_square() == (if color == Color::White { Square::E1 } else { Square::E8 }),
            r.spec_to_square() == (if color == Color::White { Square::G1 } else { Square::G8 }),
            r.spec_effect() is None,
    {
        match color {
            Color::White => Self::new(Square::E1, Square::G1),
            Color::Black => Self::new(Square::E8, Square::G8),
        }
    }

    /// Castling on the queen's side: the king from E1 to C1 (E8 to C8 for Black).
    pub fn castle_queenside(color: Color) -> (r: Self)
        ensures
            r.spec_from_square() == (if color == Color::White { Square::E1 } else { Square::E8 }),
            r.spec_to_square() == (if color == Color::White { Square::C1 } else { Square::C8 }),
            r.spec_effect() is None,
    {
        match color {
            Color::White => Self::new(Square::E1, Square::C1),
            Color::Black => Self::new(Square::E8, Square::C8),
        }
    }

    pub fn to_square(&self) -> (r: Square)
        ensures
            r == self.spec_to_square(),
    {
        self.to_square
    }

    pub fn from_square(&self) -> (r: Square)
        ensures
            r == self.spec_from_square(),
    {
        self.from_square
    }

    pub fn effect(&self) -> (r: Option<ChessMoveEffect>)
        ensures
            r == self.spec_effect(),
    {
        self.effect
    }

    pub fn set_effect(&mut self, effect: ChessMoveEffect)
        ensures
            final(self).spec_effect() == Some(effect),
            final(self).spec_from_square() == old(self).spec_from_square(),
            final(self).spec_to_square() == old(self).spec_to_square(),
    {
        self.effect = Some(effect);
    }

    /// The castle's side, wing, and rook squares of departure and arrival.
    fn castle_details(&self) -> (r: Result<(Color, bool, Square, Square), BoardError>)
        ensures
            match castle_details(self.spec_from_square(), self.spec_to_square()) {
                Some(d) => r == Ok::<(Color, bool, Square, Square), BoardError>(d),
                None => r == Err::<(Color, bool, Square, Square), BoardError>(BoardError::InvalidCastleMoveError),
            },
    {
        let king_from = self.from_square.index();
        let king_to = self.to_square.index();
        let kingside = if king_to == king_from + 2 {
            true
        } else if king_to + 2 == king_from {
            false
        } else {
            return Err(BoardError::InvalidCastleMoveError);
        };
        let on_first_rank = king_from < 8;
        let on_eighth_rank = king_from >= 56;
        let color = if on_first_rank && !on_eighth_rank {
            Color::White
        } else if !on_first_rank && on_eighth_rank {
            Color::Black
        } else {
            return Err(BoardError::InvalidCastleMoveError);
        };
        let (rook_from, rook_to) = match (color, kingside) {
            (Color::White, true) => (Square::H1, Square::F1),
            (Color::White, false) => (Square::A1, Square::D1),
            (Color::Black, true) => (Square::H8, Square::F8),
            (Color::Black, false) => (Square::A8, Square::D8),
        };
        Ok((color, kingside, rook_from, rook_to))
    }

    /// Applies the castle to `board`.
    pub fn apply(&self, board: &mut Board) -> (r: Result<(), BoardError>)
        requires
            old(board)@.wf(),
            castle_apply_allowed(old(board)@, self.spec_from_square(), self.spec_to_square()),
        ensures
            final(board)@.wf(),
            (r, final(board)@) == castle_apply_outcome(old(board)@, self.spec_from_square(), self.spec_to_square()),
    {
        let ghost m0 = board@;
        let king_from = self.from_square;
        let king_to = self.to_square;
        let (color, _kingside, rook_from, rook_to) = match self.castle_details() {
            Ok(d) => d,
            Err(e) => return Err(e),
        };
        if !same_occupant(board.get(king_from), Some((Piece::King, color))) {
            return Err(BoardError::InvalidCastleStateError);
        }
        if board.get(king_to).is_some() {
            return Err(BoardError::InvalidCastleStateError);
        }
        if !same_occupant(board.get(rook_from), Some((Piece::Rook, color))) {
            return Err(BoardError::InvalidCastleStateError);
        }
        if board.get(rook_to).is_some() {
            return Err(BoardError::InvalidCastleStateError);
        }
        proof {
            lemma_index_bound(king_from);
            lemma_index_bound(king_to);
            lemma_index_bound(rook_from);
            lemma_index_bound(rook_to);
            lemma_cleared(m0, king_from.spec_index() as int);
        }
        let _king = board.remove(king_from);
        proof { lemma_placed(board@, king_to.spec_index() as int, Piece::King, color); }
        let _placed = board.put(king_to, Piece::King, color);
        proof { lemma_cleared(board@, rook_from.spec_index() as int); }
        let _rook = board.remove(rook_from);
        proof { lemma_placed(board@, rook_to.spec_index() as int, Piece::Rook, color); }
        let _placed = board.put(rook_to, Piece::Rook, color);
        let ghost moved = board@;
        let lost_castle_rights = match color {
            Color::White => CastleRights::white_kingside().union(CastleRights::white_queenside()),
            Color::Black => CastleRights::black_kingside().union(CastleRights::black_queenside()),
        };
        proof {
            assert(1u8 | 2u8 == 3u8) by (bit_vector);
            assert(4u8 | 8u8 == 12u8) by (bit_vector);
        }
        board.increment_halfmove_clock();
        board.increment_fullmove_clock();
        board.push_en_passant_target(None);
        board.lose_castle_rights(lost_castle_rights);
        proof {
            assert(board@ =~= advance_for_move(moved, false, None, castle_rights_lost(color)));
        }
        Ok(())
    }

    /// Undoes the castle on `board`.
    pub fn undo(&self, board: &mut Board) -> (r: Result<(), BoardError>)
        requires
            old(board)@.wf(),
            castle_undo_allowed(old(board)@, self.spec_from_square(), self.spec_to_square()),
        ensures
            final(board)@.wf(),
            (r, final(board)@) == castle_undo_outcome(old(board)@, self.spec_from_square(), self.spec_to_square()),
    {
        let ghost m0 = board@;
        let king_from = self.from_square;
        let king_to = self.to_square;
        let (color, _kingside, rook_from, rook_to) = match self.castle_details() {
            Ok(d) => d,
            Err(e) => return Err(e),
        };
        if !same_occupant(board.get(king_to), Some((Piece::King, color))) {
            return Err(BoardError::InvalidCastleStateError);
        }
        if board.get(king_from).is_some() {
            return Err(BoardError::InvalidCastleStateError);
        }
        if !same_occupant(board.get(rook_to), Some((Piece::Rook, color))) {
            return Err(BoardError::InvalidCastleStateError);
        }
        if board.get(rook_from).is_some() {
            return Err(BoardError::InvalidCastleStateError);
        }
        proof {
            lemma_index_bound(king_from);
            lemma_index_bound(king_to);
            lemma_index_bound(rook_from);
            lemma_index_bound(rook_to);
            lemma_cleared(m0, king_to.spec_index() as int);
        }
        let _king = board.remove(king_to);
        proof { lemma_placed(board@, king_from.spec_index() as int, Piece::King, color); }
        let _placed = board.put(king_from, Piece::King, color);
        proof { lemma_cleared(board@, rook_to.spec_index() as int); }
        let _rook = board.remove(rook_to);
        proof { lemma_placed(board@, rook_from.spec_index() as int, Piece::Rook, color); }
        let _placed = board.put(rook_from, Piece::Rook, color);
        let ghost moved = board@;
        // Revert the clocks and stacks.
        board.decrement_fullmove_clock();
        board.pop_halfmove_clock();
        board.pop_en_passant_target();
        board.pop_castle_rights();
        proof {
            assert(board@ =~= retreat_for_undo(moved));
        }
        Ok(())
    }
}

} // verus!
