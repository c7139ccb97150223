//! En passant captures.
use vstd::prelude::*;

use crate::board::{
    lemma_cleared, lemma_cleared_placed, lemma_piece_at_ext, lemma_piece_at_same_pieces, lemma_placed,
    lemma_wf_same_pieces, next_count, Board, BoardError, BoardModel,
};
use crate::piece::{Color, Piece};
use crate::square::{lemma_index_bound, Square};

use super::capture::Capture;
use super::chess_move_effect::ChessMoveEffect;
use super::standard::retreat_for_undo;

verus! {

/// Whether the square behind `t` (from the moving side's point of view) is on the board.
pub open spec fn capture_square_exists(color: Color, t: int) -> bool {
    match color {
        Color::White => t >= 8,
        Color::Black => t < 56,
    }
}

/// The square of the pawn an en passant capture onto `t` takes: one rank behind `t`.
pub open spec fn capture_square_index(color: Color, t: int) -> int {
    match color {
        Color::White => t - 8,
        Color::Black => t + 8,
    }
}

/// The clocks and stacks after an en passant capture: the halfmove clock
/// restarts, the fullmove clock advances, no en passant target, castle rights kept.
pub open spec fn advance_for_en_passant(m: BoardModel) -> BoardModel {
    BoardModel {
        halfmove_clocks: m.halfmove_clocks.push(0u32),
        fullmove_clock: next_count(m.fullmove_clock),
        en_passant_targets: m.en_passant_targets.push(None),
        castle_rights: m.castle_rights.push(m.current_castle_rights()),
        ..m
    }
}

/// Applying an en passant capture does not panic: a moving pawn has a square behind its target.
pub open spec fn en_passant_apply_allowed(m: BoardModel, from: Square, to: Square) -> bool {
    match m.piece_at(from.spec_index() as int) {
        Some((Piece::Pawn, color)) => capture_square_exists(color, to.spec_index() as int),
        _ => true,
    }
}

/// What applying an en passant capture does: the result and the board afterwards.
pub open spec fn en_passant_apply_outcome(m: BoardModel, from: Square, to: Square) -> (Result<(), BoardError>, BoardModel) {
    let f = from.spec_index() as int;
    let t = to.spec_index() as int;
    match m.piece_at(f) {
        None => (Err(BoardError::FromSquareIsEmptyMoveApplicationError), m.cleared(f)),
        Some((piece, color)) => {
            let m1 = m.cleared(f);
            if piece != Piece::Pawn {
                (Err(BoardError::EnPassantNonPawnMoveApplicationError), m1)
            } else {
                let c = capture_square_index(color, t);
                if m1.piece_at(c) is None {
                    (Err(BoardError::EnPassantDidNotResultInCaptureError), m1.cleared(c))
                } else {
                    let m3 = advance_for_en_passant(m1.cleared(c));
                    if m3.piece_at(t) is Some {
                        (Err(BoardError::SquareOccupiedBoardPutError), m3)
                    } else {
                        (Ok(()), m3.placed(t, Piece::Pawn, color))
                    }
                }
            }
        },
    }
}

/// Undoing an en passant capture does not panic: when a pawn stands on the
/// target square, the stacks can be popped, the square behind the target is on
/// the board and the pawn's square of departure is free.
pub open spec fn en_passant_undo_allowed(m: BoardModel, from: Square, to: Square) -> bool {
    let f = from.spec_index() as int;
    let t = to.spec_index() as int;
    match m.piece_at(t) {
        Some((Piece::Pawn, color)) => {
            &&& m.halfmove_clocks.len() >= 2
            &&& m.en_passant_targets.len() >= 2
            &&& m.castle_rights.len() >= 2
            &&& capture_square_exists(color, t)
            &&& f != t ==> m.piece_at(f) is None
        },
        _ => true,
    }
}

/// What undoing an en passant capture does: the pawn goes back, the stacks are
/// popped and an enemy pawn is put back behind the target square.
pub open spec fn en_passant_undo_outcome(m: BoardModel, from: Square, to: Square) -> (Result<(), BoardError>, BoardModel) {
    let f = from.spec_index() as int;
    let t = to.spec_index() as int;
    match m.piece_at(t) {
        None => (Err(BoardError::ToSquareIsEmptyMoveUndoError), m.cleared(t)),
        Some((piece, color)) => {
            let m1 = m.cleared(t);
            if piece != Piece::Pawn {
                (Err(BoardError::EnPassantNonPawnMoveUndoError), m1)
            } else {
                let m3 = retreat_for_undo(m1.placed(f, Piece::Pawn, color));
                let c = capture_square_index(color, t);
                if m3.piece_at(c) is Some {
                    (Err(BoardError::SquareOccupiedBoardPutError), m3)
                } else {
                    (Ok(()), m3.placed(c, Piece::Pawn, color.spec_opposite()))
                }
            }
        },
    }
}

/// Undoing an en passant capture right after applying it succeeds and restores
/// the board, when what it captured was an enemy pawn (undoing puts back a pawn
/// whatever stood there).
pub proof fn lemma_en_passant_undo_reverts_apply(m: BoardModel, from: Square, to: Square)
    requires
        m.wf(),
        en_passant_apply_allowed(m, from, to),
        en_passant_apply_outcome(m, from, to).0 is Ok,
        m.piece_at(capture_square_index(m.piece_at(from.spec_index() as int).unwrap().1, to.spec_index() as int))
            == Some((Piece::Pawn, m.piece_at(from.spec_index() as int).unwrap().1.spec_opposite())),
    ensures
        en_passant_undo_allowed(en_passant_apply_outcome(m, from, to).1, from, to),
        en_passant_undo_outcome(en_passant_apply_outcome(m, from, to).1, from, to) == (Ok::<(), BoardError>(()), m),
{
    let f = from.spec_index() as int;
    let t = to.spec_index() as int;
    lemma_index_bound(from);
    lemma_index_bound(to);
    let color = m.piece_at(f).unwrap().1;
    let c = capture_square_index(color, t);
    let m1 = m.cleared(f);
    lemma_cleared(m, f);
    let m2 = m1.cleared(c);
    lemma_cleared(m1, c);
    let m3 = advance_for_en_passant(m2);
    lemma_wf_same_pieces(m2, m3);
    assert forall|s: int| #[trigger] m3.piece_at(s) == m2.piece_at(s) by {
        lemma_piece_at_same_pieces(m2, m3, s);
    }
    let applied = m3.placed(t, Piece::Pawn, color);
    lemma_placed(m3, t, Piece::Pawn, color);
    assert(en_passant_apply_outcome(m, from, to).1 == applied);
    // Undo.
    lemma_cleared_placed(m3, t, Piece::Pawn, color);
    assert(applied.cleared(t) == m3);
    let u2 = m3.placed(f, Piece::Pawn, color);
    lemma_placed(m3, f, Piece::Pawn, color);
    let u3 = retreat_for_undo(u2);
    lemma_wf_same_pieces(u2, u3);
    assert forall|s: int| #[trigger] u3.piece_at(s) == u2.piece_at(s) by {
        lemma_piece_at_same_pieces(u2, u3, s);
    }
    let back = u3.placed(c, Piece::Pawn, color.spec_opposite());
    lemma_placed(u3, c, Piece::Pawn, color.spec_opposite());
    assert forall|s: int| 0 <= s < 64 implies #[trigger] back.piece_at(s) == m.piece_at(s) by {}
    lemma_piece_at_ext(back, m);
    assert(back =~= m);
}

/// An en passant capture: a pawn moves diagonally behind an enemy pawn that has
/// just made a double step, and takes it.
#[derive(Clone, Copy, Debug, PartialEq, Eq, Structural)]
pub struct EnPassantChessMove {
    from_square: Square,
    to_square: Square,
    effect: Option<ChessMoveEffect>,
}

impl EnPassantChessMove {
    pub closed spec fn spec_from_square(self) -> Square {
        self.from_square
    }

    pub closed spec fn spec_to_square(self) -> Square {
        self.to_square
    }

    pub closed spec fn spec_effect(self) -> Option<ChessMoveEffect> {
        self.effect
    }

    /// An en passant capture from `from_square` to `to_square`; its effect is not yet known.
    pub fn new(from_square: Square, to_square: Square) -> (r: Self)
        ensures
            r.spec_from_square() == from_square,
            r.spec_to_square() == to_square,
            r.spec_effect() is None,
    {
        Self { from_square, to_square, effect: None }
    }

    pub fn to_square(&self) -> (r: Square)
        ensures
            r == self.spec_to_square(),
    {
        self.to_square
    }

    pub fn from_square(&self) -> (r: Square)
        ensures
            r == self.spec_from_square(),
    {
        self.from_square
    }

    /// An en passant capture always takes a pawn.
    pub fn captures(&self) -> (r: Capture)
        ensures
            r == Capture(Piece::Pawn),
    {
        Capture(Piece::Pawn)
    }

    pub fn effect(&self) -> (r: Option<ChessMoveEffect>)
        ensures
            r == self.spec_effect(),
    {
        self.effect
    }

    pub fn set_effect(&mut self, effect: ChessMoveEffect)
        ensures
            final(self).spec_effect() == Some(effect),
            final(self).spec_from_square() == old(self).spec_from_square(),
            final(self).spec_to_square() == old(self).spec_to_square(),
    {
        self.effect = Some(effect);
    }

    /// The square of the captured pawn: behind the target square.
    fn captures_square(&self, color: Color) -> (r: Square)
        requires
            capture_square_exists(color, self.to_square.spec_index() as int),
        ensures
            r.spec_index() == capture_square_index(color, self.to_square.spec_index() as int),
    {
        let to = self.to_square.index();
        match color {
            Color::White => Square::from_index(to - 8),
            Color::Black => Square::from_index(to + 8),
        }
    }

    /// Applies the capture to `board`.
    pub fn apply(&self, board: &mut Board) -> (r: Result<(), BoardError>)
        requires
            old(board)@.wf(),
            en_passant_apply_allowed(old(board)@, self.spec_from_square(), self.spec_to_square()),
        ensures
            final(board)@.wf(),
            (r, final(board)@) == en_passant_apply_outcome(old(board)@, self.spec_from_square(), self.spec_to_square()),
    {
        let ghost m0 = board@;
        let (piece_to_move, color) = match board.remove(self.from_square) {
            None => return Err(BoardError::FromSquareIsEmptyMoveApplicationError),
            Some(pc) => pc,
        };
        if piece_to_move != Piece::Pawn {
            return Err(BoardError::EnPassantNonPawnMoveApplicationError);
        }
        // The captured pawn is behind the target square.
        let captures_square = self.captures_square(color);
        if board.remove(captures_square).is_none() {
            return Err(BoardError::EnPassantDidNotResultInCaptureError);
        }
        board.reset_halfmove_clock();
        board.increment_fullmove_clock();
        board.push_en_passant_target(None);
        board.preserve_castle_rights();
        proof {
            assert(board@ =~= advance_for_en_passant(
                m0.cleared(self.from_square.spec_index() as int).cleared(captures_square.spec_index() as int),
            ));
        }
        board.put(self.to_square, piece_to_move, color)
    }

    /// Undoes the capture on `board`.
    pub fn undo(&self, board: &mut Board) -> (r: Result<(), BoardError>)
        requires
            old(board)@.wf(),
            en_passant_undo_allowed(old(board)@, self.spec_from_square(), self.spec_to_square()),
        ensures
            final(board)@.wf(),
            (r, final(board)@) == en_passant_undo_outcome(old(board)@, self.spec_from_square(), self.spec_to_square()),
    {
        let ghost m0 = board@;
        // Remove the moved pawn.
        let (piece_to_move_back, piece_color) = match board.remove(self.to_square) {
            None => return Err(BoardError::ToSquareIsEmptyMoveUndoError),
            Some(pc) => pc,
        };
        if piece_to_move_back != Piece::Pawn {
            return Err(BoardError::EnPassantNonPawnMoveUndoError);
        }
        proof {
            lemma_cleared(m0, self.to_square.spec_index() as int);
        }
        // Return the pawn to its square.
        let placed = board.put(self.from_square, piece_to_move_back, piece_color);
        let ghost m2 = board@;
        let captures_square = self.captures_square(piece_color);
        // Revert the clocks and stacks.
        board.pop_halfmove_clock();
        board.decrement_fullmove_clock();
        board.pop_en_passant_target();
        board.pop_castle_rights();
        proof {
            assert(board@ =~= retreat_for_undo(m2));
            lemma_piece_at_same_pieces(m2, board@, captures_square.spec_index() as int);
        }
        board.put(captures_square, Piece::Pawn, piece_color.opposite())
    }
}

} // verus!
