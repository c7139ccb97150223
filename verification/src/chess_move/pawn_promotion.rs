//! Pawn promotions: a standard pawn move after which the pawn is replaced by
//! the promotion piece.
use vstd::prelude::*;

use crate::board::{
    lemma_cleared, lemma_cleared_placed, lemma_placed, lemma_placed_cleared, Board, BoardError, BoardModel,
};
use crate::piece::{Color, Piece};
use crate::square::Square;

use super::capture::Capture;
use super::chess_move_effect::ChessMoveEffect;
use super::standard::{
    lemma_standard_apply_ok, lemma_standard_undo_reverts_apply, standard_apply_outcome, standard_undo_allowed,
    standard_undo_outcome, StandardChessMove,
};

verus! {

/// What applying a promotion does: the standard move, then the pawn on the
/// target square is replaced by `promote_to`.
pub open spec fn promotion_apply_outcome(
    m: BoardModel,
    from: Square,
    to: Square,
    captures: Option<Capture>,
    promote_to: Piece,
) -> (Result<(), BoardError>, BoardModel) {
    let t = to.spec_index() as int;
    let (r1, m1) = standard_apply_outcome(m, from, to, captures);
    if r1 is Err {
        (r1, m1)
    } else {
        match m1.piece_at(t) {
            Some((Piece::Pawn, color)) => (Ok(()), m1.cleared(t).placed(t, promote_to, color)),
            _ => (Err(BoardError::PromotionNonPawnError), m1.cleared(t)),
        }
    }
}

/// The board on which the standard part of a promotion is undone: the promoted
/// piece on the target square turned back into a pawn.
pub open spec fn promotion_unpromoted(m: BoardModel, to: Square, color: Color) -> BoardModel {
    let t = to.spec_index() as int;
    m.cleared(t).placed(t, Piece::Pawn, color)
}

/// Undoing a promotion does not fail where the standard undo it ends with does not.
pub open spec fn promotion_undo_allowed(
    m: BoardModel,
    from: Square,
    to: Square,
    captures: Option<Capture>,
    promote_to: Piece,
) -> bool {
    match m.piece_at(to.spec_index() as int) {
        Some((p, color)) => p == promote_to ==> standard_undo_allowed(
            promotion_unpromoted(m, to, color),
            from,
            to,
            captures,
        ),
        None => true,
    }
}

/// What undoing a promotion does: the promoted piece becomes a pawn again,
/// then the standard move is undone.
pub open spec fn promotion_undo_outcome(
    m: BoardModel,
    from: Square,
    to: Square,
    captures: Option<Capture>,
    promote_to: Piece,
) -> (Result<(), BoardError>, BoardModel) {
    let t = to.spec_index() as int;
    match m.piece_at(t) {
        Some((p, color)) => if p == promote_to {
            standard_undo_outcome(promotion_unpromoted(m, to, color), from, to, captures)
        } else {
            (Err(BoardError::PromotionNonPawnError), m.cleared(t))
        },
        None => (Err(BoardError::PromotionNonPawnError), m.cleared(t)),
    }
}

/// Undoing a promotion right after applying it succeeds and restores the board.
pub proof fn lemma_promotion_undo_reverts_apply(
    m: BoardModel,
    from: Square,
    to: Square,
    captures: Option<Capture>,
    promote_to: Piece,
)
    requires
        m.wf(),
        promotion_apply_outcome(m, from, to, captures, promote_to).0 is Ok,
    ensures
        promotion_undo_allowed(promotion_apply_outcome(m, from, to, captures, promote_to).1, from, to, captures, promote_to),
        promotion_undo_outcome(promotion_apply_outcome(m, from, to, captures, promote_to).1, from, to, captures, promote_to)
            == (Ok::<(), BoardError>(()), m),
{
    let t = to.spec_index() as int;
    let m1 = standard_apply_outcome(m, from, to, captures).1;
    lemma_standard_apply_ok(m, from, to, captures);
    lemma_standard_undo_reverts_apply(m, from, to, captures);
    let color = m1.piece_at(t).unwrap().1;
    lemma_cleared(m1, t);
    lemma_placed(m1.cleared(t), t, promote_to, color);
    let applied = m1.cleared(t).placed(t, promote_to, color);
    lemma_cleared_placed(m1.cleared(t), t, promote_to, color);
    lemma_placed_cleared(m1, t, Piece::Pawn, color);
    assert(promotion_unpromoted(applied, to, color) == m1);
}

/// A pawn move onto the last rank, promoting the pawn.
#[derive(Clone, Copy, Debug, PartialEq, Eq, Structural)]
pub struct PawnPromotionChessMove {
    from_square: Square,
    to_square: Square,
    captures: Option<Capture>,
    promote_to_piece: Piece,
    effect: Option<ChessMoveEffect>,
}

impl PawnPromotionChessMove {
    pub closed spec fn spec_from_square(self) -> Square {
        self.from_square
    }

    pub closed spec fn spec_to_square(self) -> Square {
        self.to_square
    }

    pub closed spec fn spec_captures(self) -> Option<Capture> {
        self.captures
    }

    pub closed spec fn spec_promote_to_piece(self) -> Piece {
        self.promote_to_piece
    }

    pub closed spec fn spec_effect(self) -> Option<ChessMoveEffect> {
        self.effect
    }

    /// A promotion from `from_square` to `to_square`, capturing `captures`,
    /// into `promote_to_piece`; its effect is not yet known.
    pub fn new(from_square: Square, to_square: Square, captures: Option<Capture>, promote_to_piece: Piece) -> (r: Self)
        ensures
            r.spec_from_square() == from_square,
            r.spec_to_square() == to_square,
            r.spec_captures() == captures,
            r.spec_promote_to_piece() == promote_to_piece,
            r.spec_effect() is None,
    {
        Self { from_square, to_square, captures, promote_to_piece, effect: None }
    }

    pub fn to_square(&self) -> (r: Square)
        ensures
            r == self.spec_to_square(),
    {
        self.to_square
    }

    pub fn from_square(&self) -> (r: Square)
        ensures
            r == self.spec_from_square(),
    {
        self.from_square
    }

    pub fn captures(&self) -> (r: Option<Capture>)
        ensures
            r == self.spec_captures(),
    {
        self.captures
    }

    pub fn effect(&self) -> (r: Option<ChessMoveEffect>)
        ensures
            r == self.spec_effect(),
    {
        self.effect
    }

    pub fn set_effect(&mut self, effect: ChessMoveEffect)
        ensures
            final(self).spec_effect() == Some(effect),
            final(self).spec_from_square() == old(self).spec_from_square(),
            final(self).spec_to_square() == old(self).spec_to_square(),
            final(self).spec_captures() == old(self).spec_captures(),
            final(self).spec_promote_to_piece() == old(self).spec_promote_to_piece(),
    {
        self.effect = Some(effect);
    }

    pub fn promote_to_piece(&self) -> (r: Piece)
        ensures
            r == self.spec_promote_to_piece(),
    {
        self.promote_to_piece
    }

    /// Applies the promotion to `board`.
    pub fn apply(&self, board: &mut Board) -> (r: Result<(), BoardError>)
        requires
            old(board)@.wf(),
        ensures
            final(board)@.wf(),
            (r, final(board)@) == promotion_apply_outcome(
                old(board)@,
                self.spec_from_square(),
                self.spec_to_square(),
                self.spec_captures(),
                self.spec_promote_to_piece(),
            ),
    {
        // Like a standard move, with the pawn replaced at the end.
        let standard_move = StandardChessMove::new(self.from_square, self.to_square, self.captures);
        match standard_move.apply(board) {
            Ok(()) => {},
            Err(e) => return Err(e),
        }
        let ghost m1 = board@;
        match board.remove(self.to_square) {
            Some((Piece::Pawn, color)) => {
                proof {
                    lemma_cleared(m1, self.to_square.spec_index() as int);
                }
                match board.put(self.to_square, self.promote_to_piece, color) {
                    Ok(()) => {},
                    Err(e) => return Err(e),
                }
            },
            _ => return Err(BoardError::PromotionNonPawnError),
        }
        Ok(())
    }

    /// Undoes the promotion on `board`.
    pub fn undo(&self, board: &mut Board) -> (r: Result<(), BoardError>)
        requires
            old(board)@.wf(),
            promotion_undo_allowed(
                old(board)@,
                self.spec_from_square(),
                self.spec_to_square(),
                self.spec_captures(),
                self.spec_promote_to_piece(),
            ),
        ensures
            final(board)@.wf(),
            (r, final(board)@) == promotion_undo_outcome(
                old(board)@,
                self.spec_from_square(),
                self.spec_to_square(),
                self.spec_captures(),
                self.spec_promote_to_piece(),
            ),
    {
        let ghost m0 = board@;
        // Undo the promotion first.
        match board.remove(self.to_square) {
            Some((piece, color)) => {
                if piece != self.promote_to_piece {
                    return Err(BoardError::PromotionNonPawnError);
                }
                proof {
                    lemma_cleared(m0, self.to_square.spec_index() as int);
                }
                match board.put(self.to_square, Piece::Pawn, color) {
                    Ok(()) => {},
                    Err(e) => return Err(e),
                }
            },
            None => return Err(BoardError::PromotionNonPawnError),
        }
        // Then undo the standard move.
        let standard_move = StandardChessMove::new(self.from_square, self.to_square, self.captures);
        standard_move.undo(board)
    }
}

} // verus!
