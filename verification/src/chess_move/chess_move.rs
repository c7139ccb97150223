//! A chess move of any kind.
use vstd::prelude::*;
use vstd::string::StringExecFns;

use crate::board::{Board, BoardError, BoardModel};
use crate::piece::Piece;
use crate::square::{spec_algebraic, Square};

use super::capture::Capture;
use super::castle::{
    castle_apply_allowed, castle_apply_outcome, castle_undo_allowed, castle_undo_outcome,
    lemma_castle_undo_reverts_apply, CastleChessMove,
};
use super::chess_move_effect::ChessMoveEffect;
use super::en_passant::{
    capture_square_index, en_passant_apply_allowed, en_passant_apply_outcome, en_passant_undo_allowed,
    en_passant_undo_outcome, lemma_en_passant_undo_reverts_apply, EnPassantChessMove,
};
use super::pawn_promotion::{
    lemma_promotion_undo_reverts_apply, promotion_apply_outcome, promotion_undo_allowed, promotion_undo_outcome,
    PawnPromotionChessMove,
};
use super::standard::{
    lemma_standard_undo_reverts_apply, standard_apply_outcome, standard_undo_allowed, standard_undo_outcome,
    StandardChessMove,
};

verus! {

/// A chess move of any kind.
#[derive(Clone, Copy, Debug)]
pub enum ChessMove {
    Standard(StandardChessMove),
    PawnPromotion(PawnPromotionChessMove),
    EnPassant(EnPassantChessMove),
    Castle(CastleChessMove),
}

impl ChessMove {
    pub open spec fn spec_from_square(self) -> Square {
        match self {
            ChessMove::Standard(m) => m.spec_from_square(),
            ChessMove::PawnPromotion(m) => m.spec_from_square(),
            ChessMove::EnPassant(m) => m.spec_from_square(),
            ChessMove::Castle(m) => m.spec_from_square(),
        }
    }

    pub open spec fn spec_to_square(self) -> Square {
        match self {
            ChessMove::Standard(m) => m.spec_to_square(),
            ChessMove::PawnPromotion(m) => m.spec_to_square(),
            ChessMove::EnPassant(m) => m.spec_to_square(),
            ChessMove::Castle(m) => m.spec_to_square(),
        }
    }

    /// What the move captures: an en passant capture a pawn, a castle nothing.
    pub open spec fn spec_captures(self) -> Option<Capture> {
        match self {
            ChessMove::Standard(m) => m.spec_captures(),
            ChessMove::PawnPromotion(m) => m.spec_captures(),
            ChessMove::EnPassant(m) => Some(Capture(Piece::Pawn)),
            ChessMove::Castle(m) => None,
        }
    }

    pub open spec fn spec_effect(self) -> Option<ChessMoveEffect> {
        match self {
            ChessMove::Standard(m) => m.spec_effect(),
            ChessMove::PawnPromotion(m) => m.spec_effect(),
            ChessMove::EnPassant(m) => m.spec_effect(),
            ChessMove::Castle(m) => m.spec_effect(),
        }
    }

    /// Applying the move does not panic on this board.
    pub open spec fn apply_allowed(self, m: BoardModel) -> bool {
        match self {
            ChessMove::EnPassant(e) => en_passant_apply_allowed(m, e.spec_from_square(), e.spec_to_square()),
            ChessMove::Castle(c) => castle_apply_allowed(m, c.spec_from_square(), c.spec_to_square()),
            _ => true,
        }
    }

    /// What applying the move to a board does: the result and the board afterwards.
    pub open spec fn apply_outcome(self, m: BoardModel) -> (Result<(), BoardError>, BoardModel) {
        match self {
            ChessMove::Standard(s) => standard_apply_outcome(m, s.spec_from_square(), s.spec_to_square(), s.spec_captures()),
            ChessMove::PawnPromotion(p) => promotion_apply_outcome(
                m,
                p.spec_from_square(),
                p.spec_to_square(),
                p.spec_captures(),
                p.spec_promote_to_piece(),
            ),
            ChessMove::EnPassant(e) => en_passant_apply_outcome(m, e.spec_from_square(), e.spec_to_square()),
            ChessMove::Castle(c) => castle_apply_outcome(m, c.spec_from_square(), c.spec_to_square()),
        }
    }

    /// Undoing the move does not panic on this board.
    pub open spec fn undo_allowed(self, m: BoardModel) -> bool {
        match self {
            ChessMove::Standard(s) => standard_undo_allowed(m, s.spec_from_square(), s.spec_to_square(), s.spec_captures()),
            ChessMove::PawnPromotion(p) => promotion_undo_allowed(
                m,
                p.spec_from_square(),
                p.spec_to_square(),
                p.spec_captures(),
                p.spec_promote_to_piece(),
            ),
            ChessMove::EnPassant(e) => en_passant_undo_allowed(m, e.spec_from_square(), e.spec_to_square()),
            ChessMove::Castle(c) => castle_undo_allowed(m, c.spec_from_square(), c.spec_to_square()),
        }
    }

    /// What undoing the move on a board does: the result and the board afterwards.
    pub open spec fn undo_outcome(self, m: BoardModel) -> (Result<(), BoardError>, BoardModel) {
        match self {
            ChessMove::Standard(s) => standard_undo_outcome(m, s.spec_from_square(), s.spec_to_square(), s.spec_captures()),
            ChessMove::PawnPromotion(p) => promotion_undo_outcome(
                m,
                p.spec_from_square(),
                p.spec_to_square(),
                p.spec_captures(),
                p.spec_promote_to_piece(),
            ),
            ChessMove::EnPassant(e) => en_passant_undo_outcome(m, e.spec_from_square(), e.spec_to_square()),
            ChessMove::Castle(c) => castle_undo_outcome(m, c.spec_from_square(), c.spec_to_square()),
        }
    }

    /// What an en passant capture takes is an enemy pawn (for other moves: always).
    pub open spec fn takes_enemy_pawn_en_passant(self, m: BoardModel) -> bool {
        match self {
            ChessMove::EnPassant(e) => {
                let f = e.spec_from_square().spec_index() as int;
                let color = m.piece_at(f).unwrap().1;
                m.piece_at(capture_square_index(color, e.spec_to_square().spec_index() as int)) == Some(
                    (Piece::Pawn, color.spec_opposite()),
                )
            },
            _ => true,
        }
    }

    pub fn to_square(&self) -> (r: Square)
        ensures
            r == self.spec_to_square(),
    {
        match self {
            ChessMove::Standard(m) => m.to_square(),
            ChessMove::PawnPromotion(m) => m.to_square(),
            ChessMove::EnPassant(m) => m.to_square(),
            ChessMove::Castle(m) => m.to_square(),
        }
    }

    pub fn from_square(&self) -> (r: Square)
        ensures
            r == self.spec_from_square(),
    {
        match self {
            ChessMove::Standard(m) => m.from_square(),
            ChessMove::PawnPromotion(m) => m.from_square(),
            ChessMove::EnPassant(m) => m.from_square(),
            ChessMove::Castle(m) => m.from_square(),
        }
    }

    pub fn captures(&self) -> (r: Option<Capture>)
        ensures
            r == self.spec_captures(),
    {
        match self {
            ChessMove::Standard(m) => m.captures(),
            ChessMove::PawnPromotion(m) => m.captures(),
            ChessMove::EnPassant(m) => Some(m.captures()),
            ChessMove::Castle(_m) => None,
        }
    }

    pub fn effect(&self) -> (r: Option<ChessMoveEffect>)
        ensures
            r == self.spec_effect(),
    {
        match self {
            ChessMove::Standard(m) => m.effect(),
            ChessMove::PawnPromotion(m) => m.effect(),
            ChessMove::EnPassant(m) => m.effect(),
            ChessMove::Castle(m) => m.effect(),
        }
    }

    /// Records the move's effect; the move itself does not change.
    pub fn set_effect(&mut self, effect: ChessMoveEffect)
        ensures
            final(self).spec_effect() == Some(effect),
            final(self).spec_from_square() == old(self).spec_from_square(),
            final(self).spec_to_square() == old(self).spec_to_square(),
            final(self).spec_captures() == old(self).spec_captures(),
            forall|m: BoardModel| #[trigger] final(self).apply_outcome(m) == old(self).apply_outcome(m),
            forall|m: BoardModel| #[trigger] final(self).undo_outcome(m) == old(self).undo_outcome(m),
            forall|m: BoardModel| #[trigger] final(self).apply_allowed(m) == old(self).apply_allowed(m),
            forall|m: BoardModel| #[trigger] final(self).undo_allowed(m) == old(self).undo_allowed(m),
    {
        match self {
            ChessMove::Standard(m) => m.set_effect(effect),
            ChessMove::PawnPromotion(m) => m.set_effect(effect),
            ChessMove::EnPassant(m) => m.set_effect(effect),
            ChessMove::Castle(m) => m.set_effect(effect),
        }
    }

    /// Applies the move to `board`.
    pub fn apply(&self, board: &mut Board) -> (r: Result<(), BoardError>)
        requires
            old(board)@.wf(),
            self.apply_allowed(old(board)@),
        ensures
            final(board)@.wf(),
            (r, final(board)@) == self.apply_outcome(old(board)@),
    {
        let result = match self {
            ChessMove::Standard(m) => m.apply(board),
            ChessMove::PawnPromotion(m) => m.apply(board),
            ChessMove::EnPassant(m) => m.apply(board),
            ChessMove::Castle(m) => m.apply(board),
        };
        map_ok(result)
    }

    /// Undoes the move on `board`, which must be the board it was applied to.
    pub fn undo(&self, board: &mut Board) -> (r: Result<(), BoardError>)
        requires
            old(board)@.wf(),
            self.undo_allowed(old(board)@),
        ensures
            final(board)@.wf(),
            (r, final(board)@) == self.undo_outcome(old(board)@),
    {
        let result = match self {
            ChessMove::Standard(m) => m.undo(board),
            ChessMove::PawnPromotion(m) => m.undo(board),
            ChessMove::EnPassant(m) => m.undo(board),
            ChessMove::Castle(m) => m.undo(board),
        };
        map_ok(result)
    }
}

/// Any result with its success value dropped.
pub fn map_ok<T, E>(result: Result<T, E>) -> (r: Result<(), E>)
    ensures
        match result {
            Ok(_) => r == Ok::<(), E>(()),
            Err(e) => r == Err::<(), E>(e),
        },
{
    match result {
        Ok(_) => Ok(()),
        Err(e) => Err(e),
    }
}

/// Undoing any move right after applying it succeeds and restores the board
/// exactly: pieces, side to move, clocks, en passant targets and castle rights.
/// For an en passant capture this needs what it took to have been an enemy pawn,
/// since undoing it puts back a pawn.
pub proof fn lemma_undo_reverts_apply(mv: ChessMove, m: BoardModel)
    requires
        m.wf(),
        mv.apply_allowed(m),
        mv.apply_outcome(m).0 is Ok,
        mv.takes_enemy_pawn_en_passant(m),
    ensures
        mv.undo_allowed(mv.apply_outcome(m).1),
        mv.undo_outcome(mv.apply_outcome(m).1) == (Ok::<(), BoardError>(()), m),
{
    match mv {
        ChessMove::Standard(s) => lemma_standard_undo_reverts_apply(
            m,
            s.spec_from_square(),
            s.spec_to_square(),
            s.spec_captures(),
        ),
        ChessMove::PawnPromotion(p) => lemma_promotion_undo_reverts_apply(
            m,
            p.spec_from_square(),
            p.spec_to_square(),
            p.spec_captures(),
            p.spec_promote_to_piece(),
        ),
        ChessMove::EnPassant(e) => lemma_en_passant_undo_reverts_apply(m, e.spec_from_square(), e.spec_to_square()),
        ChessMove::Castle(c) => lemma_castle_undo_reverts_apply(m, c.spec_from_square(), c.spec_to_square()),
    }
}


/// The UCI letter of a promotion piece.
pub open spec fn uci_promotion_char(piece: Piece) -> char {
    match piece {
        Piece::Queen => 'q',
        Piece::Rook => 'r',
        Piece::Bishop => 'b',
        _ => 'n',
    }
}

/// Whether a piece is one a pawn can be promoted to.
pub open spec fn is_promotion_piece(piece: Piece) -> bool {
    piece == Piece::Queen || piece == Piece::Rook || piece == Piece::Bishop || piece == Piece::Knight
}

/// The UCI text of a move: its squares of departure and arrival, and for a
/// promotion the letter of the new piece, as in "e7e8q".
pub open spec fn spec_uci(mv: ChessMove) -> Seq<char> {
    let squares = spec_algebraic(mv.spec_from_square()) + spec_algebraic(mv.spec_to_square());
    match mv {
        ChessMove::PawnPromotion(p) => squares.push(uci_promotion_char(p.spec_promote_to_piece())),
        _ => squares,
    }
}

/// The UCI text of a move names it: its first four characters are its two
/// squares, and it has a fifth exactly when it is a promotion, which is the
/// small letter of the piece promoted to (its algebraic letter in lower
/// case). So promotions between the same squares to different pieces read
/// differently.
pub proof fn lemma_uci_names_the_move(mv: ChessMove, other: ChessMove)
    requires
        mv matches ChessMove::PawnPromotion(p) ==> is_promotion_piece(p.spec_promote_to_piece()),
        other matches ChessMove::PawnPromotion(p) ==> is_promotion_piece(p.spec_promote_to_piece()),
    ensures
        spec_uci(mv).take(4) == spec_algebraic(mv.spec_from_square()) + spec_algebraic(mv.spec_to_square()),
        spec_uci(mv).len() == 5 <==> mv is PawnPromotion,
        mv is PawnPromotion ==> spec_uci(mv).len() == 5 && spec_uci(mv)[4] == crate::text::ascii_lower(
            crate::piece::piece_letter(mv->PawnPromotion_0.spec_promote_to_piece())[0],
        ),
        (mv is PawnPromotion && other is PawnPromotion && mv.spec_from_square() == other.spec_from_square()
            && mv.spec_to_square() == other.spec_to_square() && mv->PawnPromotion_0.spec_promote_to_piece()
            != other->PawnPromotion_0.spec_promote_to_piece()) ==> spec_uci(mv) != spec_uci(other),
{
    let squares = spec_algebraic(mv.spec_from_square()) + spec_algebraic(mv.spec_to_square());
    assert(squares.len() == 4);
    match mv {
        ChessMove::PawnPromotion(p) => {
            assert(spec_uci(mv).take(4) =~= squares);
            match other {
                ChessMove::PawnPromotion(q) => {
                    if p.spec_promote_to_piece() != q.spec_promote_to_piece() {
                        assert(spec_uci(mv)[4] != spec_uci(other)[4]);
                    }
                },
                _ => {},
            }
        },
        _ => {
            assert(spec_uci(mv).take(4) =~= squares);
        },
    }
}

impl ChessMove {
    /// The move in UCI notation, as in "e2e4" or "e7e8q".
    pub fn to_uci(&self) -> (r: String)
        requires
            self matches ChessMove::PawnPromotion(p) ==> is_promotion_piece(p.spec_promote_to_piece()),
        ensures
            r@ == spec_uci(*self),
    {
        let from = self.from_square().to_algebraic();
        let to = self.to_square().to_algebraic();
        let squares = from.concat(to.as_str());
        match self {
            ChessMove::PawnPromotion(m) => {
                let suffix = match m.promote_to_piece() {
                    Piece::Queen => {
                        proof { reveal_strlit("q"); }
                        "q"
                    },
                    Piece::Rook => {
                        proof { reveal_strlit("r"); }
                        "r"
                    },
                    Piece::Bishop => {
                        proof { reveal_strlit("b"); }
                        "b"
                    },
                    _ => {
                        proof { reveal_strlit("n"); }
                        "n"
                    },
                };
                let r = squares.concat(suffix);
                proof { assert(r@ =~= spec_uci(*self)); }
                r
            },
            _ => squares,
        }
    }
}

impl PartialEq for ChessMove {
    fn eq(&self, other: &ChessMove) -> (r: bool) {
        match (self, other) {
            (ChessMove::Standard(a), ChessMove::Standard(b)) => a == b,
            (ChessMove::PawnPromotion(a), ChessMove::PawnPromotion(b)) => a == b,
            (ChessMove::EnPassant(a), ChessMove::EnPassant(b)) => a == b,
            (ChessMove::Castle(a), ChessMove::Castle(b)) => a == b,
            _ => false,
        }
    }
}

impl vstd::std_specs::cmp::PartialEqSpecImpl for ChessMove {
    open spec fn obeys_eq_spec() -> bool {
        true
    }

    /// Two moves are equal when they are of the same kind and equal as such
    /// (a standard move's effect does not count).
    open spec fn eq_spec(&self, other: &ChessMove) -> bool {
        match (*self, *other) {
            (ChessMove::Standard(a), ChessMove::Standard(b)) => a.same_move(b),
            (ChessMove::PawnPromotion(a), ChessMove::PawnPromotion(b)) => a == b,
            (ChessMove::EnPassant(a), ChessMove::EnPassant(b)) => a == b,
            (ChessMove::Castle(a), ChessMove::Castle(b)) => a == b,
            _ => false,
        }
    }
}

} // verus!
