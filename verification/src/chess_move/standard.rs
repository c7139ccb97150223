//! Standard moves: every move that is not a pawn promotion, an en passant
//! capture or a castle.
use vstd::prelude::*;

use crate::board::{
    lemma_wf_same_pieces, lemma_piece_at_same_pieces, lemma_cleared, lemma_cleared_empty, lemma_cleared_placed, lemma_placed, lemma_placed_cleared,
    next_count, prev_count, Board, BoardError, BoardModel, CastleRights,
};
use crate::piece::{Color, Piece};
use crate::square::Square;

use super::capture::Capture;
use super::chess_move_effect::ChessMoveEffect;
use super::pawn_promotion::PawnPromotionChessMove;

verus! {

/// Whether two optional occupants of a square are the same.
pub fn same_occupant(a: Option<(Piece, Color)>, b: Option<(Piece, Color)>) -> (r: bool)
    ensures
        r == (a == b),
{
    match (a, b) {
        (None, None) => true,
        (Some((pa, ca)), Some((pb, cb))) => pa == pb && ca == cb,
        _ => false,
    }
}

/// The occupant a move capturing `captures` expects to find on its target
/// square, when the moving piece is of `color`.
pub open spec fn expected_capture(captures: Option<Capture>, color: Color) -> Option<(Piece, Color)> {
    match captures {
        Some(c) => Some((c.0, color.spec_opposite())),
        None => None,
    }
}

/// The en passant target a move creates: the square a pawn skips over in a
/// double push from its starting rank, and none for any other move.
pub open spec fn en_passant_target_for(piece: Piece, color: Color, from: int, to: int) -> Option<Square> {
    if piece != Piece::Pawn {
        None
    } else {
        match color {
            Color::White => if from / 8 == 1 && to / 8 == 3 {
                Some(Square::spec_from_index((from + 8) as nat))
            } else {
                None
            },
            Color::Black => if from / 8 == 6 && to / 8 == 4 {
                Some(Square::spec_from_index((from - 8) as nat))
            } else {
                None
            },
        }
    }
}

/// Castle rights (as bits) lost because a rook or king leaves its home square.
pub open spec fn lost_rights_if_rook_or_king_moved(piece: Piece, color: Color, from: int) -> u8 {
    match (piece, color) {
        (Piece::Rook, Color::White) => if from == 0 { 2u8 } else if from == 7 { 1u8 } else { 0u8 },
        (Piece::Rook, Color::Black) => if from == 56 { 8u8 } else if from == 63 { 4u8 } else { 0u8 },
        (Piece::King, Color::White) => if from == 4 { 3u8 } else { 0u8 },
        (Piece::King, Color::Black) => if from == 60 { 12u8 } else { 0u8 },
        _ => 0u8,
    }
}

/// Castle rights (as bits) lost because a rook is captured on its home square.
pub open spec fn lost_rights_if_rook_taken(captured: Option<(Piece, Color)>, to: int) -> u8 {
    match captured {
        Some((Piece::Rook, Color::White)) => if to == 0 { 2u8 } else if to == 7 { 1u8 } else { 0u8 },
        Some((Piece::Rook, Color::Black)) => if to == 56 { 8u8 } else if to == 63 { 4u8 } else { 0u8 },
        _ => 0u8,
    }
}

/// The board after the move clocks and stacks advance for a move: the halfmove
/// clock restarts when `restart_halfmove` holds (a standard move restarts it on
/// a capture or a pawn move, as the fifty-move rule counts), the fullmove
/// clock advances, and the move's en
/// passant target and remaining castle rights become current.
pub open spec fn advance_for_move(
    m: BoardModel,
    restart_halfmove: bool,
    en_passant: Option<Square>,
    lost_rights: u8,
) -> BoardModel {
    BoardModel {
        halfmove_clocks: m.halfmove_clocks.push(
            if restart_halfmove { 0u32 } else { next_count(m.halfmove_clock()) },
        ),
        fullmove_clock: next_count(m.fullmove_clock),
        en_passant_targets: m.en_passant_targets.push(en_passant),
        castle_rights: m.castle_rights.push(CastleRights { bits: m.current_castle_rights().bits & !lost_rights }),
        ..m
    }
}

/// The board after the clocks and stacks a move pushed are popped again.
pub open spec fn retreat_for_undo(m: BoardModel) -> BoardModel {
    BoardModel {
        halfmove_clocks: m.halfmove_clocks.drop_last(),
        fullmove_clock: prev_count(m.fullmove_clock),
        en_passant_targets: m.en_passant_targets.drop_last(),
        castle_rights: m.castle_rights.drop_last(),
        ..m
    }
}

/// What applying a standard move does: the result and the board afterwards.
/// A failed application leaves the board with the squares it emptied so far.
pub open spec fn standard_apply_outcome(m: BoardModel, from: Square, to: Square, captures: Option<Capture>) -> (
    Result<(), BoardError>,
    BoardModel,
) {
    let f = from.spec_index() as int;
    let t = to.spec_index() as int;
    match m.piece_at(f) {
        None => (Err(BoardError::FromSquareIsEmptyMoveApplicationError), m.cleared(f)),
        Some((piece, color)) => {
            let m1 = m.cleared(f);
            let captured = m1.piece_at(t);
            let m2 = m1.cleared(t);
            if captured != expected_capture(captures, color) {
                (Err(BoardError::UnexpectedCaptureResultError), m2)
            } else {
                let lost = lost_rights_if_rook_or_king_moved(piece, color, f) | lost_rights_if_rook_taken(captured, t);
                let m3 = advance_for_move(m2, captured is Some || piece == Piece::Pawn, en_passant_target_for(piece, color, f, t), lost);
                (Ok(()), m3.placed(t, piece, color))
            }
        },
    }
}

/// Undoing a standard move does not fail on a board where the move's stacks can
/// be popped and the piece can go back to its square.
pub open spec fn standard_undo_allowed(m: BoardModel, from: Square, to: Square, captures: Option<Capture>) -> bool {
    let f = from.spec_index() as int;
    let t = to.spec_index() as int;
    &&& m.halfmove_clocks.len() >= 2
    &&& m.en_passant_targets.len() >= 2
    &&& m.castle_rights.len() >= 2
    &&& m.piece_at(t) is Some ==> if f == t {
        captures is None
    } else {
        m.piece_at(f) is None
    }
}

/// What undoing a standard move does: the result and the board afterwards.
pub open spec fn standard_undo_outcome(m: BoardModel, from: Square, to: Square, captures: Option<Capture>) -> (
    Result<(), BoardError>,
    BoardModel,
) {
    let f = from.spec_index() as int;
    let t = to.spec_index() as int;
    match m.piece_at(t) {
        None => (Err(BoardError::ToSquareIsEmptyMoveUndoError), m.cleared(t)),
        Some((piece, color)) => {
            let m1 = m.cleared(t);
            let m2 = match captures {
                Some(c) => m1.placed(t, c.0, color.spec_opposite()),
                None => m1,
            };
            (Ok(()), retreat_for_undo(m2).placed(f, piece, color))
        },
    }
}

/// A standard move that applies leaves a well-formed board with the moved
/// piece on its target square.
pub proof fn lemma_standard_apply_ok(m: BoardModel, from: Square, to: Square, captures: Option<Capture>)
    requires
        m.wf(),
        standard_apply_outcome(m, from, to, captures).0 is Ok,
    ensures
        standard_apply_outcome(m, from, to, captures).1.wf(),
        standard_apply_outcome(m, from, to, captures).1.piece_at(to.spec_index() as int) == m.piece_at(
            from.spec_index() as int,
        ),
{
    let f = from.spec_index() as int;
    let t = to.spec_index() as int;
    let (piece, color) = m.piece_at(f).unwrap();
    let m1 = m.cleared(f);
    lemma_cleared(m, f);
    let captured = m1.piece_at(t);
    let m2 = m1.cleared(t);
    lemma_cleared(m1, t);
    let lost = lost_rights_if_rook_or_king_moved(piece, color, f) | lost_rights_if_rook_taken(captured, t);
    let m3 = advance_for_move(m2, captured is Some || piece == Piece::Pawn, en_passant_target_for(piece, color, f, t), lost);
    lemma_piece_at_same_pieces(m2, m3, t);
    lemma_wf_same_pieces(m2, m3);
    lemma_placed(m3, t, piece, color);
}

/// Undoing a standard move right after applying it succeeds and restores the
/// board exactly: pieces, turn, clocks, en passant targets and castle rights.
pub proof fn lemma_standard_undo_reverts_apply(m: BoardModel, from: Square, to: Square, captures: Option<Capture>)
    requires
        m.wf(),
        standard_apply_outcome(m, from, to, captures).0 is Ok,
    ensures
        standard_undo_allowed(standard_apply_outcome(m, from, to, captures).1, from, to, captures),
        standard_undo_outcome(standard_apply_outcome(m, from, to, captures).1, from, to, captures) == (
            Ok::<(), BoardError>(()),
            m,
        ),
{
    let f = from.spec_index() as int;
    let t = to.spec_index() as int;
    let (piece, color) = m.piece_at(f).unwrap();
    let m1 = m.cleared(f);
    lemma_cleared(m, f);
    let captured = m1.piece_at(t);
    let m2 = m1.cleared(t);
    lemma_cleared(m1, t);
    let lost = lost_rights_if_rook_or_king_moved(piece, color, f) | lost_rights_if_rook_taken(captured, t);
    let m3 = advance_for_move(m2, captured is Some || piece == Piece::Pawn, en_passant_target_for(piece, color, f, t), lost);
    lemma_piece_at_same_pieces(m2, m3, t);
    lemma_piece_at_same_pieces(m2, m3, f);
    lemma_wf_same_pieces(m2, m3);
    let applied = m3.placed(t, piece, color);
    lemma_placed(m3, t, piece, color);
    assert(standard_apply_outcome(m, from, to, captures).1 == applied);
    // Undo: the moved piece leaves `to` again.
    lemma_cleared_placed(m3, t, piece, color);
    let u1 = applied.cleared(t);
    assert(u1 == m3);
    // The captured piece (if any) comes back.
    let u2 = match captures {
        Some(c) => u1.placed(t, c.0, color.spec_opposite()),
        None => u1,
    };
    let back = match captures {
        Some(c) => {
            lemma_placed_cleared(m1, t, c.0, color.spec_opposite());
            m1
        },
        None => {
            lemma_cleared_empty(m1, t);
            m1
        },
    };
    assert(retreat_for_undo(u2) =~= back);
    lemma_placed_cleared(m, f, piece, color);
    assert(retreat_for_undo(u2).placed(f, piece, color) == m);
}

/// A move that is not a pawn promotion, an en passant capture or a castle.
#[derive(Clone, Copy, Debug)]
pub struct StandardChessMove {
    from_square: Square,
    to_square: Square,
    captures: Option<Capture>,
    effect: Option<ChessMoveEffect>,
}

impl StandardChessMove {
    pub closed spec fn spec_from_square(self) -> Square {
        self.from_square
    }

    pub closed spec fn spec_to_square(self) -> Square {
        self.to_square
    }

    pub closed spec fn spec_captures(self) -> Option<Capture> {
        self.captures
    }

    pub closed spec fn spec_effect(self) -> Option<ChessMoveEffect> {
        self.effect
    }

    /// A move from `from_square` to `to_square`, capturing `captures`; its effect
    /// is not yet known.
    pub fn new(from_square: Square, to_square: Square, captures: Option<Capture>) -> (r: Self)
        ensures
            r.spec_from_square() == from_square,
            r.spec_to_square() == to_square,
            r.spec_captures() == captures,
            r.spec_effect() is None,
    {
        Self { from_square, to_square, captures, effect: None }
    }

    pub fn to_square(&self) -> (r: Square)
        ensures
            r == self.spec_to_square(),
    {
        self.to_square
    }

    pub fn from_square(&self) -> (r: Square)
        ensures
            r == self.spec_from_square(),
    {
        self.from_square
    }

    pub fn captures(&self) -> (r: Option<Capture>)
        ensures
            r == self.spec_captures(),
    {
        self.captures
    }

    pub fn effect(&self) -> (r: Option<ChessMoveEffect>)
        ensures
            r == self.spec_effect(),
    {
        self.effect
    }

    pub fn set_effect(&mut self, effect: ChessMoveEffect)
        ensures
            final(self).spec_effect() == Some(effect),
            final(self).spec_from_square() == old(self).spec_from_square(),
            final(self).spec_to_square() == old(self).spec_to_square(),
            final(self).spec_captures() == old(self).spec_captures(),
    {
        self.effect = Some(effect);
    }

    /// Applies the move to `board`.
    pub fn apply(&self, board: &mut Board) -> (r: Result<(), BoardError>)
        requires
            old(board)@.wf(),
        ensures
            final(board)@.wf(),
            (r, final(board)@) == standard_apply_outcome(
                old(board)@,
                self.spec_from_square(),
                self.spec_to_square(),
                self.spec_captures(),
            ),
    {
        let ghost m0 = board@;
        let moved = board.remove(self.from_square);
        let (piece, color) = match moved {
            None => return Err(BoardError::FromSquareIsEmptyMoveApplicationError),
            Some(pc) => pc,
        };
        proof { lemma_cleared(m0, self.from_square.spec_index() as int); }
        let captured = board.remove(self.to_square);
        let expected = match self.captures {
            Some(c) => Some((c.0, color.opposite())),
            None => None,
        };
        if !same_occupant(captured, expected) {
            return Err(BoardError::UnexpectedCaptureResultError);
        }
        let en_passant_target = get_en_passant_target_square(piece, color, self.from_square, self.to_square);
        let lost_bits = get_lost_castle_rights_if_rook_or_king_moved(piece, color, self.from_square)
            | get_lost_castle_rights_if_rook_taken(captured, self.to_square);
        // The fifty-move count starts again on a capture or a pawn move.
        if captured.is_some() || piece == Piece::Pawn {
            board.reset_halfmove_clock();
        } else {
            board.increment_halfmove_clock();
        }
        board.increment_fullmove_clock();
        board.push_en_passant_target(en_passant_target);
        board.lose_castle_rights(CastleRights { bits: lost_bits });
        let ghost m3 = board@;
        proof {
            let m2 = m0.cleared(self.from_square.spec_index() as int).cleared(self.to_square.spec_index() as int);
            lemma_cleared(m0.cleared(self.from_square.spec_index() as int), self.to_square.spec_index() as int);
            lemma_piece_at_same_pieces(m2, m3, self.to_square.spec_index() as int);
            lemma_placed(m3, self.to_square.spec_index() as int, piece, color);
        }
        let placed = board.put(self.to_square, piece, color);
        proof {
            assert(m3 =~= advance_for_move(
                m0.cleared(self.from_square.spec_index() as int).cleared(self.to_square.spec_index() as int),
                captured is Some || piece == Piece::Pawn,
                en_passant_target,
                lost_bits,
            ));
        }
        Ok(())
    }

    /// Undoes the move on `board`, which must be the board the move was applied to.
    pub fn undo(&self, board: &mut Board) -> (r: Result<(), BoardError>)
        requires
            old(board)@.wf(),
            standard_undo_allowed(old(board)@, self.spec_from_square(), self.spec_to_square(), self.spec_captures()),
        ensures
            final(board)@.wf(),
            (r, final(board)@) == standard_undo_outcome(
                old(board)@,
                self.spec_from_square(),
                self.spec_to_square(),
                self.spec_captures(),
            ),
    {
        let ghost m0 = board@;
        let moved = board.remove(self.to_square);
        let (piece, color) = match moved {
            None => return Err(BoardError::ToSquareIsEmptyMoveUndoError),
            Some(pc) => pc,
        };
        proof { lemma_cleared(m0, self.to_square.spec_index() as int); }
        if let Some(c) = self.captures {
            match board.put(self.to_square, c.0, color.opposite()) {
                Ok(()) => {},
                Err(e) => return Err(e),
            }
        }
        let ghost m2 = board@;
        board.pop_halfmove_clock();
        board.decrement_fullmove_clock();
        board.pop_en_passant_target();
        board.pop_castle_rights();
        proof {
            assert(board@ =~= retreat_for_undo(m2));
            let f = self.from_square.spec_index() as int;
            let t = self.to_square.spec_index() as int;
            lemma_piece_at_same_pieces(m2, board@, f);
            match self.spec_captures() {
                Some(c) => {
                    lemma_placed(m0.cleared(t), t, c.0, color.spec_opposite());
                },
                None => {
                    lemma_piece_at_same_pieces(m0.cleared(t), m2, f);
                },
            }
        }
        let placed = board.put(self.from_square, piece, color);
        Ok(())
    }
}


impl StandardChessMove {
    /// Two standard moves are the same move when their squares and captures
    /// agree; their effects do not count.
    pub open spec fn same_move(self, other: StandardChessMove) -> bool {
        &&& self.spec_from_square() == other.spec_from_square()
        &&& self.spec_to_square() == other.spec_to_square()
        &&& self.spec_captures() == other.spec_captures()
    }
}

impl PartialEq for StandardChessMove {
    fn eq(&self, other: &Self) -> (r: bool) {
        let same_capture = match (self.captures, other.captures) {
            (None, None) => true,
            (Some(a), Some(b)) => a.0 == b.0,
            _ => false,
        };
        self.from_square == other.from_square && self.to_square == other.to_square && same_capture
    }
}

impl vstd::std_specs::cmp::PartialEqSpecImpl for StandardChessMove {
    open spec fn obeys_eq_spec() -> bool {
        true
    }

    open spec fn eq_spec(&self, other: &Self) -> bool {
        self.same_move(*other)
    }
}


/// Whether a standard move takes a pawn from the rank before last to the last
/// rank of its side: White from rank 7 to rank 8, Black from rank 2 to rank 1.
pub open spec fn is_promotable_pawn_move(m: BoardModel, from: Square, to: Square) -> bool {
    let f = from.spec_index() as int;
    let t = to.spec_index() as int;
    match m.piece_at(f) {
        Some((Piece::Pawn, Color::White)) => f / 8 == 6 && t / 8 == 7,
        Some((Piece::Pawn, Color::Black)) => f / 8 == 1 && t / 8 == 0,
        _ => false,
    }
}

impl StandardChessMove {
    /// Whether the move takes a pawn onto its last rank from the rank before.
    pub fn is_promotable_pawn(&self, board: &Board) -> (r: bool)
        ensures
            r == is_promotable_pawn_move(board@, self.spec_from_square(), self.spec_to_square()),
    {
        let pawn_color = match board.get(self.from_square) {
            Some((Piece::Pawn, color)) => color,
            _ => return false,
        };
        let from = self.from_square.index();
        let to = self.to_square.index();
        let (on_back_rank, on_promotion_rank) = match pawn_color {
            Color::White => (from / 8 == 6, to / 8 == 7),
            Color::Black => (from / 8 == 1, to / 8 == 0),
        };
        on_back_rank && on_promotion_rank
    }

    /// The promotion to `promote_to_piece` this move makes, if it is a promotable pawn move.
    pub fn to_pawn_promotion(&self, board: &Board, promote_to_piece: Piece) -> (r: Result<
        PawnPromotionChessMove,
        BoardError,
    >)
        ensures
            !is_promotable_pawn_move(board@, self.spec_from_square(), self.spec_to_square()) ==> r == Err::<
                PawnPromotionChessMove,
                BoardError,
            >(BoardError::PawnNotPromotableError),
            is_promotable_pawn_move(board@, self.spec_from_square(), self.spec_to_square()) ==> (r matches Ok(p) && {
                &&& p.spec_from_square() == self.spec_from_square()
                &&& p.spec_to_square() == self.spec_to_square()
                &&& p.spec_captures() == self.spec_captures()
                &&& p.spec_promote_to_piece() == promote_to_piece
                &&& p.spec_effect() is None
            }),
    {
        if !self.is_promotable_pawn(board) {
            return Err(BoardError::PawnNotPromotableError);
        }
        Ok(PawnPromotionChessMove::new(self.from_square, self.to_square, self.captures, promote_to_piece))
    }
}

/// The en passant target a move of `piece` from `from_square` to `to_square` creates.
fn get_en_passant_target_square(piece: Piece, color: Color, from_square: Square, to_square: Square) -> (r: Option<Square>)
    ensures
        r == en_passant_target_for(piece, color, from_square.spec_index() as int, to_square.spec_index() as int),
{
    if piece != Piece::Pawn {
        return None;
    }
    let from = from_square.index();
    let to = to_square.index();
    match color {
        Color::White => if from / 8 == 1 && to / 8 == 3 {
            Some(Square::from_index(from + 8))
        } else {
            None
        },
        Color::Black => if from / 8 == 6 && to / 8 == 4 {
            Some(Square::from_index(from - 8))
        } else {
            None
        },
    }
}

fn get_lost_castle_rights_if_rook_or_king_moved(piece: Piece, color: Color, from_square: Square) -> (r: u8)
    ensures
        r == lost_rights_if_rook_or_king_moved(piece, color, from_square.spec_index() as int),
{
    let from = from_square.index();
    match (piece, color) {
        (Piece::Rook, Color::White) => if from == 0 { 2 } else if from == 7 { 1 } else { 0 },
        (Piece::Rook, Color::Black) => if from == 56 { 8 } else if from == 63 { 4 } else { 0 },
        (Piece::King, Color::White) => if from == 4 { 3 } else { 0 },
        (Piece::King, Color::Black) => if from == 60 { 12 } else { 0 },
        _ => 0,
    }
}

fn get_lost_castle_rights_if_rook_taken(captured: Option<(Piece, Color)>, to_square: Square) -> (r: u8)
    ensures
        r == lost_rights_if_rook_taken(captured, to_square.spec_index() as int),
{
    let to = to_square.index();
    match captured {
        Some((Piece::Rook, Color::White)) => if to == 0 { 2 } else if to == 7 { 1 } else { 0 },
        Some((Piece::Rook, Color::Black)) => if to == 56 { 8 } else if to == 63 { 4 } else { 0 },
        _ => 0,
    }
}

/// A pawn's double step from its starting rank, straight ahead to an empty
/// square, applies and leaves as en passant target the square it passed
/// over: the one in front of a white pawn's start (`from + 8`), behind a
/// black pawn's start from White's side (`from - 8`). Every other standard
/// move that applies leaves no en passant target.
pub proof fn lemma_double_step_sets_en_passant_target(m: BoardModel, from: Square, to: Square, captures: Option<Capture>)
    requires
        m.wf(),
    ensures
        ({
            let f = from.spec_index() as int;
            let t = to.spec_index() as int;
            let (r, after) = standard_apply_outcome(m, from, to, captures);
            &&& (m.piece_at(f) == Some((Piece::Pawn, Color::White)) && f / 8 == 1 && t == f + 16 && m.piece_at(t) is None
                && captures is None) ==> (r is Ok && after.en_passant_target() is Some
                && after.en_passant_target().unwrap().spec_index() == f + 8)
            &&& (m.piece_at(f) == Some((Piece::Pawn, Color::Black)) && f / 8 == 6 && t == f - 16 && m.piece_at(t) is None
                && captures is None) ==> (r is Ok && after.en_passant_target() is Some
                && after.en_passant_target().unwrap().spec_index() == f - 8)
            &&& (r is Ok && !(m.piece_at(f) == Some((Piece::Pawn, Color::White)) && f / 8 == 1 && t / 8 == 3)
                && !(m.piece_at(f) == Some((Piece::Pawn, Color::Black)) && f / 8 == 6 && t / 8 == 4))
                ==> after.en_passant_target() is None
        }),
{
    let f = from.spec_index() as int;
    let t = to.spec_index() as int;
    crate::square::lemma_index_bound(from);
    crate::square::lemma_index_bound(to);
    lemma_cleared(m, f);
    if f / 8 == 1 && t == f + 16 {
        crate::square::lemma_from_index_inverse((f + 8) as nat);
    }
    if f / 8 == 6 && t == f - 16 {
        crate::square::lemma_from_index_inverse((f - 8) as nat);
    }
}

proof fn lemma_rights_removed(b: u8, lost: u8)
    by (bit_vector)
    ensures
        (b & !lost) & lost == 0,
        (b & !lost) & !b == 0,
{
}

/// A standard move never gives castle rights back, and takes away those it
/// spoils: a king leaving its home square loses both of its side's rights,
/// a rook leaving its corner, or captured on it, loses the right on that side
/// (bit 0 White kingside, h1; bit 1 White queenside, a1; bit 2 Black kingside,
/// h8; bit 3 Black queenside, a8).
pub proof fn lemma_standard_move_castle_rights(m: BoardModel, from: Square, to: Square, captures: Option<Capture>)
    requires
        m.wf(),
    ensures
        ({
            let f = from.spec_index() as int;
            let t = to.spec_index() as int;
            let (r, after) = standard_apply_outcome(m, from, to, captures);
            let before_bits = m.current_castle_rights().bits;
            let bits = after.current_castle_rights().bits;
            &&& r is Ok ==> bits & !before_bits == 0
            &&& (r is Ok && m.piece_at(f) == Some((Piece::King, Color::White)) && f == 4) ==> bits & 3 == 0
            &&& (r is Ok && m.piece_at(f) == Some((Piece::King, Color::Black)) && f == 60) ==> bits & 12 == 0
            &&& (r is Ok && m.piece_at(f) == Some((Piece::Rook, Color::White)) && f == 7) ==> bits & 1 == 0
            &&& (r is Ok && m.piece_at(f) == Some((Piece::Rook, Color::White)) && f == 0) ==> bits & 2 == 0
            &&& (r is Ok && m.piece_at(f) == Some((Piece::Rook, Color::Black)) && f == 63) ==> bits & 4 == 0
            &&& (r is Ok && m.piece_at(f) == Some((Piece::Rook, Color::Black)) && f == 56) ==> bits & 8 == 0
            &&& (r is Ok && m.piece_at(t) == Some((Piece::Rook, Color::White)) && t == 7) ==> bits & 1 == 0
            &&& (r is Ok && m.piece_at(t) == Some((Piece::Rook, Color::White)) && t == 0) ==> bits & 2 == 0
            &&& (r is Ok && m.piece_at(t) == Some((Piece::Rook, Color::Black)) && t == 63) ==> bits & 4 == 0
            &&& (r is Ok && m.piece_at(t) == Some((Piece::Rook, Color::Black)) && t == 56) ==> bits & 8 == 0
        }),
{
    let f = from.spec_index() as int;
    let t = to.spec_index() as int;
    crate::square::lemma_index_bound(from);
    crate::square::lemma_index_bound(to);
    lemma_cleared(m, f);
    let (r, after) = standard_apply_outcome(m, from, to, captures);
    if r is Ok {
        let (piece, color) = m.piece_at(f).unwrap();
        let captured = m.cleared(f).piece_at(t);
        let mv = lost_rights_if_rook_or_king_moved(piece, color, f);
        let tk = lost_rights_if_rook_taken(captured, t);
        let lost = mv | tk;
        let b = m.current_castle_rights().bits;
        lemma_rights_removed(b, lost);
        let bits = after.current_castle_rights().bits;
        assert(bits == b & !lost);
        assert(mv & lost == mv && tk & lost == tk) by (bit_vector)
            requires
                lost == mv | tk,
        ;
        assert(bits & mv == 0 && bits & tk == 0) by (bit_vector)
            requires
                bits == b & !lost,
                mv & lost == mv,
                tk & lost == tk,
        ;
        if f != t {
            assert(captured == m.piece_at(t));
        }
    }
}

} // verus!
