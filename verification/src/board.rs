//! The chess board: where the pieces stand, whose turn it is, and the
//! stacks of clocks, en passant targets and castle rights that moves push
//! and undoing moves pops.
use vstd::prelude::*;

use crate::bitboard::{has_sq, lemma_has_with_bit};
use crate::piece::{Color, Piece};
use crate::square::Square;

verus! {

/// The squares of one side's pieces, one bitboard per kind.
#[derive(Clone, Copy, Debug, PartialEq, Eq, Structural)]
pub struct Pieces {
    pub pawns: u64,
    pub knights: u64,
    pub bishops: u64,
    pub rooks: u64,
    pub queens: u64,
    pub kings: u64,
}

impl Pieces {
    pub open spec fn spec_locate(self, piece: Piece) -> u64 {
        match piece {
            Piece::Pawn => self.pawns,
            Piece::Knight => self.knights,
            Piece::Bishop => self.bishops,
            Piece::Rook => self.rooks,
            Piece::Queen => self.queens,
            Piece::King => self.kings,
        }
    }

    pub open spec fn spec_occupied(self) -> u64 {
        self.pawns | self.knights | self.bishops | self.rooks | self.queens | self.kings
    }

    /// `self` with the bitboard of `piece` replaced by `b`.
    pub open spec fn spec_with(self, piece: Piece, b: u64) -> Pieces {
        match piece {
            Piece::Pawn => Pieces { pawns: b, ..self },
            Piece::Knight => Pieces { knights: b, ..self },
            Piece::Bishop => Pieces { bishops: b, ..self },
            Piece::Rook => Pieces { rooks: b, ..self },
            Piece::Queen => Pieces { queens: b, ..self },
            Piece::King => Pieces { kings: b, ..self },
        }
    }

    /// `self` with square `s` removed from every bitboard.
    pub open spec fn spec_cleared(self, s: u64) -> Pieces {
        let m = !(1u64 << s);
        Pieces {
            pawns: self.pawns & m,
            knights: self.knights & m,
            bishops: self.bishops & m,
            rooks: self.rooks & m,
            queens: self.queens & m,
            kings: self.kings & m,
        }
    }

    /// No pieces.
    pub fn empty() -> (r: Pieces)
        ensures
            r == (Pieces { pawns: 0, knights: 0, bishops: 0, rooks: 0, queens: 0, kings: 0 }),
    {
        Pieces { pawns: 0, knights: 0, bishops: 0, rooks: 0, queens: 0, kings: 0 }
    }

    /// The squares holding pieces of kind `piece`.
    pub fn locate(&self, piece: Piece) -> (r: u64)
        ensures
            r == self.spec_locate(piece),
    {
        match piece {
            Piece::Pawn => self.pawns,
            Piece::Knight => self.knights,
            Piece::Bishop => self.bishops,
            Piece::Rook => self.rooks,
            Piece::Queen => self.queens,
            Piece::King => self.kings,
        }
    }

    /// The squares holding any piece of this side.
    pub fn occupied(&self) -> (r: u64)
        ensures
            r == self.spec_occupied(),
    {
        self.pawns | self.knights | self.bishops | self.rooks | self.queens | self.kings
    }

    fn add(&mut self, piece: Piece, bit: u64)
        ensures
            *final(self) == old(self).spec_with(piece, old(self).spec_locate(piece) | bit),
    {
        match piece {
            Piece::Pawn => self.pawns = self.pawns | bit,
            Piece::Knight => self.knights = self.knights | bit,
            Piece::Bishop => self.bishops = self.bishops | bit,
            Piece::Rook => self.rooks = self.rooks | bit,
            Piece::Queen => self.queens = self.queens | bit,
            Piece::King => self.kings = self.kings | bit,
        }
    }

    fn clear(&mut self, s: u8)
        requires
            s < 64,
        ensures
            *final(self) == old(self).spec_cleared(s as u64),
    {
        let m = !(1u64 << s);
        self.pawns = self.pawns & m;
        self.knights = self.knights & m;
        self.bishops = self.bishops & m;
        self.rooks = self.rooks & m;
        self.queens = self.queens & m;
        self.kings = self.kings & m;
    }
}

/// A set of castle rights: bit 0 white kingside, bit 1 white queenside,
/// bit 2 black kingside, bit 3 black queenside.
#[derive(Clone, Copy, Debug, PartialEq, Eq, Structural)]
pub struct CastleRights {
    pub bits: u8,
}

impl CastleRights {
    pub fn none() -> (r: CastleRights)
        ensures
            r.bits == 0,
    {
        CastleRights { bits: 0 }
    }

    pub fn all() -> (r: CastleRights)
        ensures
            r.bits == 15,
    {
        CastleRights { bits: 15 }
    }

    pub fn white_kingside() -> (r: CastleRights)
        ensures
            r.bits == 1,
    {
        CastleRights { bits: 1 }
    }

    pub fn white_queenside() -> (r: CastleRights)
        ensures
            r.bits == 2,
    {
        CastleRights { bits: 2 }
    }

    pub fn black_kingside() -> (r: CastleRights)
        ensures
            r.bits == 4,
    {
        CastleRights { bits: 4 }
    }

    pub fn black_queenside() -> (r: CastleRights)
        ensures
            r.bits == 8,
    {
        CastleRights { bits: 8 }
    }

    /// The rights in `self` or in `other`.
    pub fn union(self, other: CastleRights) -> (r: CastleRights)
        ensures
            r.bits == self.bits | other.bits,
    {
        CastleRights { bits: self.bits | other.bits }
    }

    /// The rights in both `self` and `other`.
    pub fn intersection(self, other: CastleRights) -> (r: CastleRights)
        ensures
            r.bits == self.bits & other.bits,
    {
        CastleRights { bits: self.bits & other.bits }
    }

    /// The rights in `self` but not in `other`.
    pub fn without(self, other: CastleRights) -> (r: CastleRights)
        ensures
            r.bits == self.bits & !other.bits,
    {
        CastleRights { bits: self.bits & !other.bits }
    }

    pub fn is_empty(&self) -> (r: bool)
        ensures
            r == (self.bits == 0),
    {
        self.bits == 0
    }
}

/// Why a board operation or a move failed.
#[derive(Clone, Copy, Debug, PartialEq, Eq, Structural)]
pub enum BoardError {
    SquareOccupiedBoardPutError,
    FromSquareIsEmptyMoveApplicationError,
    ToSquareIsEmptyMoveUndoError,
    UnexpectedCaptureResultError,
    PawnNotPromotableError,
    PromotionNonPawnError,
    InvalidCastleMoveError,
    InvalidCastleStateError,
    EnPassantNonPawnMoveApplicationError,
    EnPassantDidNotResultInCaptureError,
    EnPassantNonPawnMoveUndoError,
}

/// The mathematical content of a board.
#[verifier::ext_equal]
pub struct BoardModel {
    pub white: Pieces,
    pub black: Pieces,
    pub turn: Color,
    /// Halfmove clocks, the current one last.
    pub halfmove_clocks: Seq<u32>,
    pub fullmove_clock: u32,
    /// En passant targets, the current one last.
    pub en_passant_targets: Seq<Option<Square>>,
    /// Castle rights, the current ones last.
    pub castle_rights: Seq<CastleRights>,
}

/// The kind of the `k`-th of the twelve bitboards (white's six, then black's).
pub open spec fn piece_of_slot(k: int) -> Piece {
    let i = k % 6;
    if i == 0 {
        Piece::Pawn
    } else if i == 1 {
        Piece::Knight
    } else if i == 2 {
        Piece::Bishop
    } else if i == 3 {
        Piece::Rook
    } else if i == 4 {
        Piece::Queen
    } else {
        Piece::King
    }
}

impl BoardModel {
    pub open spec fn pieces(self, color: Color) -> Pieces {
        match color {
            Color::White => self.white,
            Color::Black => self.black,
        }
    }

    pub open spec fn with_pieces(self, color: Color, pieces: Pieces) -> BoardModel {
        match color {
            Color::White => BoardModel { white: pieces, ..self },
            Color::Black => BoardModel { black: pieces, ..self },
        }
    }

    /// The `k`-th of the twelve bitboards: white pawns .. kings, black pawns .. kings.
    pub open spec fn slot(self, k: int) -> u64 {
        if k < 6 {
            self.white.spec_locate(piece_of_slot(k))
        } else {
            self.black.spec_locate(piece_of_slot(k))
        }
    }

    /// The squares of all pieces.
    pub open spec fn occupied(self) -> u64 {
        self.white.spec_occupied() | self.black.spec_occupied()
    }

    /// No square holds two pieces, and every stack has a current entry.
    pub open spec fn wf(self) -> bool {
        &&& forall|k1: int, k2: int|
            0 <= k1 < 12 && 0 <= k2 < 12 && k1 != k2 ==> #[trigger] self.slot(k1) & #[trigger] self.slot(k2) == 0
        &&& self.halfmove_clocks.len() >= 1
        &&& self.en_passant_targets.len() >= 1
        &&& self.castle_rights.len() >= 1
    }

    /// The piece standing on the square of index `s`, if any.
    pub open spec fn piece_at(self, s: int) -> Option<(Piece, Color)> {
        if has_sq(self.white.pawns, s) {
            Some((Piece::Pawn, Color::White))
        } else if has_sq(self.white.knights, s) {
            Some((Piece::Knight, Color::White))
        } else if has_sq(self.white.bishops, s) {
            Some((Piece::Bishop, Color::White))
        } else if has_sq(self.white.rooks, s) {
            Some((Piece::Rook, Color::White))
        } else if has_sq(self.white.queens, s) {
            Some((Piece::Queen, Color::White))
        } else if has_sq(self.white.kings, s) {
            Some((Piece::King, Color::White))
        } else if has_sq(self.black.pawns, s) {
            Some((Piece::Pawn, Color::Black))
        } else if has_sq(self.black.knights, s) {
            Some((Piece::Knight, Color::Black))
        } else if has_sq(self.black.bishops, s) {
            Some((Piece::Bishop, Color::Black))
        } else if has_sq(self.black.rooks, s) {
            Some((Piece::Rook, Color::Black))
        } else if has_sq(self.black.queens, s) {
            Some((Piece::Queen, Color::Black))
        } else if has_sq(self.black.kings, s) {
            Some((Piece::King, Color::Black))
        } else {
            None
        }
    }

    /// `self` with the square of index `s` emptied.
    pub open spec fn cleared(self, s: int) -> BoardModel {
        BoardModel {
            white: self.white.spec_cleared(s as u64),
            black: self.black.spec_cleared(s as u64),
            ..self
        }
    }

    /// `self` with a `piece` of `color` added on the square of index `s`.
    pub open spec fn placed(self, s: int, piece: Piece, color: Color) -> BoardModel {
        let ps = self.pieces(color);
        self.with_pieces(color, ps.spec_with(piece, ps.spec_locate(piece) | (1u64 << (s as u64))))
    }

    /// The current halfmove clock.
    pub open spec fn halfmove_clock(self) -> u32 {
        self.halfmove_clocks.last()
    }

    /// The current castle rights.
    pub open spec fn current_castle_rights(self) -> CastleRights {
        self.castle_rights.last()
    }

    /// The current en passant target.
    pub open spec fn en_passant_target(self) -> Option<Square> {
        self.en_passant_targets.last()
    }
}

/// The pieces after removing whatever stood on `s` and then putting a piece there:
/// facts about squares other than `s` carry over.
pub proof fn lemma_pieces_cleared(p: Pieces, s: u64, t: int)
    requires
        s < 64,
        0 <= t < 64,
    ensures
        has_sq(p.spec_cleared(s).pawns, t) == (has_sq(p.pawns, t) && t != s),
        has_sq(p.spec_cleared(s).knights, t) == (has_sq(p.knights, t) && t != s),
        has_sq(p.spec_cleared(s).bishops, t) == (has_sq(p.bishops, t) && t != s),
        has_sq(p.spec_cleared(s).rooks, t) == (has_sq(p.rooks, t) && t != s),
        has_sq(p.spec_cleared(s).queens, t) == (has_sq(p.queens, t) && t != s),
        has_sq(p.spec_cleared(s).kings, t) == (has_sq(p.kings, t) && t != s),
{
    lemma_has_with_bit(p.pawns, s, t);
    lemma_has_with_bit(p.knights, s, t);
    lemma_has_with_bit(p.bishops, s, t);
    lemma_has_with_bit(p.rooks, s, t);
    lemma_has_with_bit(p.queens, s, t);
    lemma_has_with_bit(p.kings, s, t);
}

pub proof fn lemma_slot_and_symmetric(a: u64, b: u64)
    ensures
        a & b == b & a,
{
    assert(a & b == b & a) by (bit_vector);
}

/// What stands on a square depends only on the pieces.
pub proof fn lemma_piece_at_same_pieces(a: BoardModel, b: BoardModel, s: int)
    requires
        a.white == b.white,
        a.black == b.black,
    ensures
        a.piece_at(s) == b.piece_at(s),
{
}

/// Well-formedness depends only on the pieces and on the stacks being non-empty.
pub proof fn lemma_wf_same_pieces(a: BoardModel, b: BoardModel)
    requires
        a.wf(),
        a.white == b.white,
        a.black == b.black,
        b.halfmove_clocks.len() >= 1,
        b.en_passant_targets.len() >= 1,
        b.castle_rights.len() >= 1,
    ensures
        b.wf(),
{
    assert forall|k1: int, k2: int|
        0 <= k1 < 12 && 0 <= k2 < 12 && k1 != k2 implies #[trigger] b.slot(k1) & #[trigger] b.slot(k2) == 0 by {
        assert(a.slot(k1) == b.slot(k1));
        assert(a.slot(k2) == b.slot(k2));
    }
}

/// A counter advanced by one, wrapping around at the top.
pub open spec fn next_count(x: u32) -> u32 {
    if x == 0xFFFF_FFFF {
        0
    } else {
        (x + 1) as u32
    }
}

/// A counter moved back by one, wrapping around at zero.
pub open spec fn prev_count(x: u32) -> u32 {
    if x == 0 {
        0xFFFF_FFFF
    } else {
        (x - 1) as u32
    }
}

/// The position of the bitboard of `piece` of `color` among the twelve.
pub open spec fn slot_index(piece: Piece, color: Color) -> int {
    (match color {
        Color::White => 0int,
        Color::Black => 6int,
    }) + crate::piece::spec_piece_index(piece) as int
}

pub proof fn lemma_slot_of_placed(m: BoardModel, s: int, piece: Piece, color: Color, k: int)
    requires
        0 <= k < 12,
    ensures
        m.placed(s, piece, color).slot(k) == if k == slot_index(piece, color) {
            m.slot(k) | (1u64 << (s as u64))
        } else {
            m.slot(k)
        },
{
}

pub proof fn lemma_slot_of_cleared(m: BoardModel, s: int, k: int)
    requires
        0 <= k < 12,
    ensures
        m.cleared(s).slot(k) == m.slot(k) & !(1u64 << (s as u64)),
{
}

/// Each of the twelve bitboards holds the square iff `piece_at` names its slot.
pub proof fn lemma_piece_at_slot(m: BoardModel, s: int, k: int)
    requires
        m.wf(),
        0 <= s < 64,
        0 <= k < 12,
    ensures
        has_sq(m.slot(k), s) <==> m.piece_at(s) == Some((
            piece_of_slot(k),
            if k < 6 { Color::White } else { Color::Black },
        )),
{
    assert forall|k2: int| 0 <= k2 < 12 && k2 != k implies !(has_sq(m.slot(k), s) && has_sq(m.slot(k2), s)) by {
        assert(m.slot(k) & m.slot(k2) == 0);
        crate::bitboard::lemma_has_ops(m.slot(k), m.slot(k2), s);
    }
    assert(m.slot(0) == m.white.pawns);
    assert(m.slot(1) == m.white.knights);
    assert(m.slot(2) == m.white.bishops);
    assert(m.slot(3) == m.white.rooks);
    assert(m.slot(4) == m.white.queens);
    assert(m.slot(5) == m.white.kings);
    assert(m.slot(6) == m.black.pawns);
    assert(m.slot(7) == m.black.knights);
    assert(m.slot(8) == m.black.bishops);
    assert(m.slot(9) == m.black.rooks);
    assert(m.slot(10) == m.black.queens);
    assert(m.slot(11) == m.black.kings);
}

/// A square is empty iff none of the twelve bitboards holds it.
pub proof fn lemma_piece_at_none(m: BoardModel, s: int)
    ensures
        m.piece_at(s) is None <==> forall|k: int| 0 <= k < 12 ==> !has_sq(#[trigger] m.slot(k), s),
{
    assert(m.slot(0) == m.white.pawns);
    assert(m.slot(1) == m.white.knights);
    assert(m.slot(2) == m.white.bishops);
    assert(m.slot(3) == m.white.rooks);
    assert(m.slot(4) == m.white.queens);
    assert(m.slot(5) == m.white.kings);
    assert(m.slot(6) == m.black.pawns);
    assert(m.slot(7) == m.black.knights);
    assert(m.slot(8) == m.black.bishops);
    assert(m.slot(9) == m.black.rooks);
    assert(m.slot(10) == m.black.queens);
    assert(m.slot(11) == m.black.kings);
}

/// Putting a piece on an empty square keeps the board well formed and changes
/// only that square.
pub proof fn lemma_placed(m: BoardModel, s: int, piece: Piece, color: Color)
    requires
        m.wf(),
        0 <= s < 64,
        m.piece_at(s) is None,
    ensures
        m.placed(s, piece, color).wf(),
        forall|t: int| 0 <= t < 64 ==> #[trigger] m.placed(s, piece, color).piece_at(t) == if t == s {
            Some((piece, color))
        } else {
            m.piece_at(t)
        },
{
    let n = m.placed(s, piece, color);
    let ss = s as u64;
    let bit = 1u64 << ss;
    lemma_piece_at_none(m, s);
    assert forall|k1: int, k2: int|
        0 <= k1 < 12 && 0 <= k2 < 12 && k1 != k2 implies #[trigger] n.slot(k1) & #[trigger] n.slot(k2) == 0 by {
        lemma_slot_of_placed(m, s, piece, color, k1);
        lemma_slot_of_placed(m, s, piece, color, k2);
        let a = m.slot(k1);
        let b = m.slot(k2);
        assert(!has_sq(a, s) && !has_sq(b, s));
        assert(a & b == 0);
        assert((a | bit) & b == 0 && a & (b | bit) == 0) by (bit_vector)
            requires
                a & b == 0,
                (a >> ss) & 1u64 != 1u64,
                (b >> ss) & 1u64 != 1u64,
                bit == 1u64 << ss,
                ss < 64,
        ;
    }
    assert forall|t: int| 0 <= t < 64 implies #[trigger] n.piece_at(t) == if t == s {
        Some((piece, color))
    } else {
        m.piece_at(t)
    } by {
        lemma_has_with_bit(m.pieces(color).spec_locate(piece), ss, t);
    }
}

/// Emptying a square keeps the board well formed and changes only that square.
pub proof fn lemma_cleared(m: BoardModel, s: int)
    requires
        m.wf(),
        0 <= s < 64,
    ensures
        m.cleared(s).wf(),
        forall|t: int| 0 <= t < 64 ==> #[trigger] m.cleared(s).piece_at(t) == if t == s {
            None
        } else {
            m.piece_at(t)
        },
{
    let n = m.cleared(s);
    let ss = s as u64;
    assert forall|k1: int, k2: int|
        0 <= k1 < 12 && 0 <= k2 < 12 && k1 != k2 implies #[trigger] n.slot(k1) & #[trigger] n.slot(k2) == 0 by {
        lemma_slot_of_cleared(m, s, k1);
        lemma_slot_of_cleared(m, s, k2);
        let a = m.slot(k1);
        let b = m.slot(k2);
        assert(a & b == 0);
        assert((a & !(1u64 << ss)) & (b & !(1u64 << ss)) == 0) by (bit_vector)
            requires
                a & b == 0,
        ;
    }
    assert forall|t: int| 0 <= t < 64 implies #[trigger] n.piece_at(t) == if t == s {
        None
    } else {
        m.piece_at(t)
    } by {
        lemma_pieces_cleared(m.white, ss, t);
        lemma_pieces_cleared(m.black, ss, t);
    }
}

/// Whether `a` and `b` agree on square `t` in every bitboard.
pub open spec fn same_squares(a: Pieces, b: Pieces, t: int) -> bool {
    &&& has_sq(a.pawns, t) == has_sq(b.pawns, t)
    &&& has_sq(a.knights, t) == has_sq(b.knights, t)
    &&& has_sq(a.bishops, t) == has_sq(b.bishops, t)
    &&& has_sq(a.rooks, t) == has_sq(b.rooks, t)
    &&& has_sq(a.queens, t) == has_sq(b.queens, t)
    &&& has_sq(a.kings, t) == has_sq(b.kings, t)
}

/// Two sides' pieces with the same squares in every bitboard are equal.
pub proof fn lemma_pieces_ext(a: Pieces, b: Pieces)
    requires
        forall|t: int| 0 <= t < 64 ==> #[trigger] same_squares(a, b, t),
    ensures
        a == b,
{
    assert forall|t: int| 0 <= t < 64 implies #[trigger] has_sq(a.pawns, t) == has_sq(b.pawns, t) by {
        assert(same_squares(a, b, t));
    }
    assert forall|t: int| 0 <= t < 64 implies #[trigger] has_sq(a.knights, t) == has_sq(b.knights, t) by {
        assert(same_squares(a, b, t));
    }
    assert forall|t: int| 0 <= t < 64 implies #[trigger] has_sq(a.bishops, t) == has_sq(b.bishops, t) by {
        assert(same_squares(a, b, t));
    }
    assert forall|t: int| 0 <= t < 64 implies #[trigger] has_sq(a.rooks, t) == has_sq(b.rooks, t) by {
        assert(same_squares(a, b, t));
    }
    assert forall|t: int| 0 <= t < 64 implies #[trigger] has_sq(a.queens, t) == has_sq(b.queens, t) by {
        assert(same_squares(a, b, t));
    }
    assert forall|t: int| 0 <= t < 64 implies #[trigger] has_sq(a.kings, t) == has_sq(b.kings, t) by {
        assert(same_squares(a, b, t));
    }
    crate::bitboard::lemma_bitboard_ext(a.pawns, b.pawns);
    crate::bitboard::lemma_bitboard_ext(a.knights, b.knights);
    crate::bitboard::lemma_bitboard_ext(a.bishops, b.bishops);
    crate::bitboard::lemma_bitboard_ext(a.rooks, b.rooks);
    crate::bitboard::lemma_bitboard_ext(a.queens, b.queens);
    crate::bitboard::lemma_bitboard_ext(a.kings, b.kings);
}

/// Membership in the bitboards after putting a piece on square `s`.
pub proof fn lemma_pieces_placed(p: Pieces, piece: Piece, s: u64, t: int)
    requires
        s < 64,
        0 <= t < 64,
    ensures
        ({
            let q = p.spec_with(piece, p.spec_locate(piece) | (1u64 << s));
            &&& has_sq(q.pawns, t) == (has_sq(p.pawns, t) || (piece == Piece::Pawn && t == s))
            &&& has_sq(q.knights, t) == (has_sq(p.knights, t) || (piece == Piece::Knight && t == s))
            &&& has_sq(q.bishops, t) == (has_sq(p.bishops, t) || (piece == Piece::Bishop && t == s))
            &&& has_sq(q.rooks, t) == (has_sq(p.rooks, t) || (piece == Piece::Rook && t == s))
            &&& has_sq(q.queens, t) == (has_sq(p.queens, t) || (piece == Piece::Queen && t == s))
            &&& has_sq(q.kings, t) == (has_sq(p.kings, t) || (piece == Piece::King && t == s))
        }),
{
    lemma_has_with_bit(p.spec_locate(piece), s, t);
}

/// Emptying an empty square changes nothing.
pub proof fn lemma_cleared_empty(m: BoardModel, s: int)
    requires
        0 <= s < 64,
        m.piece_at(s) is None,
    ensures
        m.cleared(s) == m,
{
    let ss = s as u64;
    assert forall|t: int| 0 <= t < 64 implies #[trigger] same_squares(m.cleared(s).white, m.white, t) by {
        lemma_pieces_cleared(m.white, ss, t);
        lemma_pieces_cleared(m.black, ss, t);
    }
    assert forall|t: int| 0 <= t < 64 implies #[trigger] same_squares(m.cleared(s).black, m.black, t) by {
        lemma_pieces_cleared(m.white, ss, t);
        lemma_pieces_cleared(m.black, ss, t);
    }
    lemma_pieces_ext(m.cleared(s).white, m.white);
    lemma_pieces_ext(m.cleared(s).black, m.black);
    assert(m.cleared(s) =~= m);
}

/// Putting a piece on an empty square and emptying it again changes nothing.
pub proof fn lemma_cleared_placed(m: BoardModel, s: int, piece: Piece, color: Color)
    requires
        0 <= s < 64,
        m.piece_at(s) is None,
    ensures
        m.placed(s, piece, color).cleared(s) == m,
{
    let ss = s as u64;
    let n = m.placed(s, piece, color);
    assert forall|t: int| 0 <= t < 64 implies #[trigger] same_squares(n.cleared(s).white, m.white, t) by {
        lemma_pieces_placed(m.pieces(color), piece, ss, t);
        lemma_pieces_cleared(n.white, ss, t);
        lemma_pieces_cleared(n.black, ss, t);
    }
    assert forall|t: int| 0 <= t < 64 implies #[trigger] same_squares(n.cleared(s).black, m.black, t) by {
        lemma_pieces_placed(m.pieces(color), piece, ss, t);
        lemma_pieces_cleared(n.white, ss, t);
        lemma_pieces_cleared(n.black, ss, t);
    }
    lemma_pieces_ext(n.cleared(s).white, m.white);
    lemma_pieces_ext(n.cleared(s).black, m.black);
    assert(n.cleared(s) =~= m);
}

/// Emptying a square and putting back the piece that stood there changes nothing.
pub proof fn lemma_placed_cleared(m: BoardModel, s: int, piece: Piece, color: Color)
    requires
        m.wf(),
        0 <= s < 64,
        m.piece_at(s) == Some((piece, color)),
    ensures
        m.cleared(s).placed(s, piece, color) == m,
{
    let ss = s as u64;
    let n = m.cleared(s).placed(s, piece, color);
    assert forall|k: int| 0 <= k < 12 implies #[trigger] has_sq(m.slot(k), s) == (k == slot_index(piece, color)) by {
        lemma_piece_at_slot(m, s, k);
    }
    assert(m.slot(0) == m.white.pawns);
    assert(m.slot(1) == m.white.knights);
    assert(m.slot(2) == m.white.bishops);
    assert(m.slot(3) == m.white.rooks);
    assert(m.slot(4) == m.white.queens);
    assert(m.slot(5) == m.white.kings);
    assert(m.slot(6) == m.black.pawns);
    assert(m.slot(7) == m.black.knights);
    assert(m.slot(8) == m.black.bishops);
    assert(m.slot(9) == m.black.rooks);
    assert(m.slot(10) == m.black.queens);
    assert(m.slot(11) == m.black.kings);
    assert forall|t: int| 0 <= t < 64 implies #[trigger] same_squares(n.white, m.white, t) by {
        lemma_pieces_cleared(m.white, ss, t);
        lemma_pieces_cleared(m.black, ss, t);
        lemma_pieces_placed(m.cleared(s).pieces(color), piece, ss, t);
    }
    assert forall|t: int| 0 <= t < 64 implies #[trigger] same_squares(n.black, m.black, t) by {
        lemma_pieces_cleared(m.white, ss, t);
        lemma_pieces_cleared(m.black, ss, t);
        lemma_pieces_placed(m.cleared(s).pieces(color), piece, ss, t);
    }
    lemma_pieces_ext(n.white, m.white);
    lemma_pieces_ext(n.black, m.black);
    assert(n =~= m);
}


/// Two well-formed boards with the same piece on every square have the same pieces.
pub proof fn lemma_piece_at_ext(a: BoardModel, b: BoardModel)
    requires
        a.wf(),
        b.wf(),
        forall|s: int| 0 <= s < 64 ==> #[trigger] a.piece_at(s) == b.piece_at(s),
    ensures
        a.white == b.white,
        a.black == b.black,
{
    assert forall|k: int, s: int| 0 <= k < 12 && 0 <= s < 64 implies #[trigger] has_sq(a.slot(k), s) == has_sq(
        b.slot(k),
        s,
    ) by {
        lemma_piece_at_slot(a, s, k);
        lemma_piece_at_slot(b, s, k);
        assert(a.piece_at(s) == b.piece_at(s));
    }
    assert forall|k: int| 0 <= k < 12 implies #[trigger] a.slot(k) == b.slot(k) by {
        assert forall|s: int| 0 <= s < 64 implies #[trigger] has_sq(a.slot(k), s) == has_sq(b.slot(k), s) by {}
        crate::bitboard::lemma_bitboard_ext(a.slot(k), b.slot(k));
    }
    assert(a.slot(0) == b.slot(0));
    assert(a.slot(1) == b.slot(1));
    assert(a.slot(2) == b.slot(2));
    assert(a.slot(3) == b.slot(3));
    assert(a.slot(4) == b.slot(4));
    assert(a.slot(5) == b.slot(5));
    assert(a.slot(6) == b.slot(6));
    assert(a.slot(7) == b.slot(7));
    assert(a.slot(8) == b.slot(8));
    assert(a.slot(9) == b.slot(9));
    assert(a.slot(10) == b.slot(10));
    assert(a.slot(11) == b.slot(11));
}

/// The standard starting position: White to move, every castle right, clocks
/// at zero, no en passant target.
pub open spec fn starting_model() -> BoardModel {
    BoardModel {
        white: Pieces { pawns: 0xFF00, knights: 0x42, bishops: 0x24, rooks: 0x81, queens: 0x08, kings: 0x10 },
        black: Pieces {
            pawns: 0x00FF_0000_0000_0000,
            knights: 0x4200_0000_0000_0000,
            bishops: 0x2400_0000_0000_0000,
            rooks: 0x8100_0000_0000_0000,
            queens: 0x0800_0000_0000_0000,
            kings: 0x1000_0000_0000_0000,
        },
        turn: Color::White,
        halfmove_clocks: seq![0u32],
        fullmove_clock: 0,
        en_passant_targets: seq![None::<Square>],
        castle_rights: seq![CastleRights { bits: 15 }],
    }
}

/// A chess board.
pub struct Board {
    white: Pieces,
    black: Pieces,
    turn: Color,
    halfmove_clocks: Vec<u32>,
    fullmove_clock: u32,
    en_passant_targets: Vec<Option<Square>>,
    castle_rights: Vec<CastleRights>,
}

impl Clone for Board {
    /// A copy of the board, with the same pieces, turn, clocks and stacks.
    fn clone(&self) -> (r: Self)
        ensures
            r@ == self@,
    {
        let halfmove_clocks = self.halfmove_clocks.clone();
        let en_passant_targets = self.en_passant_targets.clone();
        let castle_rights = self.castle_rights.clone();
        proof {
            assert(halfmove_clocks@ =~= self.halfmove_clocks@);
            assert(en_passant_targets@ =~= self.en_passant_targets@);
            assert(castle_rights@ =~= self.castle_rights@);
        }
        Board {
            white: self.white,
            black: self.black,
            turn: self.turn,
            halfmove_clocks,
            fullmove_clock: self.fullmove_clock,
            en_passant_targets,
            castle_rights,
        }
    }
}

impl View for Board {
    type V = BoardModel;

    closed spec fn view(&self) -> BoardModel {
        BoardModel {
            white: self.white,
            black: self.black,
            turn: self.turn,
            halfmove_clocks: self.halfmove_clocks@,
            fullmove_clock: self.fullmove_clock,
            en_passant_targets: self.en_passant_targets@,
            castle_rights: self.castle_rights@,
        }
    }
}

impl Board {
    /// A board without pieces: White to move, every castle right, clocks at zero.
    pub fn empty() -> (r: Board)
        ensures
            r@.wf(),
            forall|t: int| #[trigger] r@.piece_at(t) is None,
            r@.white == (Pieces { pawns: 0, knights: 0, bishops: 0, rooks: 0, queens: 0, kings: 0 }),
            r@.black == (Pieces { pawns: 0, knights: 0, bishops: 0, rooks: 0, queens: 0, kings: 0 }),
            r@.turn == Color::White,
            r@.halfmove_clocks == seq![0u32],
            r@.fullmove_clock == 0,
            r@.en_passant_targets == seq![None::<Square>],
            r@.castle_rights == seq![CastleRights { bits: 15 }],
    {
        let mut halfmove_clocks = Vec::new();
        halfmove_clocks.push(0u32);
        let mut en_passant_targets = Vec::new();
        en_passant_targets.push(None);
        let mut castle_rights = Vec::new();
        castle_rights.push(CastleRights::all());
        let r = Board {
            white: Pieces::empty(),
            black: Pieces::empty(),
            turn: Color::White,
            halfmove_clocks,
            fullmove_clock: 0,
            en_passant_targets,
            castle_rights,
        };
        assert(r@.halfmove_clocks =~= seq![0u32]);
        assert(r@.en_passant_targets =~= seq![None::<Square>]);
        assert(r@.castle_rights =~= seq![CastleRights { bits: 15 }]);
        assert forall|t: int| #[trigger] r@.piece_at(t) is None by {
            if 0 <= t < 64 {
                crate::bitboard::lemma_has_ops(0, 0, t);
            }
        }
        assert forall|k1: int, k2: int|
            0 <= k1 < 12 && 0 <= k2 < 12 && k1 != k2 implies #[trigger] r@.slot(k1) & #[trigger] r@.slot(k2) == 0 by {
            assert(r@.slot(k1) == 0);
            assert(0u64 & 0u64 == 0) by (bit_vector);
        }
        r
    }

    /// The pieces of `color`.
    pub fn pieces(&self, color: Color) -> (r: Pieces)
        ensures
            r == self@.pieces(color),
    {
        match color {
            Color::White => self.white,
            Color::Black => self.black,
        }
    }

    /// The squares holding any piece.
    pub fn occupied(&self) -> (r: u64)
        ensures
            r == self@.occupied(),
    {
        self.white.occupied() | self.black.occupied()
    }

    /// The piece on `square`, if any.
    pub fn get(&self, square: Square) -> (r: Option<(Piece, Color)>)
        ensures
            r == self@.piece_at(square.spec_index() as int),
    {
        let s = square.index();
        if (self.white.pawns >> s) & 1 == 1 {
            Some((Piece::Pawn, Color::White))
        } else if (self.white.knights >> s) & 1 == 1 {
            Some((Piece::Knight, Color::White))
        } else if (self.white.bishops >> s) & 1 == 1 {
            Some((Piece::Bishop, Color::White))
        } else if (self.white.rooks >> s) & 1 == 1 {
            Some((Piece::Rook, Color::White))
        } else if (self.white.queens >> s) & 1 == 1 {
            Some((Piece::Queen, Color::White))
        } else if (self.white.kings >> s) & 1 == 1 {
            Some((Piece::King, Color::White))
        } else if (self.black.pawns >> s) & 1 == 1 {
            Some((Piece::Pawn, Color::Black))
        } else if (self.black.knights >> s) & 1 == 1 {
            Some((Piece::Knight, Color::Black))
        } else if (self.black.bishops >> s) & 1 == 1 {
            Some((Piece::Bishop, Color::Black))
        } else if (self.black.rooks >> s) & 1 == 1 {
            Some((Piece::Rook, Color::Black))
        } else if (self.black.queens >> s) & 1 == 1 {
            Some((Piece::Queen, Color::Black))
        } else if (self.black.kings >> s) & 1 == 1 {
            Some((Piece::King, Color::Black))
        } else {
            None
        }
    }

    /// Puts a `piece` of `color` on `square`; fails, changing nothing, if the
    /// square is occupied.
    pub fn put(&mut self, square: Square, piece: Piece, color: Color) -> (r: Result<(), BoardError>)
        requires
            old(self)@.wf(),
        ensures
            final(self)@.wf(),
            old(self)@.piece_at(square.spec_index() as int) is Some ==> r == Err::<(), BoardError>(
                BoardError::SquareOccupiedBoardPutError,
            ) && final(self)@ == old(self)@,
            old(self)@.piece_at(square.spec_index() as int) is None ==> r == Ok::<(), BoardError>(()) && final(self)@
                == old(self)@.placed(square.spec_index() as int, piece, color),
    {
        if self.get(square).is_some() {
            return Err(BoardError::SquareOccupiedBoardPutError);
        }
        let s = square.index();
        proof { lemma_placed(self@, s as int, piece, color); }
        let bit = 1u64 << s;
        match color {
            Color::White => self.white.add(piece, bit),
            Color::Black => self.black.add(piece, bit),
        }
        Ok(())
    }

    /// Removes and returns the piece on `square`, if any.
    pub fn remove(&mut self, square: Square) -> (r: Option<(Piece, Color)>)
        requires
            old(self)@.wf(),
        ensures
            final(self)@.wf(),
            r == old(self)@.piece_at(square.spec_index() as int),
            final(self)@ == old(self)@.cleared(square.spec_index() as int),
    {
        let r = self.get(square);
        let s = square.index();
        proof { lemma_cleared(self@, s as int); }
        self.white.clear(s);
        self.black.clear(s);
        r
    }

    /// The standard starting position: White to move, every castle right,
    /// clocks at zero, no en passant target.
    pub fn starting_position() -> (r: Board)
        ensures
            r@.wf(),
            r@ == starting_model(),
    {
        let mut board = Board::empty();
        board.white = Pieces { pawns: 0xFF00, knights: 0x42, bishops: 0x24, rooks: 0x81, queens: 0x08, kings: 0x10 };
        board.black = Pieces {
            pawns: 0x00FF_0000_0000_0000,
            knights: 0x4200_0000_0000_0000,
            bishops: 0x2400_0000_0000_0000,
            rooks: 0x8100_0000_0000_0000,
            queens: 0x0800_0000_0000_0000,
            kings: 0x1000_0000_0000_0000,
        };
        proof {
            assert(0xFF00u64 & 0x42u64 == 0 &&
            0xFF00u64 & 0x24u64 == 0 &&
            0xFF00u64 & 0x81u64 == 0 &&
            0xFF00u64 & 0x8u64 == 0 &&
            0xFF00u64 & 0x10u64 == 0 &&
            0xFF00u64 & 0xFF000000000000u64 == 0 &&
            0xFF00u64 & 0x4200000000000000u64 == 0 &&
            0xFF00u64 & 0x2400000000000000u64 == 0 &&
            0xFF00u64 & 0x8100000000000000u64 == 0 &&
            0xFF00u64 & 0x800000000000000u64 == 0 &&
            0xFF00u64 & 0x1000000000000000u64 == 0 &&
            0x42u64 & 0x24u64 == 0 &&
            0x42u64 & 0x81u64 == 0 &&
            0x42u64 & 0x8u64 == 0 &&
            0x42u64 & 0x10u64 == 0 &&
            0x42u64 & 0xFF000000000000u64 == 0 &&
            0x42u64 & 0x4200000000000000u64 == 0 &&
            0x42u64 & 0x2400000000000000u64 == 0 &&
            0x42u64 & 0x8100000000000000u64 == 0 &&
            0x42u64 & 0x800000000000000u64 == 0 &&
            0x42u64 & 0x1000000000000000u64 == 0 &&
            0x24u64 & 0x81u64 == 0 &&
            0x24u64 & 0x8u64 == 0 &&
            0x24u64 & 0x10u64 == 0 &&
            0x24u64 & 0xFF000000000000u64 == 0 &&
            0x24u64 & 0x4200000000000000u64 == 0 &&
            0x24u64 & 0x2400000000000000u64 == 0 &&
            0x24u64 & 0x8100000000000000u64 == 0 &&
            0x24u64 & 0x800000000000000u64 == 0 &&
            0x24u64 & 0x1000000000000000u64 == 0 &&
            0x81u64 & 0x8u64 == 0 &&
            0x81u64 & 0x10u64 == 0 &&
            0x81u64 & 0xFF000000000000u64 == 0 &&
            0x81u64 & 0x4200000000000000u64 == 0 &&
            0x81u64 & 0x2400000000000000u64 == 0 &&
            0x81u64 & 0x8100000000000000u64 == 0 &&
            0x81u64 & 0x800000000000000u64 == 0 &&
            0x81u64 & 0x1000000000000000u64 == 0 &&
            0x8u64 & 0x10u64 == 0 &&
            0x8u64 & 0xFF000000000000u64 == 0 &&
            0x8u64 & 0x4200000000000000u64 == 0 &&
            0x8u64 & 0x2400000000000000u64 == 0 &&
            0x8u64 & 0x8100000000000000u64 == 0 &&
            0x8u64 & 0x800000000000000u64 == 0 &&
            0x8u64 & 0x1000000000000000u64 == 0 &&
            0x10u64 & 0xFF000000000000u64 == 0 &&
            0x10u64 & 0x4200000000000000u64 == 0 &&
            0x10u64 & 0x2400000000000000u64 == 0 &&
            0x10u64 & 0x8100000000000000u64 == 0 &&
            0x10u64 & 0x800000000000000u64 == 0 &&
            0x10u64 & 0x1000000000000000u64 == 0 &&
            0xFF000000000000u64 & 0x4200000000000000u64 == 0 &&
            0xFF000000000000u64 & 0x2400000000000000u64 == 0 &&
            0xFF000000000000u64 & 0x8100000000000000u64 == 0 &&
            0xFF000000000000u64 & 0x800000000000000u64 == 0 &&
            0xFF000000000000u64 & 0x1000000000000000u64 == 0 &&
            0x4200000000000000u64 & 0x2400000000000000u64 == 0 &&
            0x4200000000000000u64 & 0x8100000000000000u64 == 0 &&
            0x4200000000000000u64 & 0x800000000000000u64 == 0 &&
            0x4200000000000000u64 & 0x1000000000000000u64 == 0 &&
            0x2400000000000000u64 & 0x8100000000000000u64 == 0 &&
            0x2400000000000000u64 & 0x800000000000000u64 == 0 &&
            0x2400000000000000u64 & 0x1000000000000000u64 == 0 &&
            0x8100000000000000u64 & 0x800000000000000u64 == 0 &&
            0x8100000000000000u64 & 0x1000000000000000u64 == 0 &&
            0x800000000000000u64 & 0x1000000000000000u64 == 0) by (bit_vector);
            assert(board@ =~= starting_model());
            let m = board@;
            assert forall|k1: int, k2: int|
                0 <= k1 < 12 && 0 <= k2 < 12 && k1 != k2 implies #[trigger] m.slot(k1) & #[trigger] m.slot(k2) == 0 by {
                lemma_slot_and_symmetric(m.slot(k1), m.slot(k2));
            }
        }
        board
    }

    /// The side to move.
    pub fn turn(&self) -> (r: Color)
        ensures
            r == self@.turn,
    {
        self.turn
    }

    pub fn set_turn(&mut self, color: Color)
        ensures
            old(self)@.wf() ==> final(self)@.wf(),
            final(self)@ == (BoardModel { turn: color, ..old(self)@ }),
    {
        self.turn = color;
        proof {
            if old(self)@.wf() {
                lemma_wf_same_pieces(old(self)@, self@);
            }
        }
    }

    /// Passes the move to the other side.
    pub fn toggle_turn(&mut self)
        ensures
            old(self)@.wf() ==> final(self)@.wf(),
            final(self)@ == (BoardModel { turn: old(self)@.turn.spec_opposite(), ..old(self)@ }),
    {
        self.turn = self.turn.opposite();
        proof {
            if old(self)@.wf() {
                lemma_wf_same_pieces(old(self)@, self@);
            }
        }
    }

    /// The current halfmove clock.
    pub fn halfmove_clock(&self) -> (r: u32)
        requires
            self@.wf(),
        ensures
            r == self@.halfmove_clock(),
    {
        self.halfmove_clocks[self.halfmove_clocks.len() - 1]
    }

    /// Pushes a halfmove clock one above the current one (wrapping around).
    pub fn increment_halfmove_clock(&mut self)
        requires
            old(self)@.wf(),
        ensures
            old(self)@.wf() ==> final(self)@.wf(),
            final(self)@ == (BoardModel {
                halfmove_clocks: old(self)@.halfmove_clocks.push(next_count(old(self)@.halfmove_clock())),
                ..old(self)@
            }),
    {
        let current = self.halfmove_clocks[self.halfmove_clocks.len() - 1];
        self.halfmove_clocks.push(current.wrapping_add(1));
        proof {
            if old(self)@.wf() {
                lemma_wf_same_pieces(old(self)@, self@);
            }
        }
    }

    /// Pushes a halfmove clock of zero (after a capture or a pawn move).
    pub fn reset_halfmove_clock(&mut self)
        ensures
            old(self)@.wf() ==> final(self)@.wf(),
            final(self)@ == (BoardModel {
                halfmove_clocks: old(self)@.halfmove_clocks.push(0u32),
                ..old(self)@
            }),
    {
        self.halfmove_clocks.push(0);
        proof {
            if old(self)@.wf() {
                lemma_wf_same_pieces(old(self)@, self@);
            }
        }
    }

    /// Drops the current halfmove clock, making the previous one current.
    pub fn pop_halfmove_clock(&mut self)
        requires
            old(self)@.halfmove_clocks.len() >= 2,
        ensures
            old(self)@.wf() ==> final(self)@.wf(),
            final(self)@ == (BoardModel {
                halfmove_clocks: old(self)@.halfmove_clocks.drop_last(),
                ..old(self)@
            }),
    {
        self.halfmove_clocks.pop();
        proof { assert(self@.halfmove_clocks =~= old(self)@.halfmove_clocks.drop_last()); }
        proof {
            if old(self)@.wf() {
                lemma_wf_same_pieces(old(self)@, self@);
            }
        }
    }

    /// The fullmove clock.
    pub fn fullmove_clock(&self) -> (r: u32)
        ensures
            r == self@.fullmove_clock,
    {
        self.fullmove_clock
    }

    /// Advances the fullmove clock by one (wrapping around).
    pub fn increment_fullmove_clock(&mut self)
        ensures
            old(self)@.wf() ==> final(self)@.wf(),
            final(self)@ == (BoardModel {
                fullmove_clock: next_count(old(self)@.fullmove_clock),
                ..old(self)@
            }),
    {
        self.fullmove_clock = self.fullmove_clock.wrapping_add(1);
        proof {
            if old(self)@.wf() {
                lemma_wf_same_pieces(old(self)@, self@);
            }
        }
    }

    /// Moves the fullmove clock back by one (wrapping around).
    pub fn decrement_fullmove_clock(&mut self)
        ensures
            old(self)@.wf() ==> final(self)@.wf(),
            final(self)@ == (BoardModel {
                fullmove_clock: prev_count(old(self)@.fullmove_clock),
                ..old(self)@
            }),
    {
        self.fullmove_clock = self.fullmove_clock.wrapping_sub(1);
        proof {
            if old(self)@.wf() {
                lemma_wf_same_pieces(old(self)@, self@);
            }
        }
    }

    /// The current en passant target, if any.
    pub fn peek_en_passant_target(&self) -> (r: Option<Square>)
        requires
            self@.wf(),
        ensures
            r == self@.en_passant_target(),
    {
        self.en_passant_targets[self.en_passant_targets.len() - 1]
    }

    /// Pushes a new current en passant target.
    pub fn push_en_passant_target(&mut self, target: Option<Square>)
        ensures
            old(self)@.wf() ==> final(self)@.wf(),
            final(self)@ == (BoardModel {
                en_passant_targets: old(self)@.en_passant_targets.push(target),
                ..old(self)@
            }),
    {
        self.en_passant_targets.push(target);
        proof {
            if old(self)@.wf() {
                lemma_wf_same_pieces(old(self)@, self@);
            }
        }
    }

    /// Drops the current en passant target, making the previous one current.
    pub fn pop_en_passant_target(&mut self)
        requires
            old(self)@.en_passant_targets.len() >= 2,
        ensures
            old(self)@.wf() ==> final(self)@.wf(),
            final(self)@ == (BoardModel {
                en_passant_targets: old(self)@.en_passant_targets.drop_last(),
                ..old(self)@
            }),
    {
        self.en_passant_targets.pop();
        proof { assert(self@.en_passant_targets =~= old(self)@.en_passant_targets.drop_last()); }
        proof {
            if old(self)@.wf() {
                lemma_wf_same_pieces(old(self)@, self@);
            }
        }
    }

    /// The current castle rights.
    pub fn peek_castle_rights(&self) -> (r: CastleRights)
        requires
            self@.wf(),
        ensures
            r == self@.current_castle_rights(),
    {
        self.castle_rights[self.castle_rights.len() - 1]
    }

    /// Pushes the current castle rights minus `lost`.
    pub fn lose_castle_rights(&mut self, lost: CastleRights)
        requires
            old(self)@.wf(),
        ensures
            old(self)@.wf() ==> final(self)@.wf(),
            final(self)@ == (BoardModel {
                castle_rights: old(self)@.castle_rights.push(CastleRights {
                    bits: old(self)@.current_castle_rights().bits & !lost.bits,
                }),
                ..old(self)@
            }),
    {
        let current = self.castle_rights[self.castle_rights.len() - 1];
        self.castle_rights.push(current.without(lost));
        proof {
            if old(self)@.wf() {
                lemma_wf_same_pieces(old(self)@, self@);
            }
        }
    }

    /// Pushes the current castle rights again.
    pub fn preserve_castle_rights(&mut self)
        requires
            old(self)@.wf(),
        ensures
            old(self)@.wf() ==> final(self)@.wf(),
            final(self)@ == (BoardModel {
                castle_rights: old(self)@.castle_rights.push(old(self)@.current_castle_rights()),
                ..old(self)@
            }),
    {
        let current = self.castle_rights[self.castle_rights.len() - 1];
        self.castle_rights.push(current);
        proof {
            if old(self)@.wf() {
                lemma_wf_same_pieces(old(self)@, self@);
            }
        }
    }

    /// Drops the current castle rights, making the previous ones current.
    pub fn pop_castle_rights(&mut self)
        requires
            old(self)@.castle_rights.len() >= 2,
        ensures
            old(self)@.wf() ==> final(self)@.wf(),
            final(self)@ == (BoardModel {
                castle_rights: old(self)@.castle_rights.drop_last(),
                ..old(self)@
            }),
    {
        self.castle_rights.pop();
        proof { assert(self@.castle_rights =~= old(self)@.castle_rights.drop_last()); }
        proof {
            if old(self)@.wf() {
                lemma_wf_same_pieces(old(self)@, self@);
            }
        }
    }
}


impl Default for Board {
    /// The standard starting position.
    fn default() -> (r: Board)
        ensures
            r@.wf(),
            r@ == starting_model(),
    {
        Board::starting_position()
    }
}

} // verus!
