//! The material score treats the two sides alike: exchanging them negates it.
use vstd::prelude::*;

use crate::bitboard::{count_below, has_sq, popcount};
use crate::board::{piece_of_slot, BoardModel, Pieces};
use crate::piece::Color;

use super::evaluation::{
    kind_material, piece_square_value, raw_phase, side_material, side_phase, spec_game_phase, spec_material_balance,
    spec_player_material_score, sum_upto,
};

verus! {

/// Whether `r` holds the squares of `b` turned half round: square `s` is
/// set in `r` exactly when square `63 - s` is set in `b`.
pub open spec fn rotated_squares(b: u64, r: u64) -> bool {
    forall|s: int| 0 <= s < 64 ==> #[trigger] has_sq(r, s) == has_sq(b, 63 - s)
}

/// Whether every kind of piece of `b` stands on the squares of `a`'s turned
/// half round.
pub open spec fn pieces_rotated(a: Pieces, b: Pieces) -> bool {
    &&& rotated_squares(a.pawns, b.pawns)
    &&& rotated_squares(a.knights, b.knights)
    &&& rotated_squares(a.bishops, b.bishops)
    &&& rotated_squares(a.rooks, b.rooks)
    &&& rotated_squares(a.queens, b.queens)
    &&& rotated_squares(a.kings, b.kings)
}

/// Whether `m2` is `m` with the two sides exchanged: a piece on square `s`
/// of `m` stands on square `63 - s` of `m2`, in the other colour, so that
/// the board is seen from the other side.
pub open spec fn sides_exchanged(m: BoardModel, m2: BoardModel) -> bool {
    pieces_rotated(m.white, m2.black) && pieces_rotated(m.black, m2.white)
}

/// A sum split after its first term.
proof fn lemma_sum_front(n: int, f: spec_fn(int) -> int)
    requires
        n >= 1,
    ensures
        sum_upto(n, f) == f(0) + sum_upto(n - 1, |j: int| f(j + 1)),
    decreases n,
{
    let g = |j: int| f(j + 1);
    if n > 1 {
        lemma_sum_front(n - 1, f);
        assert(sum_upto(n - 1, g) == sum_upto(n - 2, g) + g(n - 2));
        assert(sum_upto(n, f) == sum_upto(n - 1, f) + f(n - 1));
    } else {
        assert(sum_upto(0, g) == 0);
        assert(sum_upto(1, f) == sum_upto(0, f) + f(0));
    }
}

/// A sum is the same read backwards.
pub(crate) proof fn lemma_sum_reverse(n: int, f: spec_fn(int) -> int)
    requires
        n >= 0,
    ensures
        sum_upto(n, f) == sum_upto(n, |i: int| f(n - 1 - i)),
    decreases n,
{
    let h = |i: int| f(n - 1 - i);
    if n > 0 {
        let g = |j: int| f(j + 1);
        lemma_sum_front(n, f);
        lemma_sum_reverse(n - 1, g);
        let g2 = |i: int| g(n - 1 - 1 - i);
        assert(g2 =~= h);
        assert(sum_upto(n, h) == sum_upto(n - 1, h) + h(n - 1));
        assert(h(n - 1) == f(0));
        assert(sum_upto(n - 1, g) == sum_upto(n - 1, g2));
    } else {
        assert(sum_upto(n, h) == 0);
    }
}

/// The term of square `s` in the value of the pieces of kind `k`.
pub open spec fn kind_term(ps: Pieces, color: Color, phase: int, k: int) -> spec_fn(int) -> int {
    |s: int|
        if has_sq(ps.spec_locate(piece_of_slot(k)), s) {
            piece_square_value(color, phase, k, s)
        } else {
            0
        }
}

proof fn lemma_kind_material_sum(ps: Pieces, color: Color, phase: int, k: int, n: int)
    ensures
        kind_material(ps, color, phase, k, n) == sum_upto(n, kind_term(ps, color, phase, k)),
    decreases n,
{
    if n > 0 {
        lemma_kind_material_sum(ps, color, phase, k, n - 1);
    }
}

/// The term of square `s` in a count of squares.
pub open spec fn square_term(b: u64) -> spec_fn(int) -> int {
    |s: int|
        if has_sq(b, s) {
            1
        } else {
            0
        }
}

pub(crate) proof fn lemma_count_sum(b: u64, n: int)
    ensures
        count_below(b, n) == sum_upto(n, square_term(b)),
    decreases n,
{
    if n > 0 {
        lemma_count_sum(b, n - 1);
    }
}

/// Squares turned half round are as many as before.
proof fn lemma_rotated_popcount(b: u64, r: u64)
    requires
        rotated_squares(b, r),
    ensures
        popcount(r) == popcount(b),
{
    lemma_count_sum(b, 64);
    lemma_count_sum(r, 64);
    lemma_sum_reverse(64, square_term(b));
    assert forall|i: int| #[trigger] square_term(r)(i) == (|j: int| square_term(b)(64 - 1 - j))(i) by {
        if 0 <= i < 64 {
            assert(has_sq(r, i) == has_sq(b, 63 - i));
        }
    }
    assert(square_term(r) =~= (|j: int| square_term(b)(64 - 1 - j)));
}

/// The pieces of a kind, turned half round and given to the other side,
/// are worth what they were worth.
proof fn lemma_rotated_kind_material(a: Pieces, b: Pieces, c: Color, phase: int, k: int)
    requires
        0 <= k < 6,
        rotated_squares(a.spec_locate(piece_of_slot(k)), b.spec_locate(piece_of_slot(k))),
    ensures
        kind_material(b, c.spec_opposite(), phase, k, 64) == kind_material(a, c, phase, k, 64),
{
    let fa = kind_term(a, c, phase, k);
    let fb = kind_term(b, c.spec_opposite(), phase, k);
    lemma_kind_material_sum(a, c, phase, k, 64);
    lemma_kind_material_sum(b, c.spec_opposite(), phase, k, 64);
    lemma_sum_reverse(64, fa);
    assert forall|i: int| #[trigger] fb(i) == (|j: int| fa(64 - 1 - j))(i) by {
        if 0 <= i < 64 {
            assert(has_sq(b.spec_locate(piece_of_slot(k)), i) == has_sq(a.spec_locate(piece_of_slot(k)), 63 - i));
            assert((63 - i) / 8 == 7 - i / 8 && (63 - i) % 8 == 7 - i % 8);
            assert(piece_square_value(c.spec_opposite(), phase, k, i) == piece_square_value(c, phase, k, 63 - i));
        } else {
            assert(!has_sq(b.spec_locate(piece_of_slot(k)), i));
            assert(!has_sq(a.spec_locate(piece_of_slot(k)), 63 - i));
        }
    }
    assert(fb =~= (|j: int| fa(64 - 1 - j)));
}

proof fn lemma_rotated_side_material(a: Pieces, b: Pieces, c: Color, phase: int, k: int)
    requires
        0 <= k <= 6,
        pieces_rotated(a, b),
    ensures
        side_material(b, c.spec_opposite(), phase, k) == side_material(a, c, phase, k),
    decreases k,
{
    if k > 0 {
        lemma_rotated_side_material(a, b, c, phase, k - 1);
        let p = piece_of_slot(k - 1);
        assert(rotated_squares(a.spec_locate(p), b.spec_locate(p)));
        lemma_rotated_kind_material(a, b, c, phase, k - 1);
    }
}

/// Exchanging the two sides negates the material score (each piece's value
/// plus its piece-square bonus, White's minus Black's) and keeps the game
/// phase: the piece-square tables are read by White with the ranks flipped
/// and by Black with the files flipped, so a piece turned half round and
/// given to the other side is worth what it was.
pub proof fn lemma_exchanging_sides_negates_material(m: BoardModel, m2: BoardModel, phase: int)
    requires
        sides_exchanged(m, m2),
    ensures
        spec_material_balance(m2, phase) == -spec_material_balance(m, phase),
        spec_game_phase(m2) == spec_game_phase(m),
{
    lemma_rotated_side_material(m.white, m2.black, Color::White, phase, 6);
    lemma_rotated_side_material(m.black, m2.white, Color::Black, phase, 6);
    lemma_rotated_popcount(m.white.knights, m2.black.knights);
    lemma_rotated_popcount(m.white.bishops, m2.black.bishops);
    lemma_rotated_popcount(m.white.rooks, m2.black.rooks);
    lemma_rotated_popcount(m.white.queens, m2.black.queens);
    lemma_rotated_popcount(m.black.knights, m2.white.knights);
    lemma_rotated_popcount(m.black.bishops, m2.white.bishops);
    lemma_rotated_popcount(m.black.rooks, m2.white.rooks);
    lemma_rotated_popcount(m.black.queens, m2.white.queens);
    assert(side_phase(m2.black) == side_phase(m.white));
    assert(side_phase(m2.white) == side_phase(m.black));
    assert(raw_phase(m2) == raw_phase(m));
}

} // verus!
