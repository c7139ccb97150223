//! Attack sets: the squares each kind of piece attacks from a square.
use vstd::prelude::*;

use crate::board::{Board, BoardModel};
use crate::piece::Color;
use crate::bitboard::{bits_where, has_sq, lemma_bits_where, lemma_or_zero, lemma_zero_iff_no_square};

verus! {

pub open spec fn file_of(s: int) -> int {
    s % 8
}

pub open spec fn rank_of(s: int) -> int {
    s / 8
}

pub open spec fn abs_diff(a: int, b: int) -> int {
    if a >= b {
        a - b
    } else {
        b - a
    }
}

/// Whether `x` lies strictly between `a` and `b`.
pub open spec fn strictly_between(a: int, x: int, b: int) -> bool {
    (a < x && x < b) || (b < x && x < a)
}

/// A knight on `s` attacks `t`: one file and two ranks away, or two files and one rank.
pub open spec fn knight_step(s: int, t: int) -> bool {
    let df = abs_diff(file_of(s), file_of(t));
    let dr = abs_diff(rank_of(s), rank_of(t));
    (df == 1 && dr == 2) || (df == 2 && dr == 1)
}

/// A king on `s` attacks `t`: a neighbouring square.
pub open spec fn king_step(s: int, t: int) -> bool {
    s != t && abs_diff(file_of(s), file_of(t)) <= 1 && abs_diff(rank_of(s), rank_of(t)) <= 1
}

/// `s` and `t` are distinct squares on a common diagonal.
pub open spec fn on_diagonal(s: int, t: int) -> bool {
    s != t && abs_diff(file_of(s), file_of(t)) == abs_diff(rank_of(s), rank_of(t))
}

/// `s` and `t` are distinct squares on a common rank or file.
pub open spec fn on_line(s: int, t: int) -> bool {
    s != t && (file_of(s) == file_of(t) || rank_of(s) == rank_of(t))
}

/// `u` lies strictly between `s` and `t` on the diagonal, rank or file joining them.
pub open spec fn between(s: int, t: int, u: int) -> bool {
    if on_diagonal(s, t) {
        strictly_between(file_of(s), file_of(u), file_of(t)) && strictly_between(rank_of(s), rank_of(u), rank_of(t))
            && abs_diff(file_of(s), file_of(u)) == abs_diff(rank_of(s), rank_of(u))
    } else if on_line(s, t) && rank_of(s) == rank_of(t) {
        rank_of(u) == rank_of(s) && strictly_between(file_of(s), file_of(u), file_of(t))
    } else if on_line(s, t) {
        file_of(u) == file_of(s) && strictly_between(rank_of(s), rank_of(u), rank_of(t))
    } else {
        false
    }
}

/// A bishop on `s` attacks `t` when they share a diagonal and nothing in `occupied`
/// stands between them.
pub open spec fn bishop_reaches(s: int, t: int, occupied: u64) -> bool {
    on_diagonal(s, t) && forall|u: int| 0 <= u < 64 && between(s, t, u) ==> !has_sq(occupied, u)
}

/// A rook on `s` attacks `t` when they share a rank or file and nothing in
/// `occupied` stands between them.
pub open spec fn rook_reaches(s: int, t: int, occupied: u64) -> bool {
    on_line(s, t) && forall|u: int| 0 <= u < 64 && between(s, t, u) ==> !has_sq(occupied, u)
}

/// A pawn of the side moving up (`up`) on `s` attacks `t`: diagonally forward.
pub open spec fn pawn_step(up: bool, s: int, t: int) -> bool {
    abs_diff(file_of(s), file_of(t)) == 1 && if up {
        rank_of(t) == rank_of(s) + 1
    } else {
        rank_of(t) == rank_of(s) - 1
    }
}

pub open spec fn knight_pred(s: int) -> spec_fn(int) -> bool {
    |t: int| knight_step(s, t)
}

pub open spec fn king_pred(s: int) -> spec_fn(int) -> bool {
    |t: int| king_step(s, t)
}

pub open spec fn pawn_pred(up: bool, s: int) -> spec_fn(int) -> bool {
    |t: int| pawn_step(up, s, t)
}

pub open spec fn bishop_pred(s: int, occupied: u64) -> spec_fn(int) -> bool {
    |t: int| bishop_reaches(s, t, occupied)
}

pub open spec fn rook_pred(s: int, occupied: u64) -> spec_fn(int) -> bool {
    |t: int| rook_reaches(s, t, occupied)
}

pub open spec fn between_pred(s: int, t: int) -> spec_fn(int) -> bool {
    |u: int| between(s, t, u)
}

/// The bitboard of the squares a knight on `s` attacks.
pub open spec fn spec_knight_attacks(s: int) -> u64 {
    bits_where(64, knight_pred(s))
}

/// The bitboard of the squares a king on `s` attacks.
pub open spec fn spec_king_attacks(s: int) -> u64 {
    bits_where(64, king_pred(s))
}

/// The bitboard of the squares a pawn on `s` attacks, moving up if `up`.
pub open spec fn spec_pawn_attacks(up: bool, s: int) -> u64 {
    bits_where(64, pawn_pred(up, s))
}

/// The bitboard of the squares a bishop on `s` attacks, given the occupied squares.
pub open spec fn spec_bishop_attacks(s: int, occupied: u64) -> u64 {
    bits_where(64, bishop_pred(s, occupied))
}

/// The bitboard of the squares a rook on `s` attacks, given the occupied squares.
pub open spec fn spec_rook_attacks(s: int, occupied: u64) -> u64 {
    bits_where(64, rook_pred(s, occupied))
}

/// One step of building `bits_where` square by square.
proof fn lemma_bits_where_step(r: u64, t: int, p: spec_fn(int) -> bool, add: bool)
    requires
        0 <= t < 64,
        r == bits_where(t, p),
        add == p(t),
    ensures
        (if add { r | (1u64 << (t as u64)) } else { r }) == bits_where(t + 1, p),
{
    if !add {
        lemma_or_zero(r);
    }
}

fn abs_diff_u8(a: u8, b: u8) -> (r: u8)
    ensures
        r == abs_diff(a as int, b as int),
{
    if a >= b {
        a - b
    } else {
        b - a
    }
}

fn strictly_between_u8(a: u8, x: u8, b: u8) -> (r: bool)
    ensures
        r == strictly_between(a as int, x as int, b as int),
{
    (a < x && x < b) || (b < x && x < a)
}

fn is_between(s: u8, t: u8, u: u8) -> (r: bool)
    requires
        s < 64,
        t < 64,
        u < 64,
    ensures
        r == between(s as int, t as int, u as int),
{
    let (sf, sr, tf, tr, uf, ur) = (s % 8, s / 8, t % 8, t / 8, u % 8, u / 8);
    if s != t && abs_diff_u8(sf, tf) == abs_diff_u8(sr, tr) {
        strictly_between_u8(sf, uf, tf) && strictly_between_u8(sr, ur, tr) && abs_diff_u8(sf, uf)
            == abs_diff_u8(sr, ur)
    } else if s != t && (sf == tf || sr == tr) && sr == tr {
        ur == sr && strictly_between_u8(sf, uf, tf)
    } else if s != t && (sf == tf || sr == tr) {
        uf == sf && strictly_between_u8(sr, ur, tr)
    } else {
        false
    }
}

/// The squares strictly between `s` and `t` on their shared line, if any.
pub fn between_mask(s: u8, t: u8) -> (r: u64)
    requires
        s < 64,
        t < 64,
    ensures
        forall|u: int| 0 <= u < 64 ==> (#[trigger] has_sq(r, u) <==> between(s as int, t as int, u)),
{
    let mut r: u64 = 0;
    let mut u: u8 = 0;
    while u < 64
        invariant
            u <= 64,
            s < 64,
            t < 64,
            r == bits_where(u as int, between_pred(s as int, t as int)),
        decreases 64 - u,
    {
        let add = is_between(s, t, u);
        proof { lemma_bits_where_step(r, u as int, between_pred(s as int, t as int), add); }
        if add {
            r = r | (1u64 << u);
        }
        u = u + 1;
    }
    proof { lemma_bits_where(64, between_pred(s as int, t as int)); }
    r
}

fn is_knight_step(s: u8, t: u8) -> (r: bool)
    ensures
        r == knight_step(s as int, t as int),
{
    let df = abs_diff_u8(s % 8, t % 8);
    let dr = abs_diff_u8(s / 8, t / 8);
    (df == 1 && dr == 2) || (df == 2 && dr == 1)
}

fn is_king_step(s: u8, t: u8) -> (r: bool)
    ensures
        r == king_step(s as int, t as int),
{
    s != t && abs_diff_u8(s % 8, t % 8) <= 1 && abs_diff_u8(s / 8, t / 8) <= 1
}

fn is_pawn_step(up: bool, s: u8, t: u8) -> (r: bool)
    ensures
        r == pawn_step(up, s as int, t as int),
{
    abs_diff_u8(s % 8, t % 8) == 1 && if up {
        t / 8 == s / 8 + 1
    } else {
        t / 8 + 1 == s / 8
    }
}

fn is_on_diagonal(s: u8, t: u8) -> (r: bool)
    ensures
        r == on_diagonal(s as int, t as int),
{
    s != t && abs_diff_u8(s % 8, t % 8) == abs_diff_u8(s / 8, t / 8)
}

fn is_on_line(s: u8, t: u8) -> (r: bool)
    ensures
        r == on_line(s as int, t as int),
{
    s != t && (s % 8 == t % 8 || s / 8 == t / 8)
}

/// The squares a bishop on `s` attacks when the pieces stand on `occupied`: along each diagonal up to and including the first occupied square.
pub fn bishop_attacks(s: u8, occupied: u64) -> (r: u64)
    requires
        s < 64,
    ensures
        r == spec_bishop_attacks(s as int, occupied),
        forall|t: int| 0 <= t < 64 ==> (#[trigger] has_sq(r, t) <==> bishop_reaches(s as int, t, occupied)),
{
    let mut r: u64 = 0;
    let mut t: u8 = 0;
    while t < 64
        invariant
            t <= 64,
            s < 64,
            r == bits_where(t as int, bishop_pred(s as int, occupied)),
        decreases 64 - t,
    {
        let mask = between_mask(s, t);
        let clear = (occupied & mask) == 0;
        proof {
            let b = occupied & mask;
            lemma_zero_iff_no_square(b);
            assert forall|u: int| 0 <= u < 64 implies #[trigger] has_sq(b, u) == (has_sq(occupied, u) && between(s as int, t as int, u)) by {
                crate::bitboard::lemma_has_ops(occupied, mask, u);
            }
            if clear {
                assert forall|u: int| 0 <= u < 64 && between(s as int, t as int, u) implies !has_sq(occupied, u) by {
                    assert(!has_sq(b, u));
                }
            } else {
                let u = choose|u: int| 0 <= u < 64 && has_sq(b, u);
                assert(between(s as int, t as int, u) && has_sq(occupied, u));
            }
        }
        let add = is_on_diagonal(s, t) && clear;
        proof { lemma_bits_where_step(r, t as int, bishop_pred(s as int, occupied), add); }
        if add {
            r = r | (1u64 << t);
        }
        t = t + 1;
    }
    proof { lemma_bits_where(64, bishop_pred(s as int, occupied)); }
    r
}

/// The squares a rook on `s` attacks when the pieces stand on `occupied`: along its rank and file up to and including the first occupied square.
pub fn rook_attacks(s: u8, occupied: u64) -> (r: u64)
    requires
        s < 64,
    ensures
        r == spec_rook_attacks(s as int, occupied),
        forall|t: int| 0 <= t < 64 ==> (#[trigger] has_sq(r, t) <==> rook_reaches(s as int, t, occupied)),
{
    let mut r: u64 = 0;
    let mut t: u8 = 0;
    while t < 64
        invariant
            t <= 64,
            s < 64,
            r == bits_where(t as int, rook_pred(s as int, occupied)),
        decreases 64 - t,
    {
        let mask = between_mask(s, t);
        let clear = (occupied & mask) == 0;
        proof {
            let b = occupied & mask;
            lemma_zero_iff_no_square(b);
            assert forall|u: int| 0 <= u < 64 implies #[trigger] has_sq(b, u) == (has_sq(occupied, u) && between(s as int, t as int, u)) by {
                crate::bitboard::lemma_has_ops(occupied, mask, u);
            }
            if clear {
                assert forall|u: int| 0 <= u < 64 && between(s as int, t as int, u) implies !has_sq(occupied, u) by {
                    assert(!has_sq(b, u));
                }
            } else {
                let u = choose|u: int| 0 <= u < 64 && has_sq(b, u);
                assert(between(s as int, t as int, u) && has_sq(occupied, u));
            }
        }
        let add = is_on_line(s, t) && clear;
        proof { lemma_bits_where_step(r, t as int, rook_pred(s as int, occupied), add); }
        if add {
            r = r | (1u64 << t);
        }
        t = t + 1;
    }
    proof { lemma_bits_where(64, rook_pred(s as int, occupied)); }
    r
}

/// The squares a knight on `s` attacks.
pub fn knight_attacks(s: u8) -> (r: u64)
    requires
        s < 64,
    ensures
        r == spec_knight_attacks(s as int),
        forall|t: int| 0 <= t < 64 ==> (#[trigger] has_sq(r, t) <==> knight_step(s as int, t)),
{
    let mut r: u64 = 0;
    let mut t: u8 = 0;
    while t < 64
        invariant
            t <= 64,
            s < 64,
            r == bits_where(t as int, knight_pred(s as int)),
        decreases 64 - t,
    {
        let add = is_knight_step(s, t);
        proof { lemma_bits_where_step(r, t as int, knight_pred(s as int), add); }
        if add {
            r = r | (1u64 << t);
        }
        t = t + 1;
    }
    proof { lemma_bits_where(64, knight_pred(s as int)); }
    r
}

/// The squares a king on `s` attacks.
pub fn king_attacks(s: u8) -> (r: u64)
    requires
        s < 64,
    ensures
        r == spec_king_attacks(s as int),
        forall|t: int| 0 <= t < 64 ==> (#[trigger] has_sq(r, t) <==> king_step(s as int, t)),
{
    let mut r: u64 = 0;
    let mut t: u8 = 0;
    while t < 64
        invariant
            t <= 64,
            s < 64,
            r == bits_where(t as int, king_pred(s as int)),
        decreases 64 - t,
    {
        let add = is_king_step(s, t);
        proof { lemma_bits_where_step(r, t as int, king_pred(s as int), add); }
        if add {
            r = r | (1u64 << t);
        }
        t = t + 1;
    }
    proof { lemma_bits_where(64, king_pred(s as int)); }
    r
}

/// The squares a pawn on `s` attacks, moving up the board if `up` (White) or down (Black).
pub fn pawn_attacks(up: bool, s: u8) -> (r: u64)
    requires
        s < 64,
    ensures
        r == spec_pawn_attacks(up, s as int),
        forall|t: int| 0 <= t < 64 ==> (#[trigger] has_sq(r, t) <==> pawn_step(up, s as int, t)),
{
    let mut r: u64 = 0;
    let mut t: u8 = 0;
    while t < 64
        invariant
            t <= 64,
            s < 64,
            r == bits_where(t as int, pawn_pred(up, s as int)),
        decreases 64 - t,
    {
        let add = is_pawn_step(up, s, t);
        proof { lemma_bits_where_step(r, t as int, pawn_pred(up, s as int), add); }
        if add {
            r = r | (1u64 << t);
        }
        t = t + 1;
    }
    proof { lemma_bits_where(64, pawn_pred(up, s as int)); }
    r
}


/// The squares attacked by the piece of `color` standing on square `t`, if any:
/// a pawn's two forward diagonals, a knight's jumps, a bishop's, rook's or
/// queen's lines up to the first occupied square, a king's neighbours.
pub open spec fn piece_attacks_from(m: BoardModel, color: Color, t: int) -> u64 {
    let ps = m.pieces(color);
    let occupied = m.occupied();
    (if has_sq(ps.pawns, t) {
        spec_pawn_attacks(color == Color::White, t)
    } else {
        0u64
    }) | (if has_sq(ps.knights, t) {
        spec_knight_attacks(t)
    } else {
        0u64
    }) | (if has_sq(ps.bishops, t) || has_sq(ps.queens, t) {
        spec_bishop_attacks(t, occupied)
    } else {
        0u64
    }) | (if has_sq(ps.rooks, t) || has_sq(ps.queens, t) {
        spec_rook_attacks(t, occupied)
    } else {
        0u64
    }) | (if has_sq(ps.kings, t) {
        spec_king_attacks(t)
    } else {
        0u64
    })
}

/// The squares attacked by the pieces of `color` on the squares below `n`.
pub open spec fn attacks_below(m: BoardModel, color: Color, n: int) -> u64
    decreases n,
{
    if n <= 0 {
        0
    } else {
        attacks_below(m, color, n - 1) | piece_attacks_from(m, color, n - 1)
    }
}

/// Every square attacked by a piece of `color`.
pub open spec fn spec_attack_targets(m: BoardModel, color: Color) -> u64 {
    attacks_below(m, color, 64)
}

/// A square is in `attacks_below(m, color, n)` exactly when a piece of `color`
/// below `n` attacks it.
pub proof fn lemma_attacks_below(m: BoardModel, color: Color, n: int, u: int)
    requires
        0 <= n <= 64,
        0 <= u < 64,
    ensures
        has_sq(attacks_below(m, color, n), u) <==> exists|t: int|
            0 <= t < n && #[trigger] has_sq(piece_attacks_from(m, color, t), u),
    decreases n,
{
    if n == 0 {
        crate::bitboard::lemma_has_ops(0, 0, u);
    } else {
        lemma_attacks_below(m, color, n - 1, u);
        crate::bitboard::lemma_has_ops(attacks_below(m, color, n - 1), piece_attacks_from(m, color, n - 1), u);
        if has_sq(attacks_below(m, color, n), u) && !has_sq(piece_attacks_from(m, color, n - 1), u) {
            let t = choose|t: int| 0 <= t < n - 1 && #[trigger] has_sq(piece_attacks_from(m, color, t), u);
            assert(0 <= t < n && has_sq(piece_attacks_from(m, color, t), u));
        }
        if exists|t: int| 0 <= t < n && #[trigger] has_sq(piece_attacks_from(m, color, t), u) {
            let t = choose|t: int| 0 <= t < n && #[trigger] has_sq(piece_attacks_from(m, color, t), u);
            if t < n - 1 {
                assert(exists|t2: int| 0 <= t2 < n - 1 && #[trigger] has_sq(piece_attacks_from(m, color, t2), u));
            }
        }
    }
}

/// A piece of `color` standing on `t` attacks `u`: a pawn diagonally one
/// rank forward (up for White), a knight by a knight's jump, a king from a
/// neighbouring square, a bishop along a diagonal, a rook along a rank or
/// file, a queen along either, and the sliding pieces only with no piece on
/// the squares strictly between.
pub open spec fn piece_on_attacks(m: BoardModel, color: Color, t: int, u: int) -> bool {
    let ps = m.pieces(color);
    let occupied = m.occupied();
    ||| has_sq(ps.pawns, t) && pawn_step(color == Color::White, t, u)
    ||| has_sq(ps.knights, t) && knight_step(t, u)
    ||| has_sq(ps.bishops, t) && bishop_reaches(t, u, occupied)
    ||| has_sq(ps.rooks, t) && rook_reaches(t, u, occupied)
    ||| has_sq(ps.queens, t) && (bishop_reaches(t, u, occupied) || rook_reaches(t, u, occupied))
    ||| has_sq(ps.kings, t) && king_step(t, u)
}

proof fn lemma_piece_attacks_from_square(m: BoardModel, color: Color, t: int, u: int)
    requires
        0 <= u < 64,
    ensures
        has_sq(piece_attacks_from(m, color, t), u) == piece_on_attacks(m, color, t, u),
{
    let ps = m.pieces(color);
    let occupied = m.occupied();
    let pawn = if has_sq(ps.pawns, t) { spec_pawn_attacks(color == Color::White, t) } else { 0u64 };
    let knight = if has_sq(ps.knights, t) { spec_knight_attacks(t) } else { 0u64 };
    let diagonal = if has_sq(ps.bishops, t) || has_sq(ps.queens, t) { spec_bishop_attacks(t, occupied) } else { 0u64 };
    let straight = if has_sq(ps.rooks, t) || has_sq(ps.queens, t) { spec_rook_attacks(t, occupied) } else { 0u64 };
    let king = if has_sq(ps.kings, t) { spec_king_attacks(t) } else { 0u64 };
    lemma_bits_where(64, pawn_pred(color == Color::White, t));
    lemma_bits_where(64, knight_pred(t));
    lemma_bits_where(64, bishop_pred(t, occupied));
    lemma_bits_where(64, rook_pred(t, occupied));
    lemma_bits_where(64, king_pred(t));
    crate::bitboard::lemma_has_ops(0, 0, u);
    crate::bitboard::lemma_has_ops(pawn, knight, u);
    crate::bitboard::lemma_has_ops(pawn | knight, diagonal, u);
    crate::bitboard::lemma_has_ops(pawn | knight | diagonal, straight, u);
    crate::bitboard::lemma_has_ops(pawn | knight | diagonal | straight, king, u);
    assert(has_sq(spec_bishop_attacks(t, occupied), u) == bishop_reaches(t, u, occupied));
    assert(has_sq(spec_rook_attacks(t, occupied), u) == rook_reaches(t, u, occupied));
    assert(has_sq(spec_knight_attacks(t), u) == knight_step(t, u));
    assert(has_sq(spec_king_attacks(t), u) == king_step(t, u));
    assert(has_sq(spec_pawn_attacks(color == Color::White, t), u) == pawn_step(color == Color::White, t, u));
}

/// A side attacks square `u` exactly when one of its pieces, on some square
/// of the board, attacks `u` as that kind of piece does: so every square on
/// a bishop's open diagonal, a rook's open rank or file, either for a
/// queen, and the squares a knight, king or pawn reaches, is attacked, and
/// no other square is.
pub proof fn lemma_attack_targets_are_piece_attacks(m: BoardModel, color: Color, u: int)
    requires
        0 <= u < 64,
    ensures
        has_sq(spec_attack_targets(m, color), u) <==> exists|t: int|
            0 <= t < 64 && #[trigger] piece_on_attacks(m, color, t, u),
{
    lemma_attacks_below(m, color, 64, u);
    assert forall|t: int| 0 <= t < 64 implies #[trigger] has_sq(piece_attacks_from(m, color, t), u)
        == piece_on_attacks(m, color, t, u) by {
        lemma_piece_attacks_from_square(m, color, t, u);
    }
    if has_sq(spec_attack_targets(m, color), u) {
        let t = choose|t: int| 0 <= t < 64 && #[trigger] has_sq(piece_attacks_from(m, color, t), u);
        assert(piece_on_attacks(m, color, t, u));
    }
    if exists|t: int| 0 <= t < 64 && #[trigger] piece_on_attacks(m, color, t, u) {
        let t = choose|t: int| 0 <= t < 64 && #[trigger] piece_on_attacks(m, color, t, u);
        assert(has_sq(piece_attacks_from(m, color, t), u));
    }
}

fn piece_attacks_at(board: &Board, color: Color, t: u8) -> (r: u64)
    requires
        t < 64,
    ensures
        r == piece_attacks_from(board@, color, t as int),
{
    let ps = board.pieces(color);
    let occupied = board.occupied();
    let pawn = if (ps.pawns >> t) & 1 == 1 {
        pawn_attacks(color.maximize_score(), t)
    } else {
        0u64
    };
    let knight = if (ps.knights >> t) & 1 == 1 {
        knight_attacks(t)
    } else {
        0u64
    };
    let diagonal = if (ps.bishops >> t) & 1 == 1 || (ps.queens >> t) & 1 == 1 {
        bishop_attacks(t, occupied)
    } else {
        0u64
    };
    let straight = if (ps.rooks >> t) & 1 == 1 || (ps.queens >> t) & 1 == 1 {
        rook_attacks(t, occupied)
    } else {
        0u64
    };
    let king = if (ps.kings >> t) & 1 == 1 {
        king_attacks(t)
    } else {
        0u64
    };
    pawn | knight | diagonal | straight | king
}

/// Every square attacked by a piece of `color`.
pub fn attack_targets(board: &Board, color: Color) -> (r: u64)
    ensures
        r == spec_attack_targets(board@, color),
        forall|u: int| 0 <= u < 64 ==> (#[trigger] has_sq(r, u) <==> exists|t: int|
            0 <= t < 64 && #[trigger] has_sq(piece_attacks_from(board@, color, t), u)),
{
    let mut r: u64 = 0;
    let mut t: u8 = 0;
    while t < 64
        invariant
            t <= 64,
            r == attacks_below(board@, color, t as int),
        decreases 64 - t,
    {
        r = r | piece_attacks_at(board, color, t);
        t = t + 1;
    }
    proof {
        assert forall|u: int| 0 <= u < 64 implies (#[trigger] has_sq(r, u) <==> exists|t: int|
            0 <= t < 64 && #[trigger] has_sq(piece_attacks_from(board@, color, t), u)) by {
            lemma_attacks_below(board@, color, 64, u);
        }
    }
    r
}

} // verus!
