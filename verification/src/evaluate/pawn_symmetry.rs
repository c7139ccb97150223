//! Black's pawns are scored as the mirror image of White's.
use vstd::prelude::*;

use crate::bitboard::{
    count_below, has_sq, lemma_has_ops, ALL, EMPTY, lemma_single_bit, lemma_zero_iff_no_square, popcount, A_FILE, B_FILE, C_FILE,
    D_FILE, E_FILE, F_FILE, G_FILE, H_FILE,
};

use super::evaluation::{
    ahead_mask, backward_pawn_term, behind_one_rank, connected_pawn_term, enemy_pawn_attacks, file_term, files_sum,
    passed_pawn_term, pawn_term, pawns_sum, spec_above_rank_mask, spec_below_rank_mask,
    spec_pawn_structure_for_color, sum_upto,
};
use super::evaluation_tables::{ADJACENT_FILES, FILE_MASKS};
use super::symmetry::{lemma_count_sum, lemma_sum_reverse, square_term};

verus! {

proof fn lemma_file_bits(g: u64, t: u64)
    by (bit_vector)
    requires
        g < 8,
        t < 64,
    ensures
        ((0x0101_0101_0101_0101u64 << g) >> t) & 1u64 == 1u64 <==> t % 8 == g,
{
}

proof fn lemma_file_masks(f: int, s: int)
    requires
        0 <= f < 8,
        0 <= s < 64,
    ensures
        has_sq(FILE_MASKS[f], s) <==> s % 8 == f,
{
    assert(A_FILE == 0x0101_0101_0101_0101u64 << 0u64 && B_FILE == 0x0101_0101_0101_0101u64 << 1u64 && C_FILE
        == 0x0101_0101_0101_0101u64 << 2u64 && D_FILE == 0x0101_0101_0101_0101u64 << 3u64 && E_FILE
        == 0x0101_0101_0101_0101u64 << 4u64 && F_FILE == 0x0101_0101_0101_0101u64 << 5u64 && G_FILE
        == 0x0101_0101_0101_0101u64 << 6u64 && H_FILE == 0x0101_0101_0101_0101u64 << 7u64) by (bit_vector);
    lemma_file_bits(f as u64, s as u64);
    assert(FILE_MASKS[f] == 0x0101_0101_0101_0101u64 << (f as u64));
}

/// The square `s` seen from the other side of the board: the same file,
/// the rank counted from the other end.
pub open spec fn mirror_square(s: int) -> int {
    (7 - s / 8) * 8 + s % 8
}

/// Whether `r` holds the squares of `b` mirrored rank for rank: square `s`
/// is set in `r` exactly when `mirror_square(s)` is set in `b`.
pub open spec fn mirrored_squares(b: u64, r: u64) -> bool {
    forall|s: int| 0 <= s < 64 ==> #[trigger] has_sq(r, s) == has_sq(b, mirror_square(s))
}

proof fn lemma_mirror_square(s: int)
    requires
        0 <= s < 64,
    ensures
        0 <= mirror_square(s) < 64,
        mirror_square(s) / 8 == 7 - s / 8,
        mirror_square(s) % 8 == s % 8,
        mirror_square(mirror_square(s)) == s,
{
}

proof fn lemma_mirrored_symmetric(b: u64, r: u64)
    requires
        mirrored_squares(b, r),
    ensures
        mirrored_squares(r, b),
{
    assert forall|s: int| 0 <= s < 64 implies #[trigger] has_sq(b, s) == has_sq(r, mirror_square(s)) by {
        lemma_mirror_square(s);
        assert(has_sq(r, mirror_square(s)) == has_sq(b, mirror_square(mirror_square(s))));
    }
}

/// Two masks mirrored into two others meet exactly when those do.
proof fn lemma_mirrored_meet(a: u64, a2: u64, m: u64, m2: u64)
    requires
        mirrored_squares(a, a2),
        mirrored_squares(m, m2),
    ensures
        (a & m == 0) == (a2 & m2 == 0),
{
    lemma_zero_iff_no_square(a & m);
    lemma_zero_iff_no_square(a2 & m2);
    if a & m == 0 {
        assert forall|s: int| 0 <= s < 64 implies !#[trigger] has_sq(a2 & m2, s) by {
            lemma_mirror_square(s);
            lemma_has_ops(a2, m2, s);
            lemma_has_ops(a, m, mirror_square(s));
        }
    }
    if a2 & m2 == 0 {
        assert forall|s: int| 0 <= s < 64 implies !#[trigger] has_sq(a & m, s) by {
            lemma_mirror_square(s);
            lemma_has_ops(a, m, s);
            lemma_has_ops(a2, m2, mirror_square(s));
            assert(has_sq(a2, mirror_square(s)) == has_sq(a, mirror_square(mirror_square(s))));
            assert(has_sq(m2, mirror_square(s)) == has_sq(m, mirror_square(mirror_square(s))));
        }
    }
}

pub(crate) proof fn lemma_sum_split(a: int, k: int, g: spec_fn(int) -> int)
    requires
        a >= 0,
        k >= 0,
    ensures
        sum_upto(a + k, g) == sum_upto(a, g) + sum_upto(k, |c: int| g(a + c)),
    decreases k,
{
    if k > 0 {
        lemma_sum_split(a, k - 1, g);
        assert(sum_upto(k, |c: int| g(a + c)) == sum_upto(k - 1, |c: int| g(a + c)) + g(a + k - 1));
    }
}

pub(crate) proof fn lemma_sum_congruent(n: int, f: spec_fn(int) -> int, g: spec_fn(int) -> int)
    requires
        forall|i: int| 0 <= i < n ==> #[trigger] f(i) == g(i),
    ensures
        sum_upto(n, f) == sum_upto(n, g),
    decreases n,
{
    if n > 0 {
        lemma_sum_congruent(n - 1, f, g);
    }
}

/// The eight squares of row `r`, in order.
pub open spec fn row_terms(g: spec_fn(int) -> int, r: int) -> spec_fn(int) -> int {
    |c: int| g(8 * r + c)
}

/// The sums of the eight rows of squares.
pub open spec fn row_sums(g: spec_fn(int) -> int) -> spec_fn(int) -> int {
    |r: int| sum_upto(8, row_terms(g, r))
}

/// The terms of `f` below `n`, last first.
pub open spec fn reversed(f: spec_fn(int) -> int, n: int) -> spec_fn(int) -> int {
    |i: int| f(n - 1 - i)
}

/// The terms of `g` on the mirrored squares.
pub open spec fn mirrored_terms(g: spec_fn(int) -> int) -> spec_fn(int) -> int {
    |s: int| g(mirror_square(s))
}

proof fn lemma_sum_rows(n: int, g: spec_fn(int) -> int)
    requires
        n >= 0,
    ensures
        sum_upto(8 * n, g) == sum_upto(n, row_sums(g)),
    decreases n,
{
    if n > 0 {
        lemma_sum_rows(n - 1, g);
        lemma_sum_split(8 * (n - 1), 8, g);
        assert(8 * (n - 1) + 8 == 8 * n);
        assert((|c: int| g(8 * (n - 1) + c)) =~= row_terms(g, n - 1));
    }
}

/// A sum over the squares is the same over the mirrored squares.
pub(crate) proof fn lemma_sum_mirror(g: spec_fn(int) -> int)
    ensures
        sum_upto(64, g) == sum_upto(64, mirrored_terms(g)),
{
    let gm = mirrored_terms(g);
    lemma_sum_rows(8, g);
    lemma_sum_rows(8, gm);
    let rg = row_sums(g);
    let rm = row_sums(gm);
    assert forall|r: int| 0 <= r < 8 implies #[trigger] rm(r) == reversed(rg, 8)(r) by {
        assert forall|c: int| 0 <= c < 8 implies #[trigger] row_terms(gm, r)(c) == row_terms(g, 8 - 1 - r)(c) by {
            assert((8 * r + c) / 8 == r && (8 * r + c) % 8 == c);
        }
        lemma_sum_congruent(8, row_terms(gm, r), row_terms(g, 8 - 1 - r));
    }
    lemma_sum_congruent(8, rm, reversed(rg, 8));
    lemma_sum_reverse(8, rg);
    assert(reversed(rg, 8) =~= (|i: int| rg(8 - 1 - i)));
}

/// Mirrored squares are as many as before.
pub(crate) proof fn lemma_mirrored_popcount(b: u64, r: u64)
    requires
        mirrored_squares(b, r),
    ensures
        popcount(r) == popcount(b),
{
    lemma_count_sum(b, 64);
    lemma_count_sum(r, 64);
    lemma_sum_mirror(square_term(b));
    assert forall|i: int| 0 <= i < 64 implies #[trigger] square_term(r)(i) == mirrored_terms(square_term(b))(i) by {}
    lemma_sum_congruent(64, square_term(r), mirrored_terms(square_term(b)));
}

proof fn lemma_adjacent_files(f: int, s: int)
    requires
        0 <= f < 8,
        0 <= s < 64,
    ensures
        has_sq(ADJACENT_FILES[f], s) <==> (s % 8 == f - 1 || s % 8 == f + 1),
{
    if f > 0 {
        lemma_file_masks(f - 1, s);
    }
    if f < 7 {
        lemma_file_masks(f + 1, s);
    }
    if f > 0 && f < 7 {
        lemma_has_ops(FILE_MASKS[f - 1], FILE_MASKS[f + 1], s);
    }
}

proof fn lemma_above_bits(r: u64, t: u64)
    by (bit_vector)
    requires
        r < 7,
        t < 64,
    ensures
        ((0xFFFF_FFFF_FFFF_FFFFu64 << ((r + 1) * 8) as u64) >> t) & 1u64 == 1u64 <==> t / 8 > r,
{
}

proof fn lemma_below_bits(r: u64, t: u64)
    by (bit_vector)
    requires
        1 <= r <= 7,
        t < 64,
    ensures
        ((0xFFFF_FFFF_FFFF_FFFFu64 >> ((8 - r) * 8) as u64) >> t) & 1u64 == 1u64 <==> t / 8 < r,
{
}

proof fn lemma_row_bits(k: u64, t: u64)
    by (bit_vector)
    requires
        k < 8,
        t < 64,
    ensures
        ((0xFFu64 << (k * 8) as u64) >> t) & 1u64 == 1u64 <==> t / 8 == k,
{
}

proof fn lemma_rank_masks(r: int, s: int)
    requires
        0 <= r < 8,
        0 <= s < 64,
    ensures
        has_sq(spec_above_rank_mask(r), s) <==> s / 8 > r,
        has_sq(spec_below_rank_mask(r), s) <==> s / 8 < r,
        has_sq(0xFFu64 << ((r * 8) as u64), s) <==> s / 8 == r,
        has_sq(behind_one_rank(true, r), s) <==> (r >= 1 && s / 8 == r - 1),
        has_sq(behind_one_rank(false, r), s) <==> (r <= 6 && s / 8 == r + 1),
{
    lemma_has_ops(0, 0, s);
    if r < 7 {
        lemma_above_bits(r as u64, s as u64);
        lemma_row_bits((r + 1) as u64, s as u64);
    }
    if r >= 1 {
        lemma_below_bits(r as u64, s as u64);
        lemma_row_bits((r - 1) as u64, s as u64);
    }
    lemma_row_bits(r as u64, s as u64);
}

proof fn lemma_shift_right_bits(x: u64, k: u64, t: u64)
    by (bit_vector)
    requires
        k < 64,
        t < 64,
    ensures
        ((x >> k) >> t) & 1u64 == 1u64 <==> (t + k < 64 && (x >> ((t + k) as u64)) & 1u64 == 1u64),
{
}

proof fn lemma_shift_left_bits(x: u64, k: u64, t: u64)
    by (bit_vector)
    requires
        k < 64,
        t < 64,
    ensures
        ((x << k) >> t) & 1u64 == 1u64 <==> (t >= k && (x >> ((t - k) as u64)) & 1u64 == 1u64),
{
}

/// The squares the pawns of `e` attack, one square at a time.
proof fn lemma_pawn_attack_bits(e: u64, t: int)
    requires
        0 <= t < 64,
    ensures
        has_sq(enemy_pawn_attacks(e, true), t) <==> ((t + 9 < 64 && has_sq(e, t + 9) && (t + 9) % 8 != 0) || (t + 7
            < 64 && has_sq(e, t + 7) && (t + 7) % 8 != 7)),
        has_sq(enemy_pawn_attacks(e, false), t) <==> ((t >= 7 && has_sq(e, t - 7) && (t - 7) % 8 != 0) || (t >= 9
            && has_sq(e, t - 9) && (t - 9) % 8 != 7)),
{
    let ea = e & !A_FILE;
    let eh = e & !H_FILE;
    lemma_shift_right_bits(ea, 9, t as u64);
    lemma_shift_right_bits(eh, 7, t as u64);
    lemma_shift_left_bits(ea, 7, t as u64);
    lemma_shift_left_bits(eh, 9, t as u64);
    lemma_has_ops(ea >> 9u64, eh >> 7u64, t);
    lemma_has_ops(ea << 7u64, eh << 9u64, t);
    if t + 9 < 64 {
        lemma_has_ops(e, !A_FILE, t + 9);
        lemma_has_ops(A_FILE, A_FILE, t + 9);
        lemma_file_masks(0, t + 9);
    }
    if t + 7 < 64 {
        lemma_has_ops(e, !H_FILE, t + 7);
        lemma_has_ops(H_FILE, H_FILE, t + 7);
        lemma_file_masks(7, t + 7);
    }
    if t >= 7 {
        lemma_has_ops(e, !A_FILE, t - 7);
        lemma_has_ops(A_FILE, A_FILE, t - 7);
        lemma_file_masks(0, t - 7);
    }
    if t >= 9 {
        lemma_has_ops(e, !H_FILE, t - 9);
        lemma_has_ops(H_FILE, H_FILE, t - 9);
        lemma_file_masks(7, t - 9);
    }
}

/// A mask given by a condition on file and rank is mirrored by the mask of
/// the same condition on the mirrored rank.
proof fn lemma_mirrored_by(m: u64, m2: u64, p: spec_fn(int, int) -> bool)
    requires
        forall|s: int| 0 <= s < 64 ==> #[trigger] has_sq(m, s) == p(s % 8, s / 8),
        forall|s: int| 0 <= s < 64 ==> #[trigger] has_sq(m2, s) == p(s % 8, 7 - s / 8),
    ensures
        mirrored_squares(m, m2),
{
    assert forall|s: int| 0 <= s < 64 implies #[trigger] has_sq(m2, s) == has_sq(m, mirror_square(s)) by {
        lemma_mirror_square(s);
        assert(has_sq(m, mirror_square(s)) == p(mirror_square(s) % 8, mirror_square(s) / 8));
    }
}

proof fn lemma_mirrored_ops(a: u64, a2: u64, b: u64, b2: u64)
    requires
        mirrored_squares(a, a2),
        mirrored_squares(b, b2),
    ensures
        mirrored_squares(a & b, a2 & b2),
        mirrored_squares(a | b, a2 | b2),
        mirrored_squares(!a, !a2),
{
    assert forall|s: int| 0 <= s < 64 implies #[trigger] has_sq(a2 & b2, s) == has_sq(a & b, mirror_square(s))
        && has_sq(a2 | b2, s) == has_sq(a | b, mirror_square(s)) && has_sq(!a2, s) == has_sq(!a, mirror_square(s)) by {
        lemma_mirror_square(s);
        lemma_has_ops(a2, b2, s);
        lemma_has_ops(a, b, mirror_square(s));
    }
    assert forall|s: int| 0 <= s < 64 implies #[trigger] has_sq(a2 | b2, s) == has_sq(a | b, mirror_square(s)) by {
        lemma_mirror_square(s);
        lemma_has_ops(a2, b2, s);
        lemma_has_ops(a, b, mirror_square(s));
    }
    assert forall|s: int| 0 <= s < 64 implies #[trigger] has_sq(!a2, s) == has_sq(!a, mirror_square(s)) by {
        lemma_mirror_square(s);
        lemma_has_ops(a2, b2, s);
        lemma_has_ops(a, b, mirror_square(s));
    }
}

/// A mask of whole files is its own mirror image.
proof fn lemma_file_masks_mirrored(f: int)
    requires
        0 <= f < 8,
    ensures
        mirrored_squares(FILE_MASKS[f], FILE_MASKS[f]),
        mirrored_squares(ADJACENT_FILES[f], ADJACENT_FILES[f]),
{
    assert forall|s: int| 0 <= s < 64 implies #[trigger] has_sq(FILE_MASKS[f], s) == (|fl: int, rk: int| fl == f)(
        s % 8,
        s / 8,
    ) by {
        lemma_file_masks(f, s);
    }
    lemma_mirrored_by(FILE_MASKS[f], FILE_MASKS[f], |fl: int, rk: int| fl == f);
    assert forall|s: int| 0 <= s < 64 implies #[trigger] has_sq(ADJACENT_FILES[f], s) == (|fl: int, rk: int| fl == f
        - 1 || fl == f + 1)(s % 8, s / 8) by {
        lemma_adjacent_files(f, s);
    }
    lemma_mirrored_by(ADJACENT_FILES[f], ADJACENT_FILES[f], |fl: int, rk: int| fl == f - 1 || fl == f + 1);
}

/// The ranks ahead of a white pawn mirror the ranks ahead of a black one.
proof fn lemma_rank_masks_mirrored(r: int)
    requires
        0 <= r < 8,
    ensures
        mirrored_squares(spec_above_rank_mask(r), spec_below_rank_mask(7 - r)),
        mirrored_squares(
            (0xFFu64 << ((r * 8) as u64)) | behind_one_rank(true, r),
            (0xFFu64 << (((7 - r) * 8) as u64)) | behind_one_rank(false, 7 - r),
        ),
{
    assert forall|s: int| 0 <= s < 64 implies #[trigger] has_sq(spec_above_rank_mask(r), s) == (|fl: int, rk: int| rk
        > r)(s % 8, s / 8) by {
        lemma_rank_masks(r, s);
    }
    assert forall|s: int| 0 <= s < 64 implies #[trigger] has_sq(spec_below_rank_mask(7 - r), s) == (|fl: int, rk: int|
        rk > r)(s % 8, 7 - s / 8) by {
        lemma_rank_masks(7 - r, s);
    }
    lemma_mirrored_by(spec_above_rank_mask(r), spec_below_rank_mask(7 - r), |fl: int, rk: int| rk > r);
    let w = (0xFFu64 << ((r * 8) as u64)) | behind_one_rank(true, r);
    let b = (0xFFu64 << (((7 - r) * 8) as u64)) | behind_one_rank(false, 7 - r);
    let p = |fl: int, rk: int| rk == r || (r >= 1 && rk == r - 1);
    assert forall|s: int| 0 <= s < 64 implies #[trigger] has_sq(w, s) == p(s % 8, s / 8) by {
        lemma_rank_masks(r, s);
        lemma_has_ops(0xFFu64 << ((r * 8) as u64), behind_one_rank(true, r), s);
    }
    assert forall|s: int| 0 <= s < 64 implies #[trigger] has_sq(b, s) == p(s % 8, 7 - s / 8) by {
        lemma_rank_masks(7 - r, s);
        lemma_has_ops(0xFFu64 << (((7 - r) * 8) as u64), behind_one_rank(false, 7 - r), s);
    }
    lemma_mirrored_by(w, b, p);
}

/// The squares the black pawns attack mirror those the white pawns attack.
proof fn lemma_attacks_mirrored(e: u64, e2: u64)
    requires
        mirrored_squares(e, e2),
    ensures
        mirrored_squares(enemy_pawn_attacks(e, true), enemy_pawn_attacks(e2, false)),
{
    assert forall|t: int| 0 <= t < 64 implies #[trigger] has_sq(enemy_pawn_attacks(e2, false), t) == has_sq(
        enemy_pawn_attacks(e, true),
        mirror_square(t),
    ) by {
        let u = mirror_square(t);
        lemma_mirror_square(t);
        lemma_pawn_attack_bits(e2, t);
        lemma_pawn_attack_bits(e, u);
        if t >= 7 && (t - 7) % 8 != 0 {
            lemma_mirror_square(t - 7);
            assert(mirror_square(t - 7) == u + 9);
        }
        if u + 9 < 64 && (u + 9) % 8 != 0 {
            lemma_mirror_square(u + 9);
            assert(mirror_square(u + 9) == t - 7);
        }
        if t >= 9 && (t - 9) % 8 != 7 {
            lemma_mirror_square(t - 9);
            assert(mirror_square(t - 9) == u + 7);
        }
        if u + 7 < 64 && (u + 7) % 8 != 7 {
            lemma_mirror_square(u + 7);
            assert(mirror_square(u + 7) == t - 9);
        }
    }
}

/// `(1 << t) & x` is empty exactly when square `t` of `x` is not set.
proof fn lemma_bit_meets(x: u64, t: int)
    requires
        0 <= t < 64,
    ensures
        ((1u64 << (t as u64)) & x != 0) == has_sq(x, t),
{
    lemma_single_bit(t as u64);
    lemma_zero_iff_no_square((1u64 << (t as u64)) & x);
    lemma_has_ops(1u64 << (t as u64), x, t);
    assert forall|s: int| 0 <= s < 64 && s != t implies !#[trigger] has_sq((1u64 << (t as u64)) & x, s) by {
        lemma_has_ops(1u64 << (t as u64), x, s);
    }
}

/// A white pawn on `sq` scores as a black pawn on the mirrored square of the
/// mirrored position.
proof fn lemma_pawn_term_mirrored(f: u64, e: u64, f2: u64, e2: u64, phase: int, sq: int)
    requires
        mirrored_squares(f, f2),
        mirrored_squares(e, e2),
        0 <= sq < 64,
    ensures
        pawn_term(f, e, phase, true, sq) == pawn_term(f2, e2, phase, false, mirror_square(sq)),
{
    let file = sq % 8;
    let rank = sq / 8;
    let msq = mirror_square(sq);
    lemma_mirror_square(sq);
    lemma_file_masks_mirrored(file);
    lemma_rank_masks_mirrored(rank);
    // Passed pawns.
    let block = FILE_MASKS[file] | ADJACENT_FILES[file];
    lemma_mirrored_ops(FILE_MASKS[file], FILE_MASKS[file], ADJACENT_FILES[file], ADJACENT_FILES[file]);
    lemma_mirrored_ops(block, block, spec_above_rank_mask(rank), spec_below_rank_mask(7 - rank));
    lemma_mirrored_meet(e, e2, block & spec_above_rank_mask(rank), block & spec_below_rank_mask(7 - rank));
    assert(ahead_mask(true, rank) == spec_above_rank_mask(rank));
    assert(ahead_mask(false, 7 - rank) == spec_below_rank_mask(7 - rank));
    assert(passed_pawn_term(f, e, phase, true, sq) == passed_pawn_term(f2, e2, phase, false, msq));
    // Backward pawns.
    lemma_mirrored_meet(f, f2, ADJACENT_FILES[file], ADJACENT_FILES[file]);
    lemma_mirrored_ops(spec_above_rank_mask(rank), spec_below_rank_mask(7 - rank), spec_above_rank_mask(rank), spec_below_rank_mask(7 - rank));
    lemma_mirrored_ops(
        ADJACENT_FILES[file],
        ADJACENT_FILES[file],
        !spec_above_rank_mask(rank),
        !spec_below_rank_mask(7 - rank),
    );
    lemma_mirrored_meet(
        f,
        f2,
        ADJACENT_FILES[file] & !spec_above_rank_mask(rank),
        ADJACENT_FILES[file] & !spec_below_rank_mask(7 - rank),
    );
    lemma_attacks_mirrored(e, e2);
    if rank < 7 {
        lemma_mirror_square(sq + 8);
        assert(msq - 8 == mirror_square(sq + 8));
        lemma_bit_meets(enemy_pawn_attacks(e, true), sq + 8);
        lemma_bit_meets(enemy_pawn_attacks(e2, false), msq - 8);
        assert(has_sq(enemy_pawn_attacks(e2, false), msq - 8) == has_sq(
            enemy_pawn_attacks(e, true),
            mirror_square(msq - 8),
        ));
    }
    assert(backward_pawn_term(f, e, phase, true, sq) == backward_pawn_term(f2, e2, phase, false, msq));
    // Connected pawns.
    let near = (0xFFu64 << ((rank * 8) as u64)) | behind_one_rank(true, rank);
    let near2 = (0xFFu64 << (((7 - rank) * 8) as u64)) | behind_one_rank(false, 7 - rank);
    lemma_mirrored_ops(ADJACENT_FILES[file], ADJACENT_FILES[file], near, near2);
    lemma_mirrored_meet(f, f2, ADJACENT_FILES[file] & near, ADJACENT_FILES[file] & near2);
    assert(connected_pawn_term(f, phase, true, sq) == connected_pawn_term(f2, phase, false, msq));
}

/// The term of square `s` in a side's pawn score.
pub open spec fn pawn_square_term(f: u64, e: u64, phase: int, is_white: bool) -> spec_fn(int) -> int {
    |s: int|
        if has_sq(f, s) {
            pawn_term(f, e, phase, is_white, s)
        } else {
            0
        }
}

proof fn lemma_pawns_sum_terms(f: u64, e: u64, phase: int, is_white: bool, n: int)
    ensures
        pawns_sum(f, e, phase, is_white, n) == sum_upto(n, pawn_square_term(f, e, phase, is_white)),
    decreases n,
{
    if n > 0 {
        lemma_pawns_sum_terms(f, e, phase, is_white, n - 1);
    }
}

proof fn lemma_files_sum_mirrored(f: u64, f2: u64, n: int)
    requires
        mirrored_squares(f, f2),
        n <= 8,
    ensures
        files_sum(f2, n) == files_sum(f, n),
    decreases n,
{
    if n > 0 {
        lemma_files_sum_mirrored(f, f2, n - 1);
        let fl = n - 1;
        lemma_file_masks_mirrored(fl);
        lemma_mirrored_ops(f, f2, FILE_MASKS[fl], FILE_MASKS[fl]);
        lemma_mirrored_popcount(f & FILE_MASKS[fl], f2 & FILE_MASKS[fl]);
        lemma_mirrored_meet(f, f2, FILE_MASKS[fl], FILE_MASKS[fl]);
        lemma_mirrored_meet(f, f2, ADJACENT_FILES[fl], ADJACENT_FILES[fl]);
        assert(file_term(f2, fl) == file_term(f, fl));
    }
}

/// Black's pawns are scored exactly as the mirror image of White's: with
/// both sides' pawns mirrored rank for rank, the passed, backward,
/// connected, doubled and isolated pawn terms of Black equal White's.
pub proof fn lemma_black_pawns_mirror_white(f: u64, e: u64, f2: u64, e2: u64, phase: int)
    requires
        mirrored_squares(f, f2),
        mirrored_squares(e, e2),
    ensures
        spec_pawn_structure_for_color(f2, e2, phase, false) == spec_pawn_structure_for_color(f, e, phase, true),
{
    let tw = pawn_square_term(f, e, phase, true);
    let tb = pawn_square_term(f2, e2, phase, false);
    lemma_pawns_sum_terms(f, e, phase, true, 64);
    lemma_pawns_sum_terms(f2, e2, phase, false, 64);
    lemma_sum_mirror(tw);
    assert forall|u: int| 0 <= u < 64 implies #[trigger] tb(u) == mirrored_terms(tw)(u) by {
        lemma_mirror_square(u);
        lemma_pawn_term_mirrored(f, e, f2, e2, phase, mirror_square(u));
        assert(has_sq(f2, u) == has_sq(f, mirror_square(u)));
    }
    lemma_sum_congruent(64, tb, mirrored_terms(tw));
    lemma_files_sum_mirrored(f, f2, 8);
}

} // verus!
