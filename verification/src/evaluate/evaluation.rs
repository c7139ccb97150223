//! Position evaluation functions and game state checking.
use vstd::prelude::*;

use crate::bitboard::{count_ones, has_sq, overlaps, popcount, ALL, EMPTY};
use crate::board::{Board, BoardModel, Pieces};
use crate::piece::{spec_piece_index, Color, Piece};
use crate::targets::{attack_targets, bishop_attacks, king_attacks, knight_attacks, spec_attack_targets};

use crate::bitboard::{A_FILE, H_FILE, RANK_2, RANK_7};

use super::evaluation_tables::{
    ADJACENT_FILES, BACKWARD_PAWN_PENALTY_EG, BACKWARD_PAWN_PENALTY_MG, BISHOP_MOBILITY_EG, BISHOP_MOBILITY_MG,
    BISHOP_PAIR_BONUS_EG, BISHOP_PAIR_BONUS_MG, BONUS_TABLES_EG, BONUS_TABLES_MG, CONNECTED_PAWN_BONUS_EG,
    CONNECTED_PAWN_BONUS_MG, DOUBLED_PAWN_PENALTY, FILE_MASKS, ISOLATED_PAWN_PENALTY, KING_ATTACK_UNIT_PENALTY,
    KING_OPEN_FILE_PENALTY, KNIGHT_MOBILITY_EG, KNIGHT_MOBILITY_MG, KNIGHT_OUTPOST_BONUS_EG, KNIGHT_OUTPOST_BONUS_MG,
    KNIGHT_OUTPOST_SUPPORTED_EG, KNIGHT_OUTPOST_SUPPORTED_MG, MATERIAL_VALUES, MAX_PHASE, PASSED_PAWN_BONUS_EG,
    PASSED_PAWN_BONUS_MG, PAWN_SHIELD_BONUS, ROOK_ON_SEVENTH_BONUS_EG, ROOK_ON_SEVENTH_BONUS_MG,
    ROOK_OPEN_FILE_BONUS_EG, ROOK_OPEN_FILE_BONUS_MG, ROOK_SEMI_OPEN_FILE_BONUS_EG, ROOK_SEMI_OPEN_FILE_BONUS_MG,
};

verus! {

/// Division rounding toward zero, as Rust's integer division does.
pub open spec fn trunc_div(n: int, d: int) -> int {
    if n >= 0 {
        n / d
    } else {
        -((-n) / d)
    }
}

/// The blend of a midgame value `mg` and an endgame value `eg` at game phase
/// `phase` (24 = full midgame, 0 = pure endgame), rounded toward zero.
pub open spec fn spec_taper(mg: int, eg: int, phase: int) -> int {
    trunc_div(mg * phase + eg * (24 - phase), 24)
}

proof fn lemma_taper_bounds(mg: int, eg: int, phase: int)
    requires
        0 <= phase <= 24,
        -32768 <= mg <= 32767,
        -32768 <= eg <= 32767,
    ensures
        (if mg <= eg { mg } else { eg }) <= spec_taper(mg, eg, phase) <= (if mg <= eg { eg } else { mg }),
{
    let lo = if mg <= eg { mg } else { eg };
    let hi = if mg <= eg { eg } else { mg };
    let n = mg * phase + eg * (24 - phase);
    assert(24 * lo <= n <= 24 * hi) by (nonlinear_arith)
        requires
            0 <= phase <= 24,
            lo <= mg <= hi,
            lo <= eg <= hi,
            n == mg * phase + eg * (24 - phase),
    ;
    if n >= 0 {
        assert(lo <= n / 24 <= hi) by (nonlinear_arith)
            requires
                24 * lo <= n <= 24 * hi,
                n >= 0,
        ;
    } else {
        assert(lo <= -((-n) / 24) <= hi) by (nonlinear_arith)
            requires
                24 * lo <= n <= 24 * hi,
                n < 0,
        ;
    }
}

/// Linearly interpolates between midgame and endgame scores based on game phase.
pub fn taper(mg: i16, eg: i16, phase: u8) -> (r: i16)
    requires
        phase <= MAX_PHASE,
    ensures
        r == spec_taper(mg as int, eg as int, phase as int),
        (if mg <= eg { mg } else { eg }) <= r <= (if mg <= eg { eg } else { mg }),
{
    proof { lemma_taper_bounds(mg as int, eg as int, phase as int); }
    let p: i32 = phase as i32;
    let q: i32 = (MAX_PHASE - phase) as i32;
    assert(-32768 * 24 <= mg as i32 * p <= 32767 * 24 && -32768 * 24 <= eg as i32 * q <= 32767 * 24)
        by (nonlinear_arith)
        requires
            0 <= p <= 24,
            0 <= q <= 24,
            -32768 <= mg <= 32767,
            -32768 <= eg <= 32767,
    ;
    let a: i32 = mg as i32 * p;
    let b: i32 = eg as i32 * q;
    let n: i32 = a + b;
    (n / 24) as i16
}

/// Sum of `f(0) + .. + f(n - 1)`.
pub open spec fn sum_upto(n: int, f: spec_fn(int) -> int) -> int
    decreases n,
{
    if n <= 0 {
        0
    } else {
        sum_upto(n - 1, f) + f(n - 1)
    }
}

/// A sum of `n` terms, each between `lo` and `hi`, lies between `n * lo` and `n * hi`.
pub proof fn lemma_sum_upto_bounds(n: int, f: spec_fn(int) -> int, lo: int, hi: int)
    requires
        n >= 0,
        forall|i: int| 0 <= i < n ==> lo <= #[trigger] f(i) <= hi,
    ensures
        n * lo <= sum_upto(n, f) <= n * hi,
    decreases n,
{
    if n > 0 {
        lemma_sum_upto_bounds(n - 1, f, lo, hi);
        assert((n - 1) * lo + lo == n * lo) by (nonlinear_arith);
        assert((n - 1) * hi + hi == n * hi) by (nonlinear_arith);
    }
}

/// The phase contribution of one side: knights and bishops 1, rooks 2, queens 4.
pub open spec fn side_phase(ps: Pieces) -> int {
    (popcount(ps.knights) + popcount(ps.bishops) + 2 * popcount(ps.rooks) + 4 * popcount(ps.queens)) as int
}

/// The phase contribution of all pieces, before clamping.
pub open spec fn raw_phase(m: BoardModel) -> int {
    side_phase(m.white) + side_phase(m.black)
}

/// The game phase: the phase weights of all pieces, capped at 24
/// (24 = opening with every piece, 0 = pure endgame).
pub open spec fn spec_game_phase(m: BoardModel) -> int {
    if raw_phase(m) > 24 {
        24
    } else {
        raw_phase(m)
    }
}

/// Computes the game phase (0 = pure endgame, 24 = opening/full pieces).
/// The weights are added up in a `u8`; boards whose weights exceed 255 are
/// outside its domain.
pub fn game_phase(board: &Board) -> (r: u8)
    requires
        raw_phase(board@) <= 255,
    ensures
        r == spec_game_phase(board@),
        r <= MAX_PHASE,
{
    let w = board.pieces(Color::White);
    let b = board.pieces(Color::Black);
    let phase: u32 = count_ones(w.knights) + count_ones(w.bishops) + 2 * count_ones(w.rooks) + 4 * count_ones(
        w.queens,
    ) + count_ones(b.knights) + count_ones(b.bishops) + 2 * count_ones(b.rooks) + 4 * count_ones(b.queens);
    if phase > MAX_PHASE as u32 {
        MAX_PHASE
    } else {
        phase as u8
    }
}

/// The index, in a piece-square table written from White's side with the
/// eighth rank first, of square `s` for a piece of `color`: White reads the
/// table with ranks flipped, Black with files flipped.
pub open spec fn table_index(color: Color, s: int) -> int {
    match color {
        Color::White => (7 - s / 8) * 8 + s % 8,
        Color::Black => (s / 8) * 8 + (7 - s % 8),
    }
}

/// What a piece of kind number `k` of `color` on square `s` is worth: its
/// material value plus its tapered piece-square bonus.
pub open spec fn piece_square_value(color: Color, phase: int, k: int, s: int) -> int {
    MATERIAL_VALUES[k] as int + spec_taper(
        BONUS_TABLES_MG[k][table_index(color, s)] as int,
        BONUS_TABLES_EG[k][table_index(color, s)] as int,
        phase,
    )
}

/// The value of the pieces of kind number `k` on the squares below `n`.
pub open spec fn kind_material(ps: Pieces, color: Color, phase: int, k: int, n: int) -> int
    decreases n,
{
    if n <= 0 {
        0
    } else {
        kind_material(ps, color, phase, k, n - 1) + if has_sq(
            ps.spec_locate(crate::board::piece_of_slot(k)),
            n - 1,
        ) {
            piece_square_value(color, phase, k, n - 1)
        } else {
            0
        }
    }
}

/// The value of the pieces of the kinds numbered below `k`.
pub open spec fn side_material(ps: Pieces, color: Color, phase: int, k: int) -> int
    decreases k,
{
    if k <= 0 {
        0
    } else {
        side_material(ps, color, phase, k - 1) + kind_material(ps, color, phase, k - 1, 64)
    }
}

/// The material score of one side: each piece's value plus its piece-square bonus.
pub open spec fn spec_player_material_score(m: BoardModel, color: Color, phase: int) -> int {
    side_material(m.pieces(color), color, phase, 6)
}

proof fn lemma_kind_material_bounds(ps: Pieces, color: Color, phase: int, k: int, n: int)
    requires
        0 <= phase <= 24,
        0 <= k < 6,
        0 <= n <= 64,
    ensures
        -65536 * n <= kind_material(ps, color, phase, k, n) <= 65536 * n,
    decreases n,
{
    if n > 0 {
        lemma_kind_material_bounds(ps, color, phase, k, n - 1);
        let ti = table_index(color, n - 1);
        lemma_taper_bounds(BONUS_TABLES_MG[k][ti] as int, BONUS_TABLES_EG[k][ti] as int, phase);
    }
}

proof fn lemma_side_material_bounds(ps: Pieces, color: Color, phase: int, k: int)
    requires
        0 <= phase <= 24,
        0 <= k <= 6,
    ensures
        -4194304 * k <= side_material(ps, color, phase, k) <= 4194304 * k,
    decreases k,
{
    if k > 0 {
        lemma_side_material_bounds(ps, color, phase, k - 1);
        lemma_kind_material_bounds(ps, color, phase, k - 1, 64);
    }
}

/// The kind of piece numbered `k` (pawn 0 .. king 5).
pub fn piece_of_index(k: usize) -> (r: Piece)
    requires
        k < 6,
    ensures
        r == crate::board::piece_of_slot(k as int),
{
    if k == 0 {
        Piece::Pawn
    } else if k == 1 {
        Piece::Knight
    } else if k == 2 {
        Piece::Bishop
    } else if k == 3 {
        Piece::Rook
    } else if k == 4 {
        Piece::Queen
    } else {
        Piece::King
    }
}

fn table_index_of(color: Color, s: u8) -> (r: usize)
    requires
        s < 64,
    ensures
        r == table_index(color, s as int),
        r < 64,
{
    let rank = (s / 8) as usize;
    let file = (s % 8) as usize;
    match color {
        Color::White => (7 - rank) * 8 + file,
        Color::Black => rank * 8 + (7 - file),
    }
}

/// Returns the material score of the given player: each piece's value plus
/// its tapered piece-square bonus. The score is an `i16`: boards whose score
/// leaves that range are outside the domain.
pub fn player_material_score(board: &Board, color: Color, phase: u8) -> (r: i16)
    requires
        phase <= MAX_PHASE,
        -32768 <= spec_player_material_score(board@, color, phase as int) <= 32767,
    ensures
        r == spec_player_material_score(board@, color, phase as int),
{
    let pieces = board.pieces(color);
    let mut material: i32 = 0;
    let mut k: usize = 0;
    while k < 6
        invariant
            k <= 6,
            phase <= 24,
            pieces == board@.pieces(color),
            material == side_material(pieces, color, phase as int, k as int),
        decreases 6 - k,
    {
        proof { lemma_side_material_bounds(pieces, color, phase as int, k as int); }
        let piece = piece_of_index(k);
        let squares = pieces.locate(piece);
        let mut kind_total: i32 = 0;
        let mut s: u8 = 0;
        while s < 64
            invariant
                s <= 64,
                k < 6,
                phase <= 24,
                squares == pieces.spec_locate(crate::board::piece_of_slot(k as int)),
                kind_total == kind_material(pieces, color, phase as int, k as int, s as int),
            decreases 64 - s,
        {
            proof { lemma_kind_material_bounds(pieces, color, phase as int, k as int, s as int); }
            if (squares >> s) & 1 == 1 {
                let ti = table_index_of(color, s);
                let bonus = taper(BONUS_TABLES_MG[k][ti], BONUS_TABLES_EG[k][ti], phase);
                kind_total = kind_total + MATERIAL_VALUES[k] as i32 + bonus as i32;
            }
            s = s + 1;
        }
        proof { lemma_kind_material_bounds(pieces, color, phase as int, k as int, 64); }
        material = material + kind_total;
        k = k + 1;
    }
    material as i16
}

/// The squares strictly above rank `rank` (0-based).
pub open spec fn spec_above_rank_mask(rank: int) -> u64 {
    if rank >= 7 {
        EMPTY
    } else {
        ALL << (((rank + 1) * 8) as u64)
    }
}

/// The squares strictly below rank `rank` (0-based).
pub open spec fn spec_below_rank_mask(rank: int) -> u64 {
    if rank == 0 {
        EMPTY
    } else {
        ALL >> (((8 - rank) * 8) as u64)
    }
}

/// Returns a mask of all squares strictly above the given rank (0-indexed).
pub fn above_rank_mask(rank: usize) -> (r: u64)
    ensures
        r == spec_above_rank_mask(rank as int),
{
    if rank >= 7 {
        EMPTY
    } else {
        ALL << ((rank + 1) * 8)
    }
}

/// Returns a mask of all squares strictly below the given rank (0-indexed).
pub fn below_rank_mask(rank: usize) -> (r: u64)
    requires
        rank < 8,
    ensures
        r == spec_below_rank_mask(rank as int),
{
    if rank == 0 {
        EMPTY
    } else {
        ALL >> ((8 - rank) * 8)
    }
}

/// The squares the enemy pawns attack: White's opponent (Black) attacks
/// diagonally downward, Black's opponent (White) diagonally upward.
pub open spec fn enemy_pawn_attacks(enemy_pawns: u64, is_white: bool) -> u64 {
    if is_white {
        ((enemy_pawns & !A_FILE) >> 9u64) | ((enemy_pawns & !H_FILE) >> 7u64)
    } else {
        ((enemy_pawns & !A_FILE) << 7u64) | ((enemy_pawns & !H_FILE) << 9u64)
    }
}

/// The squares ahead of rank `rank` for the side moving up (`is_white`) or down.
pub open spec fn ahead_mask(is_white: bool, rank: int) -> u64 {
    if is_white {
        spec_above_rank_mask(rank)
    } else {
        spec_below_rank_mask(rank)
    }
}

/// Passed pawn bonus: no enemy pawn on the pawn's file or an adjacent file ahead of it.
pub open spec fn passed_pawn_term(friendly: u64, enemy: u64, phase: int, is_white: bool, sq: int) -> int {
    let file = sq % 8;
    let rank = sq / 8;
    let block_mask = FILE_MASKS[file] | ADJACENT_FILES[file];
    if enemy & (block_mask & ahead_mask(is_white, rank)) == 0 {
        let bonus_rank = if is_white { rank } else { 7 - rank };
        spec_taper(PASSED_PAWN_BONUS_MG[bonus_rank] as int, PASSED_PAWN_BONUS_EG[bonus_rank] as int, phase)
    } else {
        0
    }
}

/// Backward pawn penalty: a pawn that is not isolated, has no friendly pawn on an
/// adjacent file level with or behind it, and whose stop square an enemy pawn attacks.
pub open spec fn backward_pawn_term(friendly: u64, enemy: u64, phase: int, is_white: bool, sq: int) -> int {
    let file = sq % 8;
    let rank = sq / 8;
    let is_isolated = friendly & ADJACENT_FILES[file] == 0;
    let behind_mask = ADJACENT_FILES[file] & !ahead_mask(is_white, rank);
    let stop_on_board = if is_white { sq + 8 < 64 } else { sq >= 8 };
    let stop = if is_white { sq + 8 } else { sq - 8 };
    if !is_isolated && friendly & behind_mask == 0 && stop_on_board && (1u64 << (stop as u64)) & enemy_pawn_attacks(
        enemy,
        is_white,
    ) != 0 {
        -spec_taper(BACKWARD_PAWN_PENALTY_MG as int, BACKWARD_PAWN_PENALTY_EG as int, phase)
    } else {
        0
    }
}

/// The rank behind `rank` for the side moving up (`is_white`) or down, as a mask;
/// empty when the pawn stands on its own back rank.
pub open spec fn behind_one_rank(is_white: bool, rank: int) -> u64 {
    if is_white && rank >= 1 {
        0xFFu64 << (((rank - 1) * 8) as u64)
    } else if !is_white && rank <= 6 {
        0xFFu64 << (((rank + 1) * 8) as u64)
    } else {
        EMPTY
    }
}

/// Connected pawn bonus: a friendly pawn on an adjacent file, level or one rank behind.
pub open spec fn connected_pawn_term(friendly: u64, phase: int, is_white: bool, sq: int) -> int {
    let file = sq % 8;
    let rank = sq / 8;
    let same_rank_mask = 0xFFu64 << ((rank * 8) as u64);
    let support_zone = ADJACENT_FILES[file] & (same_rank_mask | behind_one_rank(is_white, rank));
    if friendly & support_zone != 0 {
        spec_taper(CONNECTED_PAWN_BONUS_MG as int, CONNECTED_PAWN_BONUS_EG as int, phase)
    } else {
        0
    }
}

/// The score of a friendly pawn on square `sq`.
pub open spec fn pawn_term(friendly: u64, enemy: u64, phase: int, is_white: bool, sq: int) -> int {
    passed_pawn_term(friendly, enemy, phase, is_white, sq) + backward_pawn_term(
        friendly,
        enemy,
        phase,
        is_white,
        sq,
    ) + connected_pawn_term(friendly, phase, is_white, sq)
}

/// The scores of the friendly pawns on the squares below `n`.
pub open spec fn pawns_sum(friendly: u64, enemy: u64, phase: int, is_white: bool, n: int) -> int
    decreases n,
{
    if n <= 0 {
        0
    } else {
        pawns_sum(friendly, enemy, phase, is_white, n - 1) + if has_sq(friendly, n - 1) {
            pawn_term(friendly, enemy, phase, is_white, n - 1)
        } else {
            0
        }
    }
}

/// The doubled and isolated pawn penalties of file `f`.
pub open spec fn file_term(friendly: u64, f: int) -> int {
    let count = popcount(friendly & FILE_MASKS[f]);
    let doubled = if count > 1 { (count - 1) * DOUBLED_PAWN_PENALTY } else { 0 };
    let isolated = if friendly & FILE_MASKS[f] != 0 && friendly & ADJACENT_FILES[f] == 0 {
        ISOLATED_PAWN_PENALTY as int
    } else {
        0
    };
    -doubled - isolated
}

/// The file penalties of the files below `n`.
pub open spec fn files_sum(friendly: u64, n: int) -> int
    decreases n,
{
    if n <= 0 {
        0
    } else {
        files_sum(friendly, n - 1) + file_term(friendly, n - 1)
    }
}

/// The pawn structure score of one side: passed, backward and connected pawns,
/// doubled and isolated files.
pub open spec fn spec_pawn_structure_for_color(friendly: u64, enemy: u64, phase: int, is_white: bool) -> int {
    pawns_sum(friendly, enemy, phase, is_white, 64) + files_sum(friendly, 8)
}

proof fn lemma_pawn_tables()
    ensures
        forall|i: int| 0 <= i < 8 ==> 0 <= #[trigger] PASSED_PAWN_BONUS_MG[i] <= 100,
        forall|i: int| 0 <= i < 8 ==> 0 <= #[trigger] PASSED_PAWN_BONUS_EG[i] <= 100,
{
}

proof fn lemma_pawn_term_bounds(friendly: u64, enemy: u64, phase: int, is_white: bool, sq: int)
    requires
        0 <= phase <= 24,
        0 <= sq < 64,
    ensures
        -15 <= pawn_term(friendly, enemy, phase, is_white, sq) <= 115,
{
    lemma_pawn_tables();
    let rank = sq / 8;
    let bonus_rank = if is_white { rank } else { 7 - rank };
    assert(0 <= bonus_rank < 8);
    lemma_taper_bounds(PASSED_PAWN_BONUS_MG[bonus_rank] as int, PASSED_PAWN_BONUS_EG[bonus_rank] as int, phase);
    lemma_taper_bounds(BACKWARD_PAWN_PENALTY_MG as int, BACKWARD_PAWN_PENALTY_EG as int, phase);
    lemma_taper_bounds(CONNECTED_PAWN_BONUS_MG as int, CONNECTED_PAWN_BONUS_EG as int, phase);
}

proof fn lemma_pawns_sum_bounds(friendly: u64, enemy: u64, phase: int, is_white: bool, n: int)
    requires
        0 <= phase <= 24,
        0 <= n <= 64,
    ensures
        -15 * n <= pawns_sum(friendly, enemy, phase, is_white, n) <= 115 * n,
    decreases n,
{
    if n > 0 {
        lemma_pawns_sum_bounds(friendly, enemy, phase, is_white, n - 1);
        lemma_pawn_term_bounds(friendly, enemy, phase, is_white, n - 1);
    }
}

proof fn lemma_files_sum_bounds(friendly: u64, n: int)
    requires
        0 <= n <= 8,
    ensures
        -642 * n <= files_sum(friendly, n) <= 0,
    decreases n,
{
    if n > 0 {
        lemma_files_sum_bounds(friendly, n - 1);
        crate::bitboard::lemma_count_below_bounds(friendly & FILE_MASKS[n - 1], 64);
    }
}

/// Evaluates pawn structure for one side: passed, backward and connected
/// pawns, doubled and isolated files. `is_white` determines which way is ahead.
pub fn pawn_structure_for_color(friendly_pawns: u64, enemy_pawns: u64, phase: u8, is_white: bool) -> (r: i16)
    requires
        phase <= MAX_PHASE,
    ensures
        r == spec_pawn_structure_for_color(friendly_pawns, enemy_pawns, phase as int, is_white),
{
    // White pawns attack diagonally up-left and up-right; black pawns down-left and down-right.
    let enemy_attacks = if is_white {
        ((enemy_pawns & !A_FILE) >> 9) | ((enemy_pawns & !H_FILE) >> 7)
    } else {
        ((enemy_pawns & !A_FILE) << 7) | ((enemy_pawns & !H_FILE) << 9)
    };
    let mut score: i32 = 0;
    let mut sq: u8 = 0;
    while sq < 64
        invariant
            sq <= 64,
            phase <= 24,
            enemy_attacks == enemy_pawn_attacks(enemy_pawns, is_white),
            score == pawns_sum(friendly_pawns, enemy_pawns, phase as int, is_white, sq as int),
        decreases 64 - sq,
    {
        proof {
            lemma_pawns_sum_bounds(friendly_pawns, enemy_pawns, phase as int, is_white, sq as int);
            lemma_pawns_sum_bounds(friendly_pawns, enemy_pawns, phase as int, is_white, sq as int + 1);
        }
        if (friendly_pawns >> sq) & 1 == 1 {
            let file = (sq % 8) as usize;
            let rank = (sq / 8) as usize;
            let mut term: i32 = 0;

            // Passed pawn: no enemy pawn on this or an adjacent file ahead of it.
            let block_mask = FILE_MASKS[file] | ADJACENT_FILES[file];
            let ahead = if is_white {
                above_rank_mask(rank)
            } else {
                below_rank_mask(rank)
            };
            let ahead_block = block_mask & ahead;
            let is_isolated = (friendly_pawns & ADJACENT_FILES[file]) == 0;
            if (enemy_pawns & ahead_block) == 0 {
                let bonus_rank = if is_white { rank } else { 7 - rank };
                term = term + taper(PASSED_PAWN_BONUS_MG[bonus_rank], PASSED_PAWN_BONUS_EG[bonus_rank], phase) as i32;
            }

            // Backward pawn: no support level or behind, and the stop square is
            // attacked by an enemy pawn. Isolated pawns are not also backward.
            if !is_isolated {
                let behind_mask = ADJACENT_FILES[file] & !ahead;
                let has_support_behind = (friendly_pawns & behind_mask) != 0;
                if !has_support_behind {
                    let stop_sq: u8 = if is_white { sq + 8 } else { sq.wrapping_sub(8) };
                    if stop_sq < 64 {
                        let stop_bb = 1u64 << stop_sq;
                        if stop_bb & enemy_attacks != 0 {
                            term = term - taper(BACKWARD_PAWN_PENALTY_MG, BACKWARD_PAWN_PENALTY_EG, phase) as i32;
                        }
                    }
                }
            }

            // Connected pawn: a friendly pawn on an adjacent file, level or one rank behind.
            let same_rank_mask = 0xFFu64 << (rank * 8);
            let behind_one = if is_white && rank >= 1 {
                0xFFu64 << ((rank - 1) * 8)
            } else if !is_white && rank <= 6 {
                0xFFu64 << ((rank + 1) * 8)
            } else {
                EMPTY
            };
            let support_zone = ADJACENT_FILES[file] & (same_rank_mask | behind_one);
            if (friendly_pawns & support_zone) != 0 {
                term = term + taper(CONNECTED_PAWN_BONUS_MG, CONNECTED_PAWN_BONUS_EG, phase) as i32;
            }
            proof { lemma_pawn_term_bounds(friendly_pawns, enemy_pawns, phase as int, is_white, sq as int); }
            assert(term == pawn_term(friendly_pawns, enemy_pawns, phase as int, is_white, sq as int));
            score = score + term;
        }
        sq = sq + 1;
    }

    // Doubled and isolated pawns, file by file.
    proof { lemma_pawns_sum_bounds(friendly_pawns, enemy_pawns, phase as int, is_white, 64); }
    let mut file_idx: usize = 0;
    while file_idx < 8
        invariant
            file_idx <= 8,
            score == pawns_sum(friendly_pawns, enemy_pawns, phase as int, is_white, 64) + files_sum(
                friendly_pawns,
                file_idx as int,
            ),
            -960 <= pawns_sum(friendly_pawns, enemy_pawns, phase as int, is_white, 64) <= 7360,
        decreases 8 - file_idx,
    {
        proof {
            lemma_files_sum_bounds(friendly_pawns, file_idx as int);
            crate::bitboard::lemma_count_below_bounds(friendly_pawns & FILE_MASKS[file_idx as int], 64);
        }
        let file_mask = FILE_MASKS[file_idx];
        let count = count_ones(friendly_pawns & file_mask);
        let mut term: i32 = 0;
        if count > 1 {
            term = term - (count - 1) as i32 * DOUBLED_PAWN_PENALTY as i32;
        }
        if (friendly_pawns & file_mask) != 0 && (friendly_pawns & ADJACENT_FILES[file_idx]) == 0 {
            term = term - ISOLATED_PAWN_PENALTY as i32;
        }
        assert(term == file_term(friendly_pawns, file_idx as int));
        score = score + term;
        file_idx = file_idx + 1;
    }
    proof { lemma_files_sum_bounds(friendly_pawns, 8); }
    score as i16
}

/// Evaluates pawn structure: the difference between White's and Black's.
pub fn pawn_structure_eval(white_pawns: u64, black_pawns: u64, phase: u8) -> (r: i16)
    requires
        phase <= MAX_PHASE,
    ensures
        r == spec_pawn_structure_for_color(white_pawns, black_pawns, phase as int, true)
            - spec_pawn_structure_for_color(black_pawns, white_pawns, phase as int, false),
{
    let white_score = pawn_structure_for_color(white_pawns, black_pawns, phase, true);
    let black_score = pawn_structure_for_color(black_pawns, white_pawns, phase, false);
    proof {
        lemma_pawn_structure_bounds(white_pawns, black_pawns, phase as int, true);
        lemma_pawn_structure_bounds(black_pawns, white_pawns, phase as int, false);
    }
    white_score - black_score
}

proof fn lemma_pawn_structure_bounds(friendly: u64, enemy: u64, phase: int, is_white: bool)
    requires
        0 <= phase <= 24,
    ensures
        -6096 <= spec_pawn_structure_for_color(friendly, enemy, phase, is_white) <= 7360,
{
    lemma_pawns_sum_bounds(friendly, enemy, phase, is_white, 64);
    lemma_files_sum_bounds(friendly, 8);
}


/// The sum of `f(t)` over the squares `t` of `b` below `n`.
pub open spec fn squares_sum(b: u64, n: int, f: spec_fn(int) -> int) -> int
    decreases n,
{
    if n <= 0 {
        0
    } else {
        squares_sum(b, n - 1, f) + if has_sq(b, n - 1) {
            f(n - 1)
        } else {
            0
        }
    }
}

/// A sum over at most `n` squares of terms between `lo <= 0` and `hi >= 0`.
pub proof fn lemma_squares_sum_bounds(b: u64, n: int, f: spec_fn(int) -> int, lo: int, hi: int)
    requires
        0 <= n <= 64,
        lo <= 0 <= hi,
        forall|t: int| 0 <= t < 64 ==> lo <= #[trigger] f(t) <= hi,
    ensures
        n * lo <= squares_sum(b, n, f) <= n * hi,
    decreases n,
{
    if n > 0 {
        lemma_squares_sum_bounds(b, n - 1, f, lo, hi);
        assert((n - 1) * lo + lo == n * lo) by (nonlinear_arith);
        assert((n - 1) * hi + hi == n * hi) by (nonlinear_arith);
    }
}

/// Two sums over disjoint bitboards of terms between `0` and `hi` add up to at most `n * hi`.
pub proof fn lemma_disjoint_squares_sums(a: u64, b: u64, n: int, f: spec_fn(int) -> int, g: spec_fn(int) -> int, hi: int)
    requires
        0 <= n <= 64,
        a & b == 0,
        hi >= 0,
        forall|t: int| 0 <= t < 64 ==> 0 <= #[trigger] f(t) <= hi,
        forall|t: int| 0 <= t < 64 ==> 0 <= #[trigger] g(t) <= hi,
    ensures
        0 <= squares_sum(a, n, f) + squares_sum(b, n, g) <= n * hi,
    decreases n,
{
    if n > 0 {
        lemma_disjoint_squares_sums(a, b, n - 1, f, g, hi);
        crate::bitboard::lemma_has_ops(a, b, n - 1);
        crate::bitboard::lemma_has_ops(0, 0, n - 1);
        assert((n - 1) * hi + hi == n * hi) by (nonlinear_arith);
    }
}

// ---------------------------------------------------------------------------
// Piece activity
// ---------------------------------------------------------------------------

/// Whether a knight of the side moving up (`is_white`) stands on an outpost rank:
/// ranks 4 to 6 for White, 3 to 5 for Black.
pub open spec fn on_outpost_rank(is_white: bool, rank: int) -> bool {
    if is_white {
        3 <= rank <= 5
    } else {
        2 <= rank <= 4
    }
}

/// The bonus of a knight on `sq`: an outpost that no enemy pawn on an adjacent
/// file ahead can attack, with an extra bonus when a friendly pawn on an
/// adjacent file one rank behind supports it.
pub open spec fn knight_activity_term(is_white: bool, friendly: u64, enemy: u64, phase: int, sq: int) -> int {
    let rank = sq / 8;
    let file = sq % 8;
    if on_outpost_rank(is_white, rank) && enemy & (ADJACENT_FILES[file] & ahead_mask(is_white, rank)) == 0 {
        let behind_rank = if is_white { rank - 1 } else { rank + 1 };
        let support_mask = ADJACENT_FILES[file] & (0xFFu64 << ((behind_rank * 8) as u64));
        spec_taper(KNIGHT_OUTPOST_BONUS_MG as int, KNIGHT_OUTPOST_BONUS_EG as int, phase) + if friendly
            & support_mask != 0 {
            spec_taper(KNIGHT_OUTPOST_SUPPORTED_MG as int, KNIGHT_OUTPOST_SUPPORTED_EG as int, phase)
        } else {
            0
        }
    } else {
        0
    }
}

pub open spec fn knight_activity_fn(is_white: bool, friendly: u64, enemy: u64, phase: int) -> spec_fn(int) -> int {
    |sq: int| knight_activity_term(is_white, friendly, enemy, phase, sq)
}

/// The seventh rank from the side's point of view.
pub open spec fn seventh_rank(is_white: bool) -> u64 {
    if is_white {
        RANK_7
    } else {
        RANK_2
    }
}

/// The bonus of a rook on `sq`: an open file (no pawns), else a semi-open file
/// (no friendly pawns); and the seventh rank.
pub open spec fn rook_activity_term(is_white: bool, all_pawns: u64, friendly: u64, phase: int, sq: int) -> int {
    let rook_file = FILE_MASKS[sq % 8];
    (if all_pawns & rook_file == 0 {
        spec_taper(ROOK_OPEN_FILE_BONUS_MG as int, ROOK_OPEN_FILE_BONUS_EG as int, phase)
    } else if friendly & rook_file == 0 {
        spec_taper(ROOK_SEMI_OPEN_FILE_BONUS_MG as int, ROOK_SEMI_OPEN_FILE_BONUS_EG as int, phase)
    } else {
        0
    }) + if (1u64 << (sq as u64)) & seventh_rank(is_white) != 0 {
        spec_taper(ROOK_ON_SEVENTH_BONUS_MG as int, ROOK_ON_SEVENTH_BONUS_EG as int, phase)
    } else {
        0
    }
}

pub open spec fn rook_activity_fn(is_white: bool, all_pawns: u64, friendly: u64, phase: int) -> spec_fn(int) -> int {
    |sq: int| rook_activity_term(is_white, all_pawns, friendly, phase, sq)
}

/// The piece activity score of one side: bishop pair, knight outposts, rooks on
/// open or semi-open files and on the seventh rank.
pub open spec fn spec_piece_activity_for_color(
    ps: Pieces,
    is_white: bool,
    all_pawns: u64,
    friendly: u64,
    enemy: u64,
    phase: int,
) -> int {
    (if popcount(ps.bishops) >= 2 {
        spec_taper(BISHOP_PAIR_BONUS_MG as int, BISHOP_PAIR_BONUS_EG as int, phase)
    } else {
        0
    }) + squares_sum(ps.knights, 64, knight_activity_fn(is_white, friendly, enemy, phase)) + squares_sum(
        ps.rooks,
        64,
        rook_activity_fn(is_white, all_pawns, friendly, phase),
    )
}

proof fn lemma_activity_terms(is_white: bool, all_pawns: u64, friendly: u64, enemy: u64, phase: int)
    requires
        0 <= phase <= 24,
    ensures
        forall|t: int| 0 <= t < 64 ==> 0 <= #[trigger] knight_activity_fn(is_white, friendly, enemy, phase)(t) <= 30,
        forall|t: int| 0 <= t < 64 ==> 0 <= #[trigger] rook_activity_fn(is_white, all_pawns, friendly, phase)(t) <= 50,
        0 <= spec_taper(BISHOP_PAIR_BONUS_MG as int, BISHOP_PAIR_BONUS_EG as int, phase) <= 50,
{
    lemma_taper_bounds(KNIGHT_OUTPOST_BONUS_MG as int, KNIGHT_OUTPOST_BONUS_EG as int, phase);
    lemma_taper_bounds(KNIGHT_OUTPOST_SUPPORTED_MG as int, KNIGHT_OUTPOST_SUPPORTED_EG as int, phase);
    lemma_taper_bounds(ROOK_OPEN_FILE_BONUS_MG as int, ROOK_OPEN_FILE_BONUS_EG as int, phase);
    lemma_taper_bounds(ROOK_SEMI_OPEN_FILE_BONUS_MG as int, ROOK_SEMI_OPEN_FILE_BONUS_EG as int, phase);
    lemma_taper_bounds(ROOK_ON_SEVENTH_BONUS_MG as int, ROOK_ON_SEVENTH_BONUS_EG as int, phase);
    lemma_taper_bounds(BISHOP_PAIR_BONUS_MG as int, BISHOP_PAIR_BONUS_EG as int, phase);
}

proof fn lemma_activity_bounds(ps: Pieces, is_white: bool, all_pawns: u64, friendly: u64, enemy: u64, phase: int)
    requires
        0 <= phase <= 24,
    ensures
        0 <= spec_piece_activity_for_color(ps, is_white, all_pawns, friendly, enemy, phase) <= 5170,
{
    lemma_activity_terms(is_white, all_pawns, friendly, enemy, phase);
    lemma_squares_sum_bounds(ps.knights, 64, knight_activity_fn(is_white, friendly, enemy, phase), 0, 30);
    lemma_squares_sum_bounds(ps.rooks, 64, rook_activity_fn(is_white, all_pawns, friendly, phase), 0, 50);
}

/// Evaluates piece activity for one side: bishop pair, knight outposts, rooks on
/// open or semi-open files and on the seventh rank.
pub fn piece_activity_for_color(
    board: &Board,
    color: Color,
    all_pawns: u64,
    friendly_pawns: u64,
    enemy_pawns: u64,
    phase: u8,
) -> (r: i16)
    requires
        phase <= MAX_PHASE,
    ensures
        r == spec_piece_activity_for_color(
            board@.pieces(color),
            color == Color::White,
            all_pawns,
            friendly_pawns,
            enemy_pawns,
            phase as int,
        ),
{
    let pieces = board.pieces(color);
    let is_white = color.maximize_score();
    let ghost kf = knight_activity_fn(is_white, friendly_pawns, enemy_pawns, phase as int);
    let ghost rf = rook_activity_fn(is_white, all_pawns, friendly_pawns, phase as int);
    proof { lemma_activity_terms(is_white, all_pawns, friendly_pawns, enemy_pawns, phase as int); }
    let mut bonus: i32 = 0;

    // Bishop pair
    if count_ones(pieces.bishops) >= 2 {
        bonus = bonus + taper(BISHOP_PAIR_BONUS_MG, BISHOP_PAIR_BONUS_EG, phase) as i32;
    }
    let ghost pair = bonus as int;

    // Knight outposts: no enemy pawn on an adjacent file ahead can attack the knight.
    let knights = pieces.knights;
    let mut sq: u8 = 0;
    while sq < 64
        invariant
            sq <= 64,
            phase <= 24,
            0 <= pair <= 50,
            forall|t: int| 0 <= t < 64 ==> 0 <= #[trigger] kf(t) <= 30,
            kf == knight_activity_fn(is_white, friendly_pawns, enemy_pawns, phase as int),
            bonus == pair + squares_sum(knights, sq as int, kf),
        decreases 64 - sq,
    {
        proof { lemma_squares_sum_bounds(knights, sq as int, kf, 0, 30); }
        if (knights >> sq) & 1 == 1 {
            let rank = (sq / 8) as usize;
            let file = (sq % 8) as usize;
            let on_outpost_rank = if is_white {
                3 <= rank && rank <= 5
            } else {
                2 <= rank && rank <= 4
            };
            let mut term: i32 = 0;
            if on_outpost_rank {
                let ahead = if is_white {
                    above_rank_mask(rank)
                } else {
                    below_rank_mask(rank)
                };
                let ahead_adjacent = ADJACENT_FILES[file] & ahead;
                if (enemy_pawns & ahead_adjacent) == 0 {
                    term = term + taper(KNIGHT_OUTPOST_BONUS_MG, KNIGHT_OUTPOST_BONUS_EG, phase) as i32;
                    // The outpost rank keeps the rank behind on the board.
                    let behind_rank = if is_white { rank - 1 } else { rank + 1 };
                    let support_mask = ADJACENT_FILES[file] & (0xFFu64 << (behind_rank * 8));
                    if (friendly_pawns & support_mask) != 0 {
                        term = term + taper(KNIGHT_OUTPOST_SUPPORTED_MG, KNIGHT_OUTPOST_SUPPORTED_EG, phase) as i32;
                    }
                }
            }
            assert(term == kf(sq as int));
            bonus = bonus + term;
        }
        sq = sq + 1;
    }
    proof { lemma_squares_sum_bounds(knights, 64, kf, 0, 30); }
    let ghost after_knights = bonus as int;

    // Rooks: open or semi-open file, seventh rank.
    let seventh = match color {
        Color::White => RANK_7,
        Color::Black => RANK_2,
    };
    let rooks = pieces.rooks;
    let mut sq: u8 = 0;
    while sq < 64
        invariant
            sq <= 64,
            phase <= 24,
            0 <= after_knights <= 50 + 64 * 30,
            forall|t: int| 0 <= t < 64 ==> 0 <= #[trigger] rf(t) <= 50,
            rf == rook_activity_fn(is_white, all_pawns, friendly_pawns, phase as int),
            seventh == seventh_rank(is_white),
            bonus == after_knights + squares_sum(rooks, sq as int, rf),
        decreases 64 - sq,
    {
        proof { lemma_squares_sum_bounds(rooks, sq as int, rf, 0, 50); }
        if (rooks >> sq) & 1 == 1 {
            let rook_file = FILE_MASKS[(sq % 8) as usize];
            let mut term: i32 = 0;
            if (all_pawns & rook_file) == 0 {
                term = term + taper(ROOK_OPEN_FILE_BONUS_MG, ROOK_OPEN_FILE_BONUS_EG, phase) as i32;
            } else if (friendly_pawns & rook_file) == 0 {
                term = term + taper(ROOK_SEMI_OPEN_FILE_BONUS_MG, ROOK_SEMI_OPEN_FILE_BONUS_EG, phase) as i32;
            }
            let rook_bb = 1u64 << sq;
            if rook_bb & seventh != 0 {
                term = term + taper(ROOK_ON_SEVENTH_BONUS_MG, ROOK_ON_SEVENTH_BONUS_EG, phase) as i32;
            }
            assert(term == rf(sq as int));
            bonus = bonus + term;
        }
        sq = sq + 1;
    }
    proof { lemma_squares_sum_bounds(rooks, 64, rf, 0, 50); }
    bonus as i16
}

/// Evaluates piece activity: White's minus Black's.
pub fn piece_activity_eval(board: &Board, all_pawns: u64, white_pawns: u64, black_pawns: u64, phase: u8) -> (r: i16)
    requires
        phase <= MAX_PHASE,
    ensures
        r == spec_piece_activity_for_color(board@.white, true, all_pawns, white_pawns, black_pawns, phase as int)
            - spec_piece_activity_for_color(board@.black, false, all_pawns, black_pawns, white_pawns, phase as int),
{
    let white_score = piece_activity_for_color(board, Color::White, all_pawns, white_pawns, black_pawns, phase);
    let black_score = piece_activity_for_color(board, Color::Black, all_pawns, black_pawns, white_pawns, phase);
    proof {
        lemma_activity_bounds(board@.white, true, all_pawns, white_pawns, black_pawns, phase as int);
        lemma_activity_bounds(board@.black, false, all_pawns, black_pawns, white_pawns, phase as int);
    }
    white_score - black_score
}


// ---------------------------------------------------------------------------
// King safety
// ---------------------------------------------------------------------------

/// The lowest square of `b` at index `t` or above, or 64 if there is none.
pub open spec fn lowest_from(b: u64, t: int) -> int
    decreases 64 - t,
{
    if t >= 64 {
        64
    } else if has_sq(b, t) {
        t
    } else {
        lowest_from(b, t + 1)
    }
}

/// The lowest square of `b` (64 if `b` is empty).
pub open spec fn lowest_square(b: u64) -> int {
    lowest_from(b, 0)
}

/// The lowest square of a non-empty bitboard.
pub fn lowest_square_index(b: u64) -> (r: u8)
    requires
        b != 0,
    ensures
        r == lowest_square(b),
        r < 64,
        has_sq(b, r as int),
{
    let mut t: u8 = 0;
    while t < 63 && (b >> t) & 1 != 1
        invariant
            t <= 63,
            lowest_from(b, t as int) == lowest_square(b),
            forall|v: int| 0 <= v < t ==> !#[trigger] has_sq(b, v),
        decreases 63 - t,
    {
        t = t + 1;
    }
    proof {
        if !has_sq(b, t as int) {
            crate::bitboard::lemma_zero_iff_no_square(b);
            let s = choose|s: int| 0 <= s < 64 && has_sq(b, s);
            assert(s < t || s == t);
        }
    }
    t
}

/// The two ranks in front of a king on `rank`, from the side's point of view.
pub open spec fn two_ranks_ahead(is_white: bool, rank: int) -> u64 {
    if is_white {
        if rank + 1 <= 7 {
            (0xFFu64 << (((rank + 1) * 8) as u64)) | if rank + 1 <= 6 {
                0xFFu64 << (((rank + 2) * 8) as u64)
            } else {
                0u64
            }
        } else {
            EMPTY
        }
    } else {
        if rank >= 1 {
            (0xFFu64 << (((rank - 1) * 8) as u64)) | if rank >= 2 {
                0xFFu64 << (((rank - 2) * 8) as u64)
            } else {
                0u64
            }
        } else {
            EMPTY
        }
    }
}

/// The open-file penalties of the files `lo ..= hi`: one penalty per file without pawns.
pub open spec fn open_files_penalty(all_pawns: u64, lo: int, hi: int, phase: int) -> int
    decreases hi - lo + 1,
{
    if lo > hi || lo < 0 || hi > 7 {
        0
    } else {
        (if all_pawns & FILE_MASKS[lo] == 0 {
            spec_taper(KING_OPEN_FILE_PENALTY as int, 0, phase)
        } else {
            0
        }) + open_files_penalty(all_pawns, lo + 1, hi, phase)
    }
}

/// Two attack units for an enemy knight on `sq` that attacks the king zone.
pub open spec fn knight_attack_unit_fn(zone: u64) -> spec_fn(int) -> int {
    |sq: int| if crate::targets::spec_knight_attacks(sq) & zone != 0 { 2int } else { 0int }
}

/// The king safety score of one side: pawn shield in front of the king, open
/// files next to it, and enemy knights attacking the squares around it. The king
/// is the lowest square of the side's king bitboard; no king scores zero.
pub open spec fn spec_king_safety_for_color(ps: Pieces, enemy: Pieces, is_white: bool, all_pawns: u64, friendly: u64, phase: int) -> int {
    if ps.kings == 0 {
        0
    } else {
        let ks = lowest_square(ps.kings);
        let file = ks % 8;
        let rank = ks / 8;
        let king_files = FILE_MASKS[file] | ADJACENT_FILES[file];
        let shield = popcount(friendly & (king_files & two_ranks_ahead(is_white, rank)));
        let zone = crate::targets::spec_king_attacks(ks) | ps.kings;
        let units = squares_sum(enemy.knights, 64, knight_attack_unit_fn(zone));
        let lo = if file >= 1 { file - 1 } else { 0 };
        let hi = if file < 7 { file + 1 } else { 7 };
        spec_taper(shield * PAWN_SHIELD_BONUS, 0, phase) - open_files_penalty(all_pawns, lo, hi, phase) - spec_taper(
            units * KING_ATTACK_UNIT_PENALTY,
            0,
            phase,
        )
    }
}

proof fn lemma_open_files_bounds(all_pawns: u64, lo: int, hi: int, phase: int)
    requires
        0 <= phase <= 24,
        0 <= lo,
        hi <= 7,
    ensures
        0 <= open_files_penalty(all_pawns, lo, hi, phase) <= 15 * (if hi >= lo { hi - lo + 1 } else { 0 }),
    decreases hi - lo + 1,
{
    lemma_taper_bounds(KING_OPEN_FILE_PENALTY as int, 0, phase);
    if lo <= hi {
        lemma_open_files_bounds(all_pawns, lo + 1, hi, phase);
    }
}

proof fn lemma_king_safety_bounds(ps: Pieces, enemy: Pieces, is_white: bool, all_pawns: u64, friendly: u64, phase: int)
    requires
        0 <= phase <= 24,
    ensures
        -1325 <= spec_king_safety_for_color(ps, enemy, is_white, all_pawns, friendly, phase) <= 512,
{
    if ps.kings != 0 {
        let ks = lowest_square(ps.kings);
        let file = ks % 8;
        let rank = ks / 8;
        let king_files = FILE_MASKS[file] | ADJACENT_FILES[file];
        let shield = popcount(friendly & (king_files & two_ranks_ahead(is_white, rank)));
        let zone = crate::targets::spec_king_attacks(ks) | ps.kings;
        let units = squares_sum(enemy.knights, 64, knight_attack_unit_fn(zone));
        crate::bitboard::lemma_count_below_bounds(friendly & (king_files & two_ranks_ahead(is_white, rank)), 64);
        lemma_squares_sum_bounds(enemy.knights, 64, knight_attack_unit_fn(zone), 0, 2);
        lemma_taper_bounds(shield * PAWN_SHIELD_BONUS, 0, phase);
        lemma_taper_bounds(units * KING_ATTACK_UNIT_PENALTY, 0, phase);
        let lo = if file >= 1 { file - 1 } else { 0 };
        let hi = if file < 7 { file + 1 } else { 7 };
        lemma_open_files_bounds(all_pawns, lo, hi, phase);
    }
}

/// Evaluates king safety for one side: pawn shield, open files near the king,
/// and enemy knights attacking the king zone.
pub fn king_safety_for_color(board: &Board, color: Color, all_pawns: u64, friendly_pawns: u64, phase: u8) -> (r: i16)
    requires
        phase <= MAX_PHASE,
    ensures
        r == spec_king_safety_for_color(
            board@.pieces(color),
            board@.pieces(color.spec_opposite()),
            color == Color::White,
            all_pawns,
            friendly_pawns,
            phase as int,
        ),
{
    let pieces = board.pieces(color);
    let is_white = color.maximize_score();
    let king_bb = pieces.kings;
    if king_bb == 0 {
        return 0;
    }
    let king_sq = lowest_square_index(king_bb);
    let king_file = (king_sq % 8) as usize;
    let king_rank = (king_sq / 8) as usize;
    let mut score: i32 = 0;

    // Pawn shield: friendly pawns in the two ranks ahead on the king's and adjacent files.
    let king_files = FILE_MASKS[king_file] | ADJACENT_FILES[king_file];
    let two_ahead = if is_white {
        let r = king_rank + 1;
        if r <= 7 {
            (0xFFu64 << (r * 8)) | if r <= 6 {
                0xFFu64 << ((r + 1) * 8)
            } else {
                0u64
            }
        } else {
            EMPTY
        }
    } else {
        if king_rank >= 1 {
            (0xFFu64 << ((king_rank - 1) * 8)) | if king_rank >= 2 {
                0xFFu64 << ((king_rank - 2) * 8)
            } else {
                0u64
            }
        } else {
            EMPTY
        }
    };
    let limited_shield = king_files & two_ahead;
    let shield_pawns = count_ones(friendly_pawns & limited_shield);
    let shield_score = taper(shield_pawns as i16 * PAWN_SHIELD_BONUS, 0, phase);
    score = score + shield_score as i32;

    // Open files next to the king.
    let start_file: usize = if king_file >= 1 { king_file - 1 } else { 0 };
    let end_file: usize = if king_file < 7 { king_file + 1 } else { 7 };
    let ghost lo = start_file as int;
    let ghost before_files = score as int;
    proof { lemma_open_files_bounds(all_pawns, lo, end_file as int, phase as int); }
    let mut f = start_file;
    while f <= end_file
        invariant
            lo <= f <= end_file + 1,
            end_file <= 7,
            phase <= 24,
            -24 <= before_files <= 512,
            0 <= open_files_penalty(all_pawns, lo, end_file as int, phase as int) <= 45,
            score == before_files - (open_files_penalty(all_pawns, lo, end_file as int, phase as int)
                - open_files_penalty(all_pawns, f as int, end_file as int, phase as int)),
            0 <= open_files_penalty(all_pawns, f as int, end_file as int, phase as int) <= 45,
        decreases end_file + 1 - f,
    {
        proof { lemma_open_files_bounds(all_pawns, f as int + 1, end_file as int, phase as int); }
        if (all_pawns & FILE_MASKS[f]) == 0 {
            score = score - taper(KING_OPEN_FILE_PENALTY, 0, phase) as i32;
        }
        f = f + 1;
    }

    // Enemy knights attacking the king zone.
    let king_zone = king_attacks(king_sq) | king_bb;
    let ghost uf = knight_attack_unit_fn(king_zone);
    let enemy_knights = board.pieces(color.opposite()).knights;
    let mut attack_units: i16 = 0;
    let mut sq: u8 = 0;
    while sq < 64
        invariant
            sq <= 64,
            uf == knight_attack_unit_fn(king_zone),
            forall|t: int| 0 <= t < 64 ==> 0 <= #[trigger] uf(t) <= 2,
            attack_units == squares_sum(enemy_knights, sq as int, uf),
        decreases 64 - sq,
    {
        proof { lemma_squares_sum_bounds(enemy_knights, sq as int, uf, 0, 2); }
        if (enemy_knights >> sq) & 1 == 1 {
            if knight_attacks(sq) & king_zone != 0 {
                attack_units = attack_units + 2;
            }
        }
        sq = sq + 1;
    }
    proof {
        lemma_squares_sum_bounds(enemy_knights, 64, uf, 0, 2);
        crate::bitboard::lemma_count_below_bounds(friendly_pawns & limited_shield, 64);
        lemma_king_safety_bounds(pieces, board@.pieces(color.spec_opposite()), is_white, all_pawns, friendly_pawns, phase as int);
    }
    let attack_score = taper(attack_units * KING_ATTACK_UNIT_PENALTY, 0, phase);
    score = score - attack_score as i32;
    score as i16
}

/// Evaluates king safety: White's minus Black's.
pub fn king_safety_eval(board: &Board, all_pawns: u64, white_pawns: u64, black_pawns: u64, phase: u8) -> (r: i16)
    requires
        phase <= MAX_PHASE,
    ensures
        r == spec_king_safety_for_color(board@.white, board@.black, true, all_pawns, white_pawns, phase as int)
            - spec_king_safety_for_color(board@.black, board@.white, false, all_pawns, black_pawns, phase as int),
{
    let white_score = king_safety_for_color(board, Color::White, all_pawns, white_pawns, phase);
    let black_score = king_safety_for_color(board, Color::Black, all_pawns, black_pawns, phase);
    proof {
        lemma_king_safety_bounds(board@.white, board@.black, true, all_pawns, white_pawns, phase as int);
        lemma_king_safety_bounds(board@.black, board@.white, false, all_pawns, black_pawns, phase as int);
    }
    white_score - black_score
}


// ---------------------------------------------------------------------------
// Mobility
// ---------------------------------------------------------------------------

/// The mobility bonus of a knight on `sq`: per square it attacks that holds no friendly piece.
pub open spec fn knight_mobility_fn(mobility_squares: u64, phase: int) -> spec_fn(int) -> int {
    |sq: int|
        {
            let count = popcount(crate::targets::spec_knight_attacks(sq) & mobility_squares) as int;
            spec_taper(count * KNIGHT_MOBILITY_MG, count * KNIGHT_MOBILITY_EG, phase)
        }
}

/// The mobility bonus of a bishop on `sq`: per square it attacks that holds no friendly piece.
pub open spec fn bishop_mobility_fn(occupied: u64, mobility_squares: u64, phase: int) -> spec_fn(int) -> int {
    |sq: int|
        {
            let count = popcount(crate::targets::spec_bishop_attacks(sq, occupied) & mobility_squares) as int;
            spec_taper(count * BISHOP_MOBILITY_MG, count * BISHOP_MOBILITY_EG, phase)
        }
}

/// The mobility score of one side: for each knight and bishop, the squares it
/// attacks that hold no friendly piece.
pub open spec fn spec_mobility_for_color(m: BoardModel, color: Color, phase: int) -> int {
    let mobility_squares = !m.pieces(color).spec_occupied();
    squares_sum(m.pieces(color).knights, 64, knight_mobility_fn(mobility_squares, phase)) + squares_sum(
        m.pieces(color).bishops,
        64,
        bishop_mobility_fn(m.occupied(), mobility_squares, phase),
    )
}

proof fn lemma_mobility_terms(occupied: u64, mobility_squares: u64, phase: int)
    requires
        0 <= phase <= 24,
    ensures
        forall|t: int| 0 <= t < 64 ==> 0 <= #[trigger] knight_mobility_fn(mobility_squares, phase)(t) <= 320,
        forall|t: int| 0 <= t < 64 ==> 0 <= #[trigger] bishop_mobility_fn(occupied, mobility_squares, phase)(t) <= 320,
{
    assert forall|t: int| 0 <= t < 64 implies 0 <= #[trigger] knight_mobility_fn(mobility_squares, phase)(t) <= 320 by {
        let count = popcount(crate::targets::spec_knight_attacks(t) & mobility_squares) as int;
        crate::bitboard::lemma_count_below_bounds(crate::targets::spec_knight_attacks(t) & mobility_squares, 64);
        lemma_taper_bounds(count * KNIGHT_MOBILITY_MG, count * KNIGHT_MOBILITY_EG, phase);
    }
    assert forall|t: int| 0 <= t < 64 implies 0 <= #[trigger] bishop_mobility_fn(occupied, mobility_squares, phase)(t) <= 320 by {
        let count = popcount(crate::targets::spec_bishop_attacks(t, occupied) & mobility_squares) as int;
        crate::bitboard::lemma_count_below_bounds(crate::targets::spec_bishop_attacks(t, occupied) & mobility_squares, 64);
        lemma_taper_bounds(count * BISHOP_MOBILITY_MG, count * BISHOP_MOBILITY_EG, phase);
    }
}

proof fn lemma_mobility_bounds(m: BoardModel, color: Color, phase: int)
    requires
        m.wf(),
        0 <= phase <= 24,
    ensures
        0 <= spec_mobility_for_color(m, color, phase) <= 20480,
{
    let ps = m.pieces(color);
    let mobility_squares = !ps.spec_occupied();
    lemma_mobility_terms(m.occupied(), mobility_squares, phase);
    match color {
        Color::White => assert(m.slot(1) & m.slot(2) == 0),
        Color::Black => assert(m.slot(7) & m.slot(8) == 0),
    }
    lemma_disjoint_squares_sums(
        ps.knights,
        ps.bishops,
        64,
        knight_mobility_fn(mobility_squares, phase),
        bishop_mobility_fn(m.occupied(), mobility_squares, phase),
        320,
    );
}

/// Evaluates the mobility of one side: for each knight and bishop, the squares
/// it attacks that hold no friendly piece.
pub fn mobility_for_color(board: &Board, color: Color, phase: u8) -> (r: i16)
    requires
        board@.wf(),
        phase <= MAX_PHASE,
    ensures
        r == spec_mobility_for_color(board@, color, phase as int),
{
    let occupied = board.occupied();
    let pieces = board.pieces(color);
    let friendly = pieces.occupied();
    let mobility_squares = !friendly;
    let ghost kf = knight_mobility_fn(mobility_squares, phase as int);
    let ghost bf = bishop_mobility_fn(occupied, mobility_squares, phase as int);
    proof {
        lemma_mobility_terms(occupied, mobility_squares, phase as int);
        lemma_mobility_bounds(board@, color, phase as int);
        lemma_squares_sum_bounds(pieces.knights, 64, kf, 0, 320);
        lemma_squares_sum_bounds(pieces.bishops, 64, bf, 0, 320);
    }
    let mut score: i32 = 0;

    // Knights
    let knights = pieces.knights;
    let mut sq: u8 = 0;
    while sq < 64
        invariant
            sq <= 64,
            phase <= 24,
            kf == knight_mobility_fn(mobility_squares, phase as int),
            forall|t: int| 0 <= t < 64 ==> 0 <= #[trigger] kf(t) <= 320,
            score == squares_sum(knights, sq as int, kf),
        decreases 64 - sq,
    {
        proof { lemma_squares_sum_bounds(knights, sq as int, kf, 0, 320); }
        if (knights >> sq) & 1 == 1 {
            let attacks = knight_attacks(sq) & mobility_squares;
            let count = count_ones(attacks) as i16;
            score = score + taper(count * KNIGHT_MOBILITY_MG, count * KNIGHT_MOBILITY_EG, phase) as i32;
        }
        sq = sq + 1;
    }
    let ghost knight_score = score as int;

    // Bishops
    let bishops = pieces.bishops;
    let mut sq: u8 = 0;
    while sq < 64
        invariant
            sq <= 64,
            phase <= 24,
            bf == bishop_mobility_fn(occupied, mobility_squares, phase as int),
            forall|t: int| 0 <= t < 64 ==> 0 <= #[trigger] bf(t) <= 320,
            0 <= knight_score <= 64 * 320,
            score == knight_score + squares_sum(bishops, sq as int, bf),
        decreases 64 - sq,
    {
        proof { lemma_squares_sum_bounds(bishops, sq as int, bf, 0, 320); }
        if (bishops >> sq) & 1 == 1 {
            let attacks = bishop_attacks(sq, occupied) & mobility_squares;
            let count = count_ones(attacks) as i16;
            score = score + taper(count * BISHOP_MOBILITY_MG, count * BISHOP_MOBILITY_EG, phase) as i32;
        }
        sq = sq + 1;
    }
    // Rooks and queens are left out: open files and the piece-square tables
    // already reward them.
    score as i16
}

/// Evaluates piece mobility: White's minus Black's.
pub fn mobility_eval(board: &Board, phase: u8) -> (r: i16)
    requires
        board@.wf(),
        phase <= MAX_PHASE,
    ensures
        r == spec_mobility_for_color(board@, Color::White, phase as int) - spec_mobility_for_color(
            board@,
            Color::Black,
            phase as int,
        ),
{
    let white = mobility_for_color(board, Color::White, phase);
    let black = mobility_for_color(board, Color::Black, phase);
    proof {
        lemma_mobility_bounds(board@, Color::White, phase as int);
        lemma_mobility_bounds(board@, Color::Black, phase as int);
    }
    white - black
}

// ---------------------------------------------------------------------------
// Endgame detection
// ---------------------------------------------------------------------------

/// Determines if the position is an endgame: neither side has a queen, or each
/// side has no queen and at most one piece besides its king. (The second case
/// lies inside the first, so this holds exactly when no queen is left.)
pub fn is_endgame(board: &Board) -> (r: bool)
    ensures
        r == (board@.white.queens == 0 && board@.black.queens == 0),
{
    let white = board.pieces(Color::White);
    let black = board.pieces(Color::Black);
    let white_queen = white.queens;
    let black_queen = black.queens;
    let white_non_king_queen = white.occupied() & !white_queen & !white.kings;
    let black_non_king_queen = black.occupied() & !black_queen & !black.kings;

    let both_sides_have_no_queens = white_queen == 0 && black_queen == 0;
    let white_has_no_queen_or_one_minor_piece = white_queen == 0 && count_ones(white_non_king_queen) <= 1;
    let black_has_no_queen_or_one_minor_piece = black_queen == 0 && count_ones(black_non_king_queen) <= 1;

    both_sides_have_no_queens || (white_has_no_queen_or_one_minor_piece && black_has_no_queen_or_one_minor_piece)
}


// ---------------------------------------------------------------------------
// The evaluation
// ---------------------------------------------------------------------------

/// Whether an integer fits in an `i16`.
pub open spec fn fits_i16(x: int) -> bool {
    -32768 <= x <= 32767
}

/// The material and piece-square score of White minus that of Black.
pub open spec fn spec_material_balance(m: BoardModel, phase: int) -> int {
    spec_player_material_score(m, Color::White, phase) - spec_player_material_score(m, Color::Black, phase)
}

/// The positional terms of the evaluation: pawn structure, piece activity,
/// king safety and mobility, each White's minus Black's.
pub open spec fn spec_pawn_balance(m: BoardModel, phase: int) -> int {
    spec_pawn_structure_for_color(m.white.pawns, m.black.pawns, phase, true) - spec_pawn_structure_for_color(
        m.black.pawns,
        m.white.pawns,
        phase,
        false,
    )
}

pub open spec fn spec_activity_balance(m: BoardModel, phase: int) -> int {
    let all_pawns = m.white.pawns | m.black.pawns;
    spec_piece_activity_for_color(m.white, true, all_pawns, m.white.pawns, m.black.pawns, phase)
        - spec_piece_activity_for_color(m.black, false, all_pawns, m.black.pawns, m.white.pawns, phase)
}

pub open spec fn spec_king_safety_balance(m: BoardModel, phase: int) -> int {
    let all_pawns = m.white.pawns | m.black.pawns;
    spec_king_safety_for_color(m.white, m.black, true, all_pawns, m.white.pawns, phase) - spec_king_safety_for_color(
        m.black,
        m.white,
        false,
        all_pawns,
        m.black.pawns,
        phase,
    )
}

pub open spec fn spec_mobility_balance(m: BoardModel, phase: int) -> int {
    spec_mobility_for_color(m, Color::White, phase) - spec_mobility_for_color(m, Color::Black, phase)
}

/// The evaluation of a board from White's side: material and piece-square
/// tables, pawn structure, piece activity, king safety and mobility, all
/// tapered by the game phase.
pub open spec fn spec_evaluation(m: BoardModel) -> int {
    let phase = spec_game_phase(m);
    spec_material_balance(m, phase) + spec_pawn_balance(m, phase) + spec_activity_balance(m, phase)
        + spec_king_safety_balance(m, phase) + spec_mobility_balance(m, phase)
}

/// The five scores the evaluation credits to `color` at game phase `phase`:
/// material with piece-square bonuses, pawn structure, piece activity, king
/// safety and mobility, each computed for that side alone.
pub open spec fn side_scores(m: BoardModel, color: Color, phase: int) -> Seq<int> {
    let own = m.pieces(color);
    let other = m.pieces(color.spec_opposite());
    let is_white = color == Color::White;
    let all_pawns = m.white.pawns | m.black.pawns;
    seq![
        spec_player_material_score(m, color, phase),
        spec_pawn_structure_for_color(own.pawns, other.pawns, phase, is_white),
        spec_piece_activity_for_color(own, is_white, all_pawns, own.pawns, other.pawns, phase),
        spec_king_safety_for_color(own, other, is_white, all_pawns, own.pawns, phase),
        spec_mobility_for_color(m, color, phase),
    ]
}

/// The evaluation rewards White and penalises Black for every one of its
/// scores. Take two boards at the same game phase where each of White's five
/// scores is at least as high on the second and each of Black's at least as
/// low: the second evaluates at least as high; and if any one score of
/// either side differs, strictly higher. So, with everything else equal, a
/// safer White king (or more White material, better pawns, more activity,
/// more mobility) raises the evaluation, and the same for Black lowers it,
/// by exactly the change in that score.
pub proof fn lemma_evaluation_follows_side_scores(m1: BoardModel, m2: BoardModel)
    requires
        spec_game_phase(m1) == spec_game_phase(m2),
        forall|i: int| 0 <= i < 5 ==> #[trigger] side_scores(m1, Color::White, spec_game_phase(m1))[i] <= side_scores(
            m2,
            Color::White,
            spec_game_phase(m2),
        )[i],
        forall|i: int| 0 <= i < 5 ==> #[trigger] side_scores(m1, Color::Black, spec_game_phase(m1))[i] >= side_scores(
            m2,
            Color::Black,
            spec_game_phase(m2),
        )[i],
    ensures
        spec_evaluation(m1) <= spec_evaluation(m2),
        (exists|i: int|
            0 <= i < 5 && (#[trigger] side_scores(m1, Color::White, spec_game_phase(m1))[i] != side_scores(
                m2,
                Color::White,
                spec_game_phase(m2),
            )[i] || side_scores(m1, Color::Black, spec_game_phase(m1))[i] != side_scores(
                m2,
                Color::Black,
                spec_game_phase(m2),
            )[i])) ==> spec_evaluation(m1) < spec_evaluation(m2),
        spec_evaluation(m2) - spec_evaluation(m1) == (side_scores(m2, Color::White, spec_game_phase(m2))[3]
            - side_scores(m1, Color::White, spec_game_phase(m1))[3]) - (side_scores(
            m2,
            Color::Black,
            spec_game_phase(m2),
        )[3] - side_scores(m1, Color::Black, spec_game_phase(m1))[3]) + (side_scores(
            m2,
            Color::White,
            spec_game_phase(m2),
        )[0] - side_scores(m1, Color::White, spec_game_phase(m1))[0]) - (side_scores(
            m2,
            Color::Black,
            spec_game_phase(m2),
        )[0] - side_scores(m1, Color::Black, spec_game_phase(m1))[0]) + (side_scores(
            m2,
            Color::White,
            spec_game_phase(m2),
        )[1] - side_scores(m1, Color::White, spec_game_phase(m1))[1]) - (side_scores(
            m2,
            Color::Black,
            spec_game_phase(m2),
        )[1] - side_scores(m1, Color::Black, spec_game_phase(m1))[1]) + (side_scores(
            m2,
            Color::White,
            spec_game_phase(m2),
        )[2] - side_scores(m1, Color::White, spec_game_phase(m1))[2]) - (side_scores(
            m2,
            Color::Black,
            spec_game_phase(m2),
        )[2] - side_scores(m1, Color::Black, spec_game_phase(m1))[2]) + (side_scores(
            m2,
            Color::White,
            spec_game_phase(m2),
        )[4] - side_scores(m1, Color::White, spec_game_phase(m1))[4]) - (side_scores(
            m2,
            Color::Black,
            spec_game_phase(m2),
        )[4] - side_scores(m1, Color::Black, spec_game_phase(m1))[4]),
{
    let p = spec_game_phase(m1);
    let w1 = side_scores(m1, Color::White, p);
    let w2 = side_scores(m2, Color::White, p);
    let b1 = side_scores(m1, Color::Black, p);
    let b2 = side_scores(m2, Color::Black, p);
    assert(w1[0] <= w2[0] && w1[1] <= w2[1] && w1[2] <= w2[2] && w1[3] <= w2[3] && w1[4] <= w2[4]);
    assert(b1[0] >= b2[0] && b1[1] >= b2[1] && b1[2] >= b2[2] && b1[3] >= b2[3] && b1[4] >= b2[4]);
    assert(spec_evaluation(m1) == (w1[0] - b1[0]) + (w1[1] - b1[1]) + (w1[2] - b1[2]) + (w1[3] - b1[3]) + (w1[4]
        - b1[4]));
    assert(spec_evaluation(m2) == (w2[0] - b2[0]) + (w2[1] - b2[1]) + (w2[2] - b2[2]) + (w2[3] - b2[3]) + (w2[4]
        - b2[4]));
}

/// The boards the evaluation is defined on: well formed, with a phase weight
/// that fits its `u8` sum, and with each score and running total of the
/// evaluation inside `i16`.
pub open spec fn evaluation_in_range(m: BoardModel) -> bool {
    let phase = spec_game_phase(m);
    let material = spec_material_balance(m, phase);
    &&& m.wf()
    &&& raw_phase(m) <= 255
    &&& fits_i16(spec_player_material_score(m, Color::White, phase))
    &&& fits_i16(spec_player_material_score(m, Color::Black, phase))
    &&& fits_i16(material)
    &&& fits_i16(material + spec_pawn_balance(m, phase))
    &&& fits_i16(material + spec_pawn_balance(m, phase) + spec_activity_balance(m, phase))
    &&& fits_i16(
        material + spec_pawn_balance(m, phase) + spec_activity_balance(m, phase) + spec_king_safety_balance(m, phase),
    )
    &&& fits_i16(spec_evaluation(m))
}

/// Core evaluation function: material and piece-square tables plus the
/// positional terms, from White's side. The attack sets it needs are computed
/// directly from the board.
pub fn eval_with_targets(board: &Board) -> (r: i16)
    requires
        evaluation_in_range(board@),
    ensures
        r == spec_evaluation(board@),
{
    let phase = game_phase(board);

    // Shared bitboards of the positional terms.
    let white_pawns = board.pieces(Color::White).pawns;
    let black_pawns = board.pieces(Color::Black).pawns;
    let all_pawns = white_pawns | black_pawns;

    // Material + piece-square tables.
    let white_material = player_material_score(board, Color::White, phase);
    let black_material = player_material_score(board, Color::Black, phase);
    let material = white_material - black_material;

    // Positional terms.
    let pawn_score = pawn_structure_eval(white_pawns, black_pawns, phase);
    let activity = piece_activity_eval(board, all_pawns, white_pawns, black_pawns, phase);
    let king_safety = king_safety_eval(board, all_pawns, white_pawns, black_pawns, phase);
    let mobility = mobility_eval(board, phase);

    material + pawn_score + activity + king_safety + mobility
}

/// Evaluates the board position from White's side (positive = White advantage).
pub fn board_material_score(board: &Board) -> (r: i16)
    requires
        evaluation_in_range(board@),
    ensures
        r == spec_evaluation(board@),
{
    eval_with_targets(board)
}

// ---------------------------------------------------------------------------
// Check, checkmate and the end of the game
// ---------------------------------------------------------------------------

/// How a game ended.
#[derive(Clone, Copy, Debug, PartialEq, Eq, Structural)]
pub enum GameEnding {
    Checkmate,
    Stalemate,
    Draw,
}

/// Whether a king of `player` stands on a square the other side attacks.
pub open spec fn spec_player_is_in_check(m: BoardModel, player: Color) -> bool {
    m.pieces(player).kings & spec_attack_targets(m, player.spec_opposite()) != 0
}

/// A player is in check exactly when one of the other side's pieces attacks
/// a square holding a king of that player, as that kind of piece attacks.
pub proof fn lemma_check_is_an_attacked_king(m: BoardModel, player: Color)
    ensures
        spec_player_is_in_check(m, player) <==> exists|k: int, t: int|
            0 <= k < 64 && 0 <= t < 64 && #[trigger] has_sq(m.pieces(player).kings, k)
                && #[trigger] crate::targets::piece_on_attacks(m, player.spec_opposite(), t, k),
{
    let kings = m.pieces(player).kings;
    let targets = spec_attack_targets(m, player.spec_opposite());
    crate::bitboard::lemma_zero_iff_no_square(kings & targets);
    assert forall|k: int| 0 <= k < 64 implies #[trigger] has_sq(kings & targets, k) == (has_sq(kings, k) && has_sq(
        targets,
        k,
    )) by {
        crate::bitboard::lemma_has_ops(kings, targets, k);
    }
    if spec_player_is_in_check(m, player) {
        let k = choose|k: int| 0 <= k < 64 && #[trigger] has_sq(kings & targets, k);
        crate::targets::lemma_attack_targets_are_piece_attacks(m, player.spec_opposite(), k);
        let t = choose|t: int| 0 <= t < 64 && #[trigger] crate::targets::piece_on_attacks(m, player.spec_opposite(), t, k);
        assert(has_sq(kings, k) && crate::targets::piece_on_attacks(m, player.spec_opposite(), t, k));
    }
    if exists|k: int, t: int|
        0 <= k < 64 && 0 <= t < 64 && #[trigger] has_sq(m.pieces(player).kings, k)
            && #[trigger] crate::targets::piece_on_attacks(m, player.spec_opposite(), t, k) {
        let (k, t) = choose|k: int, t: int|
            0 <= k < 64 && 0 <= t < 64 && #[trigger] has_sq(m.pieces(player).kings, k)
                && #[trigger] crate::targets::piece_on_attacks(m, player.spec_opposite(), t, k);
        crate::targets::lemma_attack_targets_are_piece_attacks(m, player.spec_opposite(), k);
        assert(has_sq(kings & targets, k));
    }
}

/// Whether a king of `player` stands on a square the other side attacks.
pub fn player_is_in_check(board: &Board, player: Color) -> (r: bool)
    ensures
        r == spec_player_is_in_check(board@, player),
{
    let king = board.pieces(player).kings;
    let attacked_squares = attack_targets(board, player.opposite());
    overlaps(king, attacked_squares)
}

/// Whether the side to move is in check.
pub fn current_player_is_in_check(board: &Board) -> (r: bool)
    ensures
        r == spec_player_is_in_check(board@, board@.turn),
{
    let current_player = board.turn();
    player_is_in_check(board, current_player)
}

/// Whether `player` is checkmated: in check with no legal move.
/// `has_legal_moves` tells whether `player` has a legal move on `board`.
pub fn player_is_in_checkmate(board: &Board, player: Color, has_legal_moves: bool) -> (r: bool)
    ensures
        r == (spec_player_is_in_check(board@, player) && !has_legal_moves),
{
    let check = player_is_in_check(board, player);
    check && !has_legal_moves
}

/// How often `hash` occurs in `history`.
pub open spec fn occurrences(history: Seq<u64>, hash: u64) -> nat
    decreases history.len(),
{
    if history.len() == 0 {
        0
    } else {
        occurrences(history.drop_last(), hash) + if history.last() == hash { 1nat } else { 0nat }
    }
}

/// How often `hash` occurs in `history`.
pub fn count_occurrences(history: &Vec<u64>, hash: u64) -> (r: usize)
    ensures
        r == occurrences(history@, hash),
{
    let mut count: usize = 0;
    let mut i: usize = 0;
    while i < history.len()
        invariant
            i <= history.len(),
            count <= i,
            count == occurrences(history@.subrange(0, i as int), hash),
        decreases history.len() - i,
    {
        proof {
            assert(history@.subrange(0, i as int + 1).drop_last() =~= history@.subrange(0, i as int));
        }
        if history[i] == hash {
            count = count + 1;
        }
        i = i + 1;
    }
    proof { assert(history@.subrange(0, i as int) =~= history@); }
    count
}

/// How the game stands: a draw at a halfmove clock of 100 or when the position
/// hash has occurred three times in the history, else checkmate or stalemate
/// when the side to move has no legal move, else not over.
pub open spec fn spec_game_ending(m: BoardModel, history: Seq<u64>, current_hash: u64, has_legal_moves: bool) -> Option<
    GameEnding,
> {
    if m.halfmove_clock() >= 100 {
        Some(GameEnding::Draw)
    } else if history.len() > 0 && occurrences(history, current_hash) >= 3 {
        Some(GameEnding::Draw)
    } else if !has_legal_moves {
        if spec_player_is_in_check(m, m.turn) {
            Some(GameEnding::Checkmate)
        } else {
            Some(GameEnding::Stalemate)
        }
    } else {
        None
    }
}

/// Returns the game ending if the game has ended, otherwise `None`.
/// `position_history` holds the hashes of the positions of the game so far (empty
/// during search, where the history is unknown), `current_hash` that of the
/// current position, and `has_legal_moves` whether the side to move can move.
pub fn game_ending(board: &Board, position_history: &Vec<u64>, current_hash: u64, has_legal_moves: bool) -> (r: Option<
    GameEnding,
>)
    requires
        board@.wf(),
    ensures
        r == spec_game_ending(board@, position_history@, current_hash, has_legal_moves),
{
    if board.halfmove_clock() >= 100 {
        return Some(GameEnding::Draw);
    }
    // Threefold repetition.
    if position_history.len() > 0 {
        let count = count_occurrences(position_history, current_hash);
        if count >= 3 {
            return Some(GameEnding::Draw);
        }
    }
    let check = current_player_is_in_check(board);
    if !has_legal_moves {
        if check {
            return Some(GameEnding::Checkmate);
        } else {
            return Some(GameEnding::Stalemate);
        }
    }
    None
}

/// A won game's score: Black wins (`i16::MIN / 2`) or White wins (`i16::MAX / 2`),
/// with a sooner win scoring better for the winner.
pub open spec fn mate_score(current_turn: Color, remaining_depth: int) -> int {
    if current_turn == Color::White {
        -16384 - remaining_depth
    } else {
        16383 + remaining_depth
    }
}

/// Whether scoring the board reaches the evaluation function.
pub open spec fn score_evaluates(m: BoardModel, remaining_depth: int, has_legal_moves: bool) -> bool {
    m.halfmove_clock() < 90 && (has_legal_moves || (remaining_depth == 0 && !spec_player_is_in_check(m, m.turn)))
}

/// The score of a board from White's side.
pub open spec fn spec_score(m: BoardModel, current_turn: Color, remaining_depth: int, has_legal_moves: bool) -> int {
    if m.halfmove_clock() >= 90 {
        0
    } else if score_evaluates(m, remaining_depth, has_legal_moves) {
        spec_evaluation(m)
    } else if spec_player_is_in_check(m, m.turn) {
        mate_score(current_turn, remaining_depth)
    } else {
        0
    }
}

/// Returns the score of the board from White's side (positive = White advantage).
/// Near the fifty-move rule the game scores as a draw; a checkmate scores as a
/// win, sooner wins better; a stalemate as a draw. At the leaves of the search
/// (`remaining_depth == 0`) a side not in check is evaluated without asking
/// whether it can move. `has_legal_moves` tells whether the side to move can move.
pub fn score(board: &Board, current_turn: Color, remaining_depth: u8, has_legal_moves: bool) -> (r: i16)
    requires
        board@.wf(),
        score_evaluates(board@, remaining_depth as int, has_legal_moves) ==> evaluation_in_range(board@),
    ensures
        r == spec_score(board@, current_turn, remaining_depth as int, has_legal_moves),
{
    // Near the 50-move rule (100 half-moves), score as a draw to avoid surprises.
    if board.halfmove_clock() >= 90 {
        return 0;
    }
    let black_wins: i16 = -16384;
    let white_wins: i16 = 16383;
    if remaining_depth == 0 {
        let in_check = current_player_is_in_check(board);
        if !in_check {
            return eval_with_targets(board);
        }
        if !has_legal_moves {
            return match current_turn {
                Color::White => black_wins - remaining_depth as i16,
                Color::Black => white_wins + remaining_depth as i16,
            };
        }
        return eval_with_targets(board);
    }
    // Away from the leaves, ask for the full game ending (no game history during search).
    let no_history: Vec<u64> = Vec::new();
    match game_ending(board, &no_history, 0, has_legal_moves) {
        Some(GameEnding::Checkmate) => match current_turn {
            Color::White => black_wins - remaining_depth as i16,
            Color::Black => white_wins + remaining_depth as i16,
        },
        Some(GameEnding::Stalemate) | Some(GameEnding::Draw) => 0,
        None => eval_with_targets(board),
    }
}


/// At full game phase (24) the taper gives the midgame value, at phase 0 the
/// endgame value, and halfway (12) their average rounded toward zero.
pub proof fn lemma_taper_endpoints(mg: int, eg: int)
    ensures
        spec_taper(mg, eg, 24) == mg,
        spec_taper(mg, eg, 0) == eg,
        spec_taper(mg, eg, 12) == trunc_div(mg + eg, 2),
{
    assert(mg * 24 + eg * 0 == 24 * mg) by (nonlinear_arith);
    assert(mg * 0 + eg * 24 == 24 * eg) by (nonlinear_arith);
    assert(mg * 12 + eg * 12 == 12 * (mg + eg)) by (nonlinear_arith);
    let s = mg + eg;
    if s >= 0 {
        assert((12 * s) / 24 == s / 2) by (nonlinear_arith) requires s >= 0;
    } else {
        assert((-(12 * s)) / 24 == (-s) / 2) by (nonlinear_arith) requires s < 0;
    }
    if mg >= 0 {
        assert((24 * mg) / 24 == mg) by (nonlinear_arith);
    } else {
        assert((-(24 * mg)) / 24 == -mg) by (nonlinear_arith);
    }
    if eg >= 0 {
        assert((24 * eg) / 24 == eg) by (nonlinear_arith);
    } else {
        assert((-(24 * eg)) / 24 == -eg) by (nonlinear_arith);
    }
}

/// A sooner checkmate scores better for the winner: with more search depth
/// left when the mate is found, White's win scores higher and Black's lower.
pub proof fn lemma_sooner_mate_scores_better(sooner: int, later: int)
    requires
        sooner > later,
    ensures
        mate_score(Color::Black, sooner) > mate_score(Color::Black, later),
        mate_score(Color::White, sooner) < mate_score(Color::White, later),
{
}

/// Every board is scored as a draw near the fifty-move rule, whatever else holds.
pub proof fn lemma_fifty_move_draw(m: BoardModel, current_turn: Color, remaining_depth: int, has_legal_moves: bool)
    requires
        m.halfmove_clock() >= 90,
    ensures
        spec_score(m, current_turn, remaining_depth, has_legal_moves) == 0,
{
}

/// How a game ends, as told by its reasons: a checkmate only when the side
/// to move is in check and cannot move, a stalemate only when it is not in
/// check and cannot move, a draw only at a hundred halfmoves without a
/// capture or pawn move or on a third occurrence of the position; and a game
/// whose side to move cannot move is always over.
pub proof fn lemma_game_ending_reasons(m: BoardModel, history: Seq<u64>, current_hash: u64, has_legal_moves: bool)
    ensures
        spec_game_ending(m, history, current_hash, has_legal_moves) == Some(GameEnding::Checkmate) ==> !has_legal_moves
            && spec_player_is_in_check(m, m.turn),
        spec_game_ending(m, history, current_hash, has_legal_moves) == Some(GameEnding::Stalemate) ==> !has_legal_moves
            && !spec_player_is_in_check(m, m.turn),
        spec_game_ending(m, history, current_hash, has_legal_moves) == Some(GameEnding::Draw) ==> m.halfmove_clock()
            >= 100 || occurrences(history, current_hash) >= 3,
        !has_legal_moves ==> spec_game_ending(m, history, current_hash, has_legal_moves) is Some,
        (m.halfmove_clock() < 100 && occurrences(history, current_hash) < 3 && !has_legal_moves
            && spec_player_is_in_check(m, m.turn)) ==> spec_game_ending(m, history, current_hash, has_legal_moves)
            == Some(GameEnding::Checkmate),
        (m.halfmove_clock() < 100 && occurrences(history, current_hash) < 3 && has_legal_moves) ==> spec_game_ending(
            m,
            history,
            current_hash,
            has_legal_moves,
        ) is None,
{
}

/// A position counts once more each time it recurs, and not when another does.
pub proof fn lemma_occurrences_count_recurrences(history: Seq<u64>, hash: u64, next: u64)
    ensures
        occurrences(history.push(next), hash) == occurrences(history, hash) + if next == hash { 1int } else { 0int },
{
    assert(history.push(next).drop_last() =~= history);
}

/// A side that is checkmated, away from the fifty-move draw, scores as lost
/// for it: below every evaluation when White is to move, above every
/// evaluation when Black is; a stalemate scores as a draw.
pub proof fn lemma_mated_side_loses(m: BoardModel, remaining_depth: int)
    requires
        0 <= remaining_depth <= 255,
        m.halfmove_clock() < 90,
    ensures
        spec_player_is_in_check(m, m.turn) && m.turn == Color::White ==> spec_score(
            m,
            m.turn,
            remaining_depth,
            false,
        ) < -16000,
        spec_player_is_in_check(m, m.turn) && m.turn == Color::Black ==> spec_score(
            m,
            m.turn,
            remaining_depth,
            false,
        ) > 16000,
        !spec_player_is_in_check(m, m.turn) && remaining_depth > 0 ==> spec_score(m, m.turn, remaining_depth, false)
            == 0,
{
}

/// The material worth of the pieces rises from pawn to king, in the order of
/// their kind numbers: pawn, knight, bishop, rook, queen, king; every piece
/// is worth at least a pawn of a hundred.
pub proof fn lemma_material_values_rise(i: int, j: int)
    requires
        0 <= i < j < 6,
    ensures
        100 <= MATERIAL_VALUES[i] < MATERIAL_VALUES[j],
{
}

} // verus!
