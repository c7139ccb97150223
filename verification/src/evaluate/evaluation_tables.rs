//! Evaluation constants: material values, piece-square tables, and positional
//! scoring tables used by the evaluation function.
use vstd::prelude::*;

use crate::bitboard::{A_FILE, B_FILE, C_FILE, D_FILE, E_FILE, F_FILE, G_FILE, H_FILE};

verus! {

/// Matches ordering of `Piece` enum.
/// [pawn, knight, bishop, rook, queen, king]
pub const MATERIAL_VALUES: [i16; 6] = [100, 320, 330, 500, 900, 20000];

/// Midgame piece-square tables.
/// [pawn, knight, bishop, rook, queen, king]
pub const BONUS_TABLES_MG: [[i16; 64]; 6] = [
    PAWN_BONUSES_MG,
    KNIGHT_BONUSES,
    BISHOP_BONUSES,
    ROOK_BONUSES,
    QUEEN_BONUSES,
    KING_MIDGAME_BONUSES,
];

/// Endgame piece-square tables.
/// [pawn, knight, bishop, rook, queen, king]
pub const BONUS_TABLES_EG: [[i16; 64]; 6] = [
    PAWN_BONUSES_EG,
    KNIGHT_BONUSES,
    BISHOP_BONUSES,
    ROOK_BONUSES,
    QUEEN_BONUSES,
    KING_ENDGAME_BONUSES,
];

pub const SQUARE_TO_WHITE_BONUS_INDEX: [usize; 64] = [
    56, 57, 58, 59, 60, 61, 62, 63,
    48, 49, 50, 51, 52, 53, 54, 55,
    40, 41, 42, 43, 44, 45, 46, 47,
    32, 33, 34, 35, 36, 37, 38, 39,
    24, 25, 26, 27, 28, 29, 30, 31,
    16, 17, 18, 19, 20, 21, 22, 23,
     8,  9, 10, 11, 12, 13, 14, 15,
     0,  1,  2,  3,  4,  5,  6,  7,
];

pub const SQUARE_TO_BLACK_BONUS_INDEX: [usize; 64] = [
     7,  6,  5,  4,  3,  2,  1,  0,
    15, 14, 13, 12, 11, 10,  9,  8,
    23, 22, 21, 20, 19, 18, 17, 16,
    31, 30, 29, 28, 27, 26, 25, 24,
    39, 38, 37, 36, 35, 34, 33, 32,
    47, 46, 45, 44, 43, 42, 41, 40,
    55, 54, 53, 52, 51, 50, 49, 48,
    63, 62, 61, 60, 59, 58, 57, 56,
];

// --- Pawn PST (midgame and endgame) ---

pub const PAWN_BONUSES_MG: [i16; 64] = [
     0,  0,  0,  0,  0,  0,  0,  0,
    50, 50, 50, 50, 50, 50, 50, 50,
    10, 10, 20, 30, 30, 20, 10, 10,
     5,  5, 10, 25, 25, 10,  5,  5,
     0,  0,  0, 20, 20,  0,  0,  0,
     5, -5,-10,  0,  0,-10, -5,  5,
     5, 10, 10,-20,-20, 10, 10,  5,
     0,  0,  0,  0,  0,  0,  0,  0
];

/// Endgame pawn table: advanced pawns are more valuable (closer to promotion).
pub const PAWN_BONUSES_EG: [i16; 64] = [
     0,  0,  0,  0,  0,  0,  0,  0,
    70, 70, 70, 70, 70, 70, 70, 70,
    40, 40, 40, 40, 40, 40, 40, 40,
    20, 20, 20, 20, 20, 20, 20, 20,
    10, 10, 10, 10, 10, 10, 10, 10,
     5,  5,  5,  5,  5,  5,  5,  5,
     0,  0,  0,  0,  0,  0,  0,  0,
     0,  0,  0,  0,  0,  0,  0,  0
];

// --- Other piece PSTs (same for mg/eg for now) ---

pub const KNIGHT_BONUSES: [i16; 64] = [
    -50,-40,-30,-30,-30,-30,-40,-50,
    -40,-20,  0,  0,  0,  0,-20,-40,
    -30,  0, 10, 15, 15, 10,  0,-30,
    -30,  5, 15, 20, 20, 15,  5,-30,
    -30,  0, 15, 20, 20, 15,  0,-30,
    -30,  5, 10, 15, 15, 10,  5,-30,
    -40,-20,  0,  5,  5,  0,-20,-40,
    -50,-40,-30,-30,-30,-30,-40,-50,
];

pub const BISHOP_BONUSES: [i16; 64] = [
    -20,-10,-10,-10,-10,-10,-10,-20,
    -10,  0,  0,  0,  0,  0,  0,-10,
    -10,  0,  5, 10, 10,  5,  0,-10,
    -10,  5,  5, 10, 10,  5,  5,-10,
    -10,  0, 10, 10, 10, 10,  0,-10,
    -10, 10, 10, 10, 10, 10, 10,-10,
    -10,  5,  0,  0,  0,  0,  5,-10,
    -20,-10,-10,-10,-10,-10,-10,-20,
];

pub const ROOK_BONUSES: [i16; 64] = [
     0,  0,  0,  0,  0,  0,  0,  0,
     5, 10, 10, 10, 10, 10, 10,  5,
    -5,  0,  0,  0,  0,  0,  0, -5,
    -5,  0,  0,  0,  0,  0,  0, -5,
    -5,  0,  0,  0,  0,  0,  0, -5,
    -5,  0,  0,  0,  0,  0,  0, -5,
    -5,  0,  0,  0,  0,  0,  0, -5,
     0,  0,  0,  5,  5,  0,  0,  0
];

pub const QUEEN_BONUSES: [i16; 64] = [
    -20,-10,-10, -5, -5,-10,-10,-20,
    -10,  0,  0,  0,  0,  0,  0,-10,
    -10,  0,  5,  5,  5,  5,  0,-10,
     -5,  0,  5,  5,  5,  5,  0, -5,
      0,  0,  5,  5,  5,  5,  0, -5,
    -10,  5,  5,  5,  5,  5,  0,-10,
    -10,  0,  5,  0,  0,  0,  0,-10,
    -20,-10,-10, -5, -5,-10,-10,-20
];

pub const KING_MIDGAME_BONUSES: [i16; 64] = [
    -30,-40,-40,-50,-50,-40,-40,-30,
    -30,-40,-40,-50,-50,-40,-40,-30,
    -30,-40,-40,-50,-50,-40,-40,-30,
    -30,-40,-40,-50,-50,-40,-40,-30,
    -20,-30,-30,-40,-40,-30,-30,-20,
    -10,-20,-20,-20,-20,-20,-20,-10,
     20, 20,  0,  0,  0,  0, 20, 20,
     20, 30, 10,  0,  0, 10, 30, 20
];

pub const KING_ENDGAME_BONUSES: [i16; 64] = [
    -50,-40,-30,-20,-20,-30,-40,-50,
    -30,-20,-10,  0,  0,-10,-20,-30,
    -30,-10, 20, 30, 30, 20,-10,-30,
    -30,-10, 30, 40, 40, 30,-10,-30,
    -30,-10, 30, 40, 40, 30,-10,-30,
    -30,-10, 20, 30, 30, 20,-10,-30,
    -30,-30,  0,  0,  0,  0,-30,-30,
    -50,-30,-30,-30,-30,-30,-30,-50
];

// --- Game phase weights ---

/// Phase contribution per piece type: Knight=1, Bishop=1, Rook=2, Queen=4.
/// Index matches `Piece` enum: [pawn, knight, bishop, rook, queen, king].
pub const PHASE_WEIGHTS: [u8; 6] = [0, 1, 1, 2, 4, 0];

/// Maximum game phase value (all minor pieces + rooks + queens for both sides).
/// 2*(2*1 + 2*1 + 2*2 + 1*4) = 2*12 = 24
pub const MAX_PHASE: u8 = 24;

/// Bitboards of the eight files, A to H.
pub const FILE_MASKS: [u64; 8] = [A_FILE, B_FILE, C_FILE, D_FILE, E_FILE, F_FILE, G_FILE, H_FILE];

/// Adjacent file masks for each file (files to the left and right).
pub const ADJACENT_FILES: [u64; 8] = [
    B_FILE,
    A_FILE | C_FILE,
    B_FILE | D_FILE,
    C_FILE | E_FILE,
    D_FILE | F_FILE,
    E_FILE | G_FILE,
    F_FILE | H_FILE,
    G_FILE,
];

/// Passed pawn bonus by rank (from the pawn owner's side, index 0 = first rank).
/// The first and last ranks get nothing: no pawn stands there.
pub const PASSED_PAWN_BONUS_MG: [i16; 8] = [0, 5, 10, 20, 35, 50, 80, 0];
pub const PASSED_PAWN_BONUS_EG: [i16; 8] = [0, 10, 15, 30, 50, 70, 100, 0];

/// Penalty per extra pawn on the same file (doubled pawns).
pub const DOUBLED_PAWN_PENALTY: i16 = 10;

/// Penalty per isolated pawn (no friendly pawns on adjacent files).
pub const ISOLATED_PAWN_PENALTY: i16 = 12;

/// Penalty for a backward pawn (no support from behind, stop square attacked).
pub const BACKWARD_PAWN_PENALTY_MG: i16 = 10;
pub const BACKWARD_PAWN_PENALTY_EG: i16 = 15;

/// Bonus for a pawn with a friendly pawn beside it or diagonally behind it.
pub const CONNECTED_PAWN_BONUS_MG: i16 = 10;
pub const CONNECTED_PAWN_BONUS_EG: i16 = 15;

/// Bishop pair bonus.
pub const BISHOP_PAIR_BONUS_MG: i16 = 30;
pub const BISHOP_PAIR_BONUS_EG: i16 = 50;

/// Knight on an outpost (no enemy pawn can ever attack it), and the extra
/// bonus when a friendly pawn defends it.
pub const KNIGHT_OUTPOST_BONUS_MG: i16 = 20;
pub const KNIGHT_OUTPOST_BONUS_EG: i16 = 15;
pub const KNIGHT_OUTPOST_SUPPORTED_MG: i16 = 10;
pub const KNIGHT_OUTPOST_SUPPORTED_EG: i16 = 5;

/// Rook on open file bonus (no pawns on file) -- midgame/endgame.
pub const ROOK_OPEN_FILE_BONUS_MG: i16 = 20;
pub const ROOK_OPEN_FILE_BONUS_EG: i16 = 10;

/// Rook on semi-open file bonus (no friendly pawns on file) -- midgame/endgame.
pub const ROOK_SEMI_OPEN_FILE_BONUS_MG: i16 = 10;
pub const ROOK_SEMI_OPEN_FILE_BONUS_EG: i16 = 5;

/// Rook on 7th rank bonus -- midgame/endgame.
pub const ROOK_ON_SEVENTH_BONUS_MG: i16 = 15;
pub const ROOK_ON_SEVENTH_BONUS_EG: i16 = 30;

/// King safety: pawn shield bonus per shielding pawn (midgame only).
pub const PAWN_SHIELD_BONUS: i16 = 8;

/// King safety: penalty per open file near king (midgame only).
pub const KING_OPEN_FILE_PENALTY: i16 = 15;

/// King safety: penalty per unit of enemy pressure on the king zone (midgame only).
pub const KING_ATTACK_UNIT_PENALTY: i16 = 10;

/// Mobility: bonus per reachable square, for knights and bishops.
pub const KNIGHT_MOBILITY_MG: i16 = 4;
pub const KNIGHT_MOBILITY_EG: i16 = 4;
pub const BISHOP_MOBILITY_MG: i16 = 5;
pub const BISHOP_MOBILITY_EG: i16 = 5;

} // verus!
