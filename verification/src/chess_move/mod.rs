pub mod algebraic_notation;
pub mod capture;
pub mod castle;
pub mod chess_move;
pub mod chess_move_effect;
pub mod en_passant;
pub mod pawn_promotion;
pub mod standard;
