//! What the search asks of a chess position and of its evaluation.
use vstd::prelude::*;

use crate::board::Board;
use crate::evaluate::evaluation::{
    current_player_is_in_check, is_endgame, score, score_evaluates, spec_player_is_in_check, spec_score,
    evaluation_in_range,
};
use crate::piece::Color;

verus! {

impl Board {
    /// Whether the side to move maximizes the score (White does).
    pub fn is_maximizing_player(&self) -> (r: bool)
        ensures
            r == (self@.turn == Color::White),
    {
        self.turn().maximize_score()
    }

    /// Whether the side to move is in check.
    pub fn is_in_check(&self) -> (r: bool)
        ensures
            r == spec_player_is_in_check(self@, self@.turn),
    {
        current_player_is_in_check(self)
    }

    /// Whether the position is an endgame: no queen is left.
    pub fn is_endgame(&self) -> (r: bool)
        ensures
            r == (self@.white.queens == 0 && self@.black.queens == 0),
    {
        is_endgame(self)
    }
}

/// Scores positions for the search.
#[derive(Clone, Copy, Debug, Default)]
pub struct ChessEvaluator;

impl ChessEvaluator {
    /// The evaluator; it holds no state.
    pub fn new() -> (r: Self)
        ensures
            r == ChessEvaluator,
    {
        ChessEvaluator
    }

    /// The score of `state` from White's side, for the side to move;
    /// `has_legal_moves` tells whether that side can move.
    pub fn evaluate(&self, state: &Board, remaining_depth: u8, has_legal_moves: bool) -> (r: i16)
        requires
            state@.wf(),
            score_evaluates(state@, remaining_depth as int, has_legal_moves) ==> evaluation_in_range(state@),
        ensures
            r == spec_score(state@, state@.turn, remaining_depth as int, has_legal_moves),
    {
        score(state, state.turn(), remaining_depth, has_legal_moves)
    }
}

} // verus!
