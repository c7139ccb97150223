//! Engine configuration, errors and search statistics.
use vstd::prelude::*;

use core::time::Duration;

use crate::board::{starting_model, Board, BoardError};
use crate::chess_move::chess_move::ChessMove;
use crate::game::action::{GameAction, GameMode};
use crate::piece::{Color, Piece};
use crate::square::Square;
use crate::text::str_equals;
use vstd::std_specs::cmp::PartialEqSpec;

verus! {

/// Engine configuration: how deep to search, and the position to start from.
pub struct EngineConfig {
    pub search_depth: u8,
    pub starting_position: Board,
}

impl Default for EngineConfig {
    /// A search depth of 4 from the standard starting position.
    fn default() -> (r: Self)
        ensures
            r.search_depth == 4,
            r.starting_position@.wf(),
            r.starting_position@ == starting_model(),
    {
        Self { search_depth: 4, starting_position: Board::default() }
    }
}

/// Why the engine refused a request.
#[derive(Debug, Clone, Copy, PartialEq, Eq, Structural)]
pub enum EngineError {
    InvalidMove,
    BoardError { error: BoardError },
    SearchError,
}

/// Search performance statistics.
#[derive(Debug, Clone, Copy)]
pub struct SearchStats {
    pub positions_searched: usize,
    pub depth: u8,
    pub last_score: Option<i16>,
    pub last_search_duration: Option<Duration>,
}

/// How much worse than even the engine scores a draw, in centipawns, so that
/// it prefers to play on.
pub const CONTEMPT_VALUE: i16 = 25;

/// The contempt for a draw when `turn` is searching: a draw counts against
/// the searching side, so it is negative when White maximises and positive
/// when Black minimises.
pub fn contempt(turn: Color) -> (r: i16)
    ensures
        r == (if turn == Color::White { -(CONTEMPT_VALUE as int) } else { CONTEMPT_VALUE as int }),
{
    if turn.maximize_score() {
        -CONTEMPT_VALUE
    } else {
        CONTEMPT_VALUE
    }
}

/// A move of the game with its notation and the score after it, if known.
#[derive(Clone, Debug)]
pub struct MoveHistoryEntry {
    pub chess_move: ChessMove,
    pub notation: String,
    pub score: Option<i16>,
}

/// Whether `m` goes from `from` to `to` and, when `promotion` names a
/// piece, is a promotion to that piece.
pub open spec fn moves_between(m: ChessMove, from: Square, to: Square, promotion: Option<Piece>) -> bool {
    &&& m.spec_from_square() == from
    &&& m.spec_to_square() == to
    &&& match promotion {
        Some(piece) => match m {
            ChessMove::PawnPromotion(pm) => pm.spec_promote_to_piece() == piece,
            _ => false,
        },
        None => true,
    }
}

/// The index of the first of `moves` that goes from `from` to `to` (as a
/// promotion to `promotion`, when given), which is the move the engine
/// plays when asked for one by its squares.
pub fn find_move_by_squares(moves: &Vec<(ChessMove, String)>, from: Square, to: Square, promotion: Option<Piece>) -> (r:
    Option<usize>)
    ensures
        match r {
            Some(i) => i < moves.len() && moves_between(moves[i as int].0, from, to, promotion) && forall|j: int|
                0 <= j < i ==> !moves_between(#[trigger] moves[j].0, from, to, promotion),
            None => forall|j: int| 0 <= j < moves.len() ==> !moves_between(#[trigger] moves[j].0, from, to, promotion),
        },
{
    let mut i: usize = 0;
    while i < moves.len()
        invariant
            i <= moves.len(),
            forall|j: int| 0 <= j < i ==> !moves_between(#[trigger] moves[j].0, from, to, promotion),
        decreases moves.len() - i,
    {
        let m = moves[i].0;
        let kind_fits = match promotion {
            Some(piece) => match m {
                ChessMove::PawnPromotion(pm) => pm.promote_to_piece() == piece,
                _ => false,
            },
            None => true,
        };
        if m.from_square() == from && m.to_square() == to && kind_fits {
            return Some(i);
        }
        i = i + 1;
    }
    None
}

/// The index of the first of `moves` whose notation is `notation`.
pub fn find_move_by_notation(moves: &Vec<(ChessMove, String)>, notation: &str) -> (r: Option<usize>)
    ensures
        match r {
            Some(i) => i < moves.len() && moves[i as int].1@ == notation@ && forall|j: int|
                0 <= j < i ==> #[trigger] moves[j].1@ != notation@,
            None => forall|j: int| 0 <= j < moves.len() ==> #[trigger] moves[j].1@ != notation@,
        },
{
    let mut i: usize = 0;
    while i < moves.len()
        invariant
            i <= moves.len(),
            forall|j: int| 0 <= j < i ==> #[trigger] moves[j].1@ != notation@,
        decreases moves.len() - i,
    {
        if str_equals(moves[i].1.as_str(), notation) {
            return Some(i);
        }
        i = i + 1;
    }
    None
}

/// The notation of the first of `moves` between the squares of `best`,
/// which is how the engine writes down a move it chose itself.
pub fn notation_for_move(moves: &Vec<(ChessMove, String)>, best: ChessMove) -> (r: Option<String>)
    ensures
        match r {
            Some(n) => exists|i: int|
                0 <= i < moves.len() && n@ == moves[i].1@ && moves_between(moves[i].0, best.spec_from_square(), best.spec_to_square(), None)
                    && forall|j: int| 0 <= j < i ==> !moves_between(#[trigger] moves[j].0, best.spec_from_square(), best.spec_to_square(), None),
            None => forall|j: int|
                0 <= j < moves.len() ==> !moves_between(#[trigger] moves[j].0, best.spec_from_square(), best.spec_to_square(), None),
        },
{
    match find_move_by_squares(moves, best.from_square(), best.to_square(), None) {
        Some(i) => Some(moves[i].1.clone()),
        None => None,
    }
}

/// The index of the first of `moves` equal to `last` under `==`: where the
/// notation of the last move is found to show it beside the board.
pub fn find_equal_move(moves: &Vec<(ChessMove, String)>, last: &ChessMove) -> (r: Option<usize>)
    ensures
        match r {
            Some(i) => i < moves.len() && moves[i as int].0.eq_spec(last) && forall|j: int|
                0 <= j < i ==> !(#[trigger] moves[j].0).eq_spec(last),
            None => forall|j: int| 0 <= j < moves.len() ==> !(#[trigger] moves[j].0).eq_spec(last),
        },
{
    let mut i: usize = 0;
    while i < moves.len()
        invariant
            i <= moves.len(),
            forall|j: int| 0 <= j < i ==> !(#[trigger] moves[j].0).eq_spec(last),
        decreases moves.len() - i,
    {
        if moves[i].0 == *last {
            return Some(i);
        }
        i = i + 1;
    }
    None
}

impl EngineConfig {
    /// The configuration of a game in `mode` from `starting_position`: the
    /// chosen search depth, except between two humans, where the engine does
    /// not search.
    pub fn for_mode(mode: GameMode, depth: u8, starting_position: &Board) -> (r: EngineConfig)
        ensures
            r.search_depth == (if mode == GameMode::Pvp { 0 } else { depth }),
            r.starting_position@ == starting_position@,
    {
        EngineConfig { search_depth: mode.search_depth(depth), starting_position: starting_position.clone() }
    }
}

/// What follows a game in `mode` that ended with `action`: `None` when the
/// player exits; otherwise the mode of the next game (the same one on a
/// restart, the chosen one on a switch) and its configuration, which starts
/// again from `starting_position`, the position the first game started from.
pub fn next_game(action: GameAction, mode: GameMode, depth: u8, starting_position: &Board) -> (r: Option<
    (GameMode, EngineConfig),
>)
    ensures
        (action == GameAction::Exit) <==> r is None,
        action == GameAction::RestartSameMode ==> (r matches Some((next, _)) && next == mode),
        action is SwitchGameMode ==> (r matches Some((next, _)) && next == action->target),
        r matches Some((next, config)) ==> config.search_depth == (if next == GameMode::Pvp { 0 } else { depth })
            && config.starting_position@ == starting_position@,
{
    match action.next_mode(mode) {
        None => None,
        Some(next) => Some((next, EngineConfig::for_mode(next, depth, starting_position))),
    }
}

} // verus!
