//! Deciding what one game against Stockfish scored for the engine, and how
//! the Elo under test moves after each level of games.
use vstd::prelude::*;

use crate::evaluate::GameEnding;
use crate::piece::{Color, Piece};
use crate::square::{spec_algebraic, Square};

verus! {

/// Games played at one Elo before the score at that level is judged.
pub const GAMES_PER_ELO: usize = 10;

/// How far the Elo under test moves between levels.
pub const ELO_INCREMENT: u32 = 25;

/// The result of one game, seen from the engine's side.
#[derive(Clone, Copy, Debug, PartialEq, Eq, Structural)]
pub enum GameResult {
    Win,
    Loss,
    Draw,
}

/// The result for the engine, playing `engine_color`, of a game that ended
/// as `ending` with `side_to_move` to move: the side to move is the one
/// that is mated, and every other ending is a draw.
pub open spec fn spec_game_result(ending: GameEnding, side_to_move: Color, engine_color: Color) -> GameResult {
    match ending {
        GameEnding::Checkmate => if side_to_move == engine_color {
            GameResult::Loss
        } else {
            GameResult::Win
        },
        _ => GameResult::Draw,
    }
}

/// The result for the engine of a game that ended as `ending`.
pub fn game_result(ending: GameEnding, side_to_move: Color, engine_color: Color) -> (r: GameResult)
    ensures
        r == spec_game_result(ending, side_to_move, engine_color),
{
    match ending {
        GameEnding::Checkmate => if side_to_move == engine_color {
            GameResult::Loss
        } else {
            GameResult::Win
        },
        _ => GameResult::Draw,
    }
}

/// The piece that the fifth character of a move in UCI notation promotes
/// to: `r`, `b` and `n` name a rook, bishop and knight, and any other
/// character a queen. With no fifth character there is no promotion.
pub fn promotion_piece(c: Option<char>) -> (r: Option<Piece>)
    ensures
        c is None ==> r is None,
        c == Some('r') ==> r == Some(Piece::Rook),
        c == Some('b') ==> r == Some(Piece::Bishop),
        c == Some('n') ==> r == Some(Piece::Knight),
        c matches Some(x) && x != 'r' && x != 'b' && x != 'n' ==> r == Some(Piece::Queen),
{
    match c {
        None => None,
        Some(x) => Some(
            if x == 'r' {
                Piece::Rook
            } else if x == 'b' {
                Piece::Bishop
            } else if x == 'n' {
                Piece::Knight
            } else {
                Piece::Queen
            },
        ),
    }
}

/// The Elo that the measurement starts at: the one asked for, raised to
/// Stockfish's minimum.
pub fn initial_elo(starting_elo: u32, min_elo: u32) -> (r: u32)
    ensures
        r == (if starting_elo >= min_elo { starting_elo } else { min_elo }),
{
    if starting_elo >= min_elo {
        starting_elo
    } else {
        min_elo
    }
}

/// What follows a level of games that did not settle the Elo.
#[derive(Clone, Copy, Debug, PartialEq, Eq, Structural)]
pub enum LevelOutcome {
    /// The engine scored more than half: play the next level at this Elo.
    Raise(u32),
    /// The engine scored half or less: play the next level at this Elo.
    Lower(u32),
    /// The engine scored half or less at Stockfish's minimum: the
    /// measurement ends, reporting this Elo.
    Floor(u32),
}

/// Whether `wins` and `draws` out of `games` score more than half, a win
/// counting one and a draw one half.
pub open spec fn scored_over_half(wins: int, draws: int, games: int) -> bool {
    2 * wins + draws > games
}

/// The outcome of a level at `current_elo` that did not settle the Elo.
pub open spec fn spec_level_outcome(current_elo: int, min_elo: int, wins: int, draws: int, games: int) -> LevelOutcome {
    if scored_over_half(wins, draws, games) {
        LevelOutcome::Raise((current_elo + ELO_INCREMENT) as u32)
    } else if current_elo <= min_elo {
        LevelOutcome::Floor(min_elo as u32)
    } else {
        let lowered = if current_elo >= ELO_INCREMENT {
            current_elo - ELO_INCREMENT
        } else {
            0
        };
        LevelOutcome::Lower((if lowered >= min_elo { lowered } else { min_elo }) as u32)
    }
}

/// Decides where the measurement goes after a level of `games` games at
/// `current_elo` in which the engine won `wins` and drew `draws` without
/// settling its Elo. The counts of a level are small, so the score compares
/// exactly with half the games.
pub fn level_outcome(current_elo: u32, min_elo: u32, wins: usize, draws: usize, games: usize) -> (r: LevelOutcome)
    requires
        games <= GAMES_PER_ELO,
        wins + draws <= games,
        scored_over_half(wins as int, draws as int, games as int) ==> current_elo + ELO_INCREMENT <= u32::MAX,
    ensures
        r == spec_level_outcome(current_elo as int, min_elo as int, wins as int, draws as int, games as int),
        r matches LevelOutcome::Raise(e) ==> e > current_elo,
        r matches LevelOutcome::Lower(e) ==> min_elo <= e < current_elo,
        r matches LevelOutcome::Floor(e) ==> e == min_elo && current_elo <= min_elo,
{
    if 2 * wins + draws > games {
        LevelOutcome::Raise(current_elo + ELO_INCREMENT)
    } else if current_elo <= min_elo {
        LevelOutcome::Floor(min_elo)
    } else {
        let lowered = current_elo.saturating_sub(ELO_INCREMENT);
        LevelOutcome::Lower(if lowered >= min_elo { lowered } else { min_elo })
    }
}

/// What happened at one step of a game between the engine and Stockfish.
#[derive(Clone, Copy, Debug, PartialEq, Eq, Structural)]
pub enum GameStepEvent {
    /// Before the move, the game was over.
    GameOver(GameEnding),
    /// The engine made its move.
    EngineMoved,
    /// The engine could not choose a move.
    EngineFailed,
    /// Stockfish gave no move.
    StockfishFailed,
    /// Stockfish's move does not name two squares.
    StockfishMoveUnreadable,
    /// Stockfish's move is not a legal move on the engine's board.
    StockfishMoveIllegal,
    /// Stockfish's move was made.
    StockfishMoved,
}

/// How a game against Stockfish goes on after `event`, with `side_to_move`
/// to move: it ends with the engine's result, or goes on (`None`). A game
/// that is over is scored by `spec_game_result`; any failure of the engine,
/// of Stockfish, or of reading or playing Stockfish's move ends it as a draw.
pub open spec fn spec_game_step(event: GameStepEvent, side_to_move: Color, engine_color: Color) -> Option<GameResult> {
    match event {
        GameStepEvent::GameOver(ending) => Some(spec_game_result(ending, side_to_move, engine_color)),
        GameStepEvent::EngineMoved | GameStepEvent::StockfishMoved => None,
        _ => Some(GameResult::Draw),
    }
}

/// Decides how a game against Stockfish goes on after `event`.
pub fn game_step(event: GameStepEvent, side_to_move: Color, engine_color: Color) -> (r: Option<GameResult>)
    ensures
        r == spec_game_step(event, side_to_move, engine_color),
{
    match event {
        GameStepEvent::GameOver(ending) => Some(game_result(ending, side_to_move, engine_color)),
        GameStepEvent::EngineMoved | GameStepEvent::StockfishMoved => None,
        _ => Some(GameResult::Draw),
    }
}

/// Reads Stockfish's move from its first two squares' texts and its fifth
/// character: the two squares and the promotion, or `None` when either
/// text names no square.
pub fn read_stockfish_move(from: &str, to: &str, fifth: Option<char>) -> (r: Option<(Square, Square, Option<Piece>)>)
    ensures
        match r {
            Some((f, t, p)) => spec_algebraic(f) == from@ && spec_algebraic(t) == to@ && p == (match fifth {
                None => None,
                Some(c) => Some(
                    if c == 'r' {
                        Piece::Rook
                    } else if c == 'b' {
                        Piece::Bishop
                    } else if c == 'n' {
                        Piece::Knight
                    } else {
                        Piece::Queen
                    },
                ),
            }),
            None => (forall|sq: Square| spec_algebraic(sq) != from@) || (forall|sq: Square| spec_algebraic(sq) != to@),
        },
{
    let f = match Square::from_algebraic(from) {
        Some(sq) => sq,
        None => return None,
    };
    let t = match Square::from_algebraic(to) {
        Some(sq) => sq,
        None => return None,
    };
    Some((f, t, promotion_piece(fifth)))
}

} // verus!
