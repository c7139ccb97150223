//! How the game is shown between moves.
use vstd::prelude::*;

use core::time::Duration;

use vstd::string::StringExecFns;

use crate::evaluate::GameEnding;
use crate::game::engine::SearchStats;
use crate::piece::Color;
use crate::text::{decimal_string, decimal_text};

verus! {

/// Shows the board and asks for the next move.
#[derive(Debug, Clone, Copy)]
pub struct SimpleRenderer;

/// Shows the board with search statistics, pausing between moves.
#[derive(Debug, Clone, Copy)]
pub struct StatsRenderer {
    pub delay_between_moves: Option<Duration>,
}

/// Shows the board with search statistics, asking the human of `human_color` for moves.
#[derive(Debug, Clone, Copy)]
pub struct ConditionalStatsRenderer {
    pub human_color: Color,
}

impl SimpleRenderer {
    /// No pause between frames.
    pub fn frame_delay(&self) -> (r: Option<Duration>)
        ensures
            r is None,
    {
        None
    }
}

impl StatsRenderer {
    /// The configured pause between moves.
    pub fn frame_delay(&self) -> (r: Option<Duration>)
        ensures
            r == self.delay_between_moves,
    {
        self.delay_between_moves
    }
}

impl ConditionalStatsRenderer {
    /// No pause between frames.
    pub fn frame_delay(&self) -> (r: Option<Duration>)
        ensures
            r is None,
    {
        None
    }
}

/// The line announcing that a game ended as `ending`.
pub open spec fn spec_ending_message(ending: GameEnding) -> Seq<char> {
    match ending {
        GameEnding::Checkmate => "Checkmate!"@,
        GameEnding::Stalemate => "Stalemate!"@,
        GameEnding::Draw => "Draw!"@,
    }
}

/// The line announcing that a game ended as `ending`.
pub fn ending_message(ending: GameEnding) -> (r: &'static str)
    ensures
        r@ == spec_ending_message(ending),
{
    match ending {
        GameEnding::Checkmate => "Checkmate!",
        GameEnding::Stalemate => "Stalemate!",
        GameEnding::Draw => "Draw!",
    }
}

/// The prompt for the next move.
pub open spec fn move_prompt() -> Seq<char> {
    "Enter your move:"@
}

impl SimpleRenderer {
    /// The line printed below the board: how the game ended, or the prompt
    /// for the next move.
    pub fn closing_line(&self, game_ending: Option<GameEnding>) -> (r: &'static str)
        ensures
            r@ == (match game_ending {
                Some(ending) => spec_ending_message(ending),
                None => move_prompt(),
            }),
    {
        match game_ending {
            Some(ending) => ending_message(ending),
            None => "Enter your move:",
        }
    }
}

impl StatsRenderer {
    /// The line printed below the board, if any: how the game ended.
    pub fn closing_line(&self, game_ending: Option<GameEnding>) -> (r: Option<&'static str>)
        ensures
            match game_ending {
                Some(ending) => r matches Some(line) && line@ == spec_ending_message(ending),
                None => r is None,
            },
    {
        match game_ending {
            Some(ending) => Some(ending_message(ending)),
            None => None,
        }
    }
}

impl ConditionalStatsRenderer {
    /// The line printed below the board, if any: how the game ended, or the
    /// prompt for the next move when the human is to move.
    pub fn closing_line(&self, game_ending: Option<GameEnding>, current_turn: Color) -> (r: Option<&'static str>)
        ensures
            match game_ending {
                Some(ending) => r matches Some(line) && line@ == spec_ending_message(ending),
                None => if current_turn == self.human_color {
                    r matches Some(line) && line@ == move_prompt()
                } else {
                    r is None
                },
            },
    {
        match game_ending {
            Some(ending) => Some(ending_message(ending)),
            None => if current_turn == self.human_color {
                Some("Enter your move:")
            } else {
                None
            },
        }
    }
}

/// The decimal text of a score, with a minus sign when it is negative.
pub open spec fn score_text(score: i16) -> Seq<char> {
    if score < 0 {
        "-"@ + decimal_text((-score) as nat)
    } else {
        decimal_text(score as nat)
    }
}

/// The last score as text, or "-" when there is none.
pub open spec fn last_score_text(score: Option<i16>) -> Seq<char> {
    match score {
        Some(s) => score_text(s),
        None => "-"@,
    }
}

fn score_string(score: Option<i16>) -> (r: String)
    ensures
        r@ == last_score_text(score),
{
    match score {
        Some(s) => if s < 0 {
            let magnitude: u64 = (-(s as i32)) as u64;
            String::from_str("-").concat(decimal_string(magnitude).as_str())
        } else {
            decimal_string(s as u64)
        },
        None => String::from_str("-"),
    }
}

/// The statistics shown beside the board while the engine plays: the last
/// score, the positions searched and the depth, and how long the move took
/// (`move_took`, the written duration, or "-" when none was measured).
pub fn stats_display(stats: &SearchStats, move_took: Option<&str>) -> (r: String)
    ensures
        r@ == "* Score: "@ + last_score_text(stats.last_score) + "\n* Positions searched: "@ + decimal_text(
            stats.positions_searched as nat,
        ) + " (depth: "@ + decimal_text(stats.depth as nat) + ")\n* Move took: "@ + match move_took {
            Some(t) => t@,
            None => "-"@,
        },
{
    let took = match move_took {
        Some(t) => t,
        None => "-",
    };
    String::from_str("* Score: ").concat(score_string(stats.last_score).as_str()).concat(
        "\n* Positions searched: ",
    ).concat(decimal_string(stats.positions_searched as u64).as_str()).concat(" (depth: ").concat(
        decimal_string(stats.depth as u64).as_str(),
    ).concat(")\n* Move took: ").concat(took)
}

/// The statistics shown beside the board between moves: the last score,
/// the positions searched and the search depth.
pub fn search_stats_text(stats: &SearchStats) -> (r: String)
    ensures
        r@ == "* Score: "@ + last_score_text(stats.last_score) + "\n* Positions searched: "@ + decimal_text(
            stats.positions_searched as nat,
        ) + "\n* Search depth: "@ + decimal_text(stats.depth as nat),
{
    String::from_str("* Score: ").concat(score_string(stats.last_score).as_str()).concat(
        "\n* Positions searched: ",
    ).concat(decimal_string(stats.positions_searched as u64).as_str()).concat("\n* Search depth: ").concat(
        decimal_string(stats.depth as u64).as_str(),
    )
}

/// Whether a game between two engines stops at its move limit: a limit of
/// zero means none, and otherwise the game stops once the full-move number
/// passes the limit.
pub fn move_limit_reached(move_limit: u8, fullmove_clock: u8) -> (r: bool)
    ensures
        r == (move_limit > 0 && fullmove_clock > move_limit),
{
    move_limit > 0 && fullmove_clock > move_limit
}

} // verus!
