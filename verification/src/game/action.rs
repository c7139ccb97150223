//! Game action results for mode switching.
use vstd::prelude::*;

use crate::text::{ascii_lower, equals_ignoring_ascii_case};

verus! {

/// Mode identifier for tracking the current game mode.
#[derive(Debug, Clone, Copy, PartialEq, Eq, Structural)]
pub enum GameMode {
    Play,
    Watch,
    Pvp,
}

/// Whether `s`, ignoring the case of its ASCII letters, is `word`.
pub open spec fn names(s: Seq<char>, word: Seq<char>) -> bool {
    s.len() == word.len() && forall|j: int| 0 <= j < s.len() ==> ascii_lower(#[trigger] s[j]) == word[j]
}

impl GameMode {
    /// The mode named by `s` ("play", "watch" or "pvp", in any case).
    pub fn parse(s: &str) -> (r: Option<GameMode>)
        ensures
            r == (if names(s@, "play"@) {
                Some(GameMode::Play)
            } else if names(s@, "watch"@) {
                Some(GameMode::Watch)
            } else if names(s@, "pvp"@) {
                Some(GameMode::Pvp)
            } else {
                None
            }),
    {
        if equals_ignoring_ascii_case(s, "play") {
            Some(GameMode::Play)
        } else if equals_ignoring_ascii_case(s, "watch") {
            Some(GameMode::Watch)
        } else if equals_ignoring_ascii_case(s, "pvp") {
            Some(GameMode::Pvp)
        } else {
            None
        }
    }
}

/// What to do when a game ends.
#[derive(Debug, Clone, Copy, PartialEq, Eq, Structural)]
pub enum GameAction {
    /// Restart the game in the same mode.
    RestartSameMode,
    /// Switch to a different game mode.
    SwitchGameMode { target: GameMode },
    /// Exit the application.
    Exit,
}

impl GameAction {
    /// The mode of the next game when a game in `mode` ends with this action,
    /// or `None` to stop playing. Every next game starts again from the
    /// starting position.
    pub fn next_mode(self, mode: GameMode) -> (r: Option<GameMode>)
        ensures
            r == (match self {
                GameAction::RestartSameMode => Some(mode),
                GameAction::SwitchGameMode { target } => Some(target),
                GameAction::Exit => None,
            }),
    {
        match self {
            GameAction::RestartSameMode => Some(mode),
            GameAction::SwitchGameMode { target } => Some(target),
            GameAction::Exit => None,
        }
    }
}

impl GameMode {
    /// The search depth of the engine in a game of this mode: the chosen
    /// depth, except between two humans, where the engine does not search.
    pub fn search_depth(self, depth: u8) -> (r: u8)
        ensures
            r == (if self == GameMode::Pvp { 0 } else { depth }),
    {
        match self {
            GameMode::Pvp => 0,
            _ => depth,
        }
    }

    /// Whether a human moves for `side` in a game of this mode, where
    /// `human_color` is the human's side when playing the engine.
    pub fn human_moves_for(self, side: crate::piece::Color, human_color: crate::piece::Color) -> (r: bool)
        ensures
            r == (match self {
                GameMode::Play => side == human_color,
                GameMode::Watch => false,
                GameMode::Pvp => true,
            }),
    {
        match self {
            GameMode::Play => side == human_color,
            GameMode::Watch => false,
            GameMode::Pvp => true,
        }
    }
}

} // verus!
