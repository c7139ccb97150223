//! Game modes: who plays each side, and how fast the moves come.
use vstd::prelude::*;

use core::time::Duration;

use crate::piece::Color;

verus! {

/// A human plays `human_color` against the engine.
#[derive(Debug, Clone, Copy)]
pub struct HumanVsComputer {
    pub human_color: Color,
}

/// The engine plays both sides; a slight pause between moves makes the game
/// easier to follow.
#[derive(Debug, Clone, Copy)]
pub struct ComputerVsComputer {
    pub delay_between_moves: Option<Duration>,
}

/// Two humans play each other.
#[derive(Debug, Clone, Copy)]
pub struct HumanVsHuman;

impl HumanVsComputer {
    /// No pause between frames.
    pub fn frame_delay(&self) -> (r: Option<Duration>)
        ensures
            r is None,
    {
        None
    }
}

impl ComputerVsComputer {
    /// The configured pause between moves.
    pub fn frame_delay(&self) -> (r: Option<Duration>)
        ensures
            r == self.delay_between_moves,
    {
        self.delay_between_moves
    }
}

impl HumanVsHuman {
    /// No pause between frames.
    pub fn frame_delay(&self) -> (r: Option<Duration>)
        ensures
            r is None,
    {
        None
    }
}

} // verus!
