//! Who plays each side, and how fast the moves come.
use vstd::prelude::*;

use core::time::Duration;

use crate::piece::Color;

verus! {

/// A human plays `human_color` against the engine.
#[derive(Debug, Clone, Copy)]
pub struct HumanVsComputer {
    pub human_color: Color,
}

/// The engine plays both sides, searching `depth` plies, with an optional pause between moves.
#[derive(Debug, Clone, Copy)]
pub struct ComputerVsComputer {
    pub depth: u8,
    pub delay: Option<Duration>,
}

/// Two humans play each other.
#[derive(Debug, Clone, Copy)]
pub struct HumanVsHuman;

impl HumanVsComputer {
    /// No pause between frames.
    pub fn frame_delay(&self) -> (r: Option<Duration>)
        ensures
            r is None,
    {
        None
    }
}

impl ComputerVsComputer {
    /// The configured pause between moves.
    pub fn frame_delay(&self) -> (r: Option<Duration>)
        ensures
            r == self.delay,
    {
        self.delay
    }
}

impl HumanVsHuman {
    /// No pause between frames.
    pub fn frame_delay(&self) -> (r: Option<Duration>)
        ensures
            r is None,
    {
        None
    }
}

} // verus!
