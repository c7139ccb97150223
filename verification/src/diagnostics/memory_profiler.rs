//! Counters of board clones and move generator creations.
use vstd::prelude::*;
use vstd::string::StringExecFns;

use crate::text::{decimal_string, decimal_text};

verus! {

/// Counts board clones and move generator creations.
#[derive(Debug, Clone, Copy, Default)]
pub struct MemoryProfiler {
    pub board_clones: usize,
    pub movegen_creates: usize,
}

/// A counter advanced by one, wrapping around at the top as an atomic counter does.
pub open spec fn bumped(x: usize) -> usize {
    if x == usize::MAX {
        0
    } else {
        (x + 1) as usize
    }
}

/// A counter advanced `k` times from `x`.
pub open spec fn bumped_times(x: usize, k: nat) -> usize
    decreases k,
{
    if k == 0 {
        x
    } else {
        bumped(bumped_times(x, (k - 1) as nat))
    }
}

/// After a reset, `k` recorded events (no more than a counter holds) read
/// back as `k`.
pub proof fn lemma_counts_after_reset(k: nat)
    requires
        k <= usize::MAX,
    ensures
        bumped_times(0, k) == k,
    decreases k,
{
    if k > 0 {
        lemma_counts_after_reset((k - 1) as nat);
    }
}

impl MemoryProfiler {
    /// Counts one more board clone.
    pub fn record_board_clone(&mut self)
        ensures
            final(self).board_clones == bumped(old(self).board_clones),
            final(self).movegen_creates == old(self).movegen_creates,
    {
        self.board_clones = self.board_clones.wrapping_add(1);
    }

    /// Counts one more move generator creation.
    pub fn record_movegen_create(&mut self)
        ensures
            final(self).movegen_creates == bumped(old(self).movegen_creates),
            final(self).board_clones == old(self).board_clones,
    {
        self.movegen_creates = self.movegen_creates.wrapping_add(1);
    }

    /// Sets both counters back to zero.
    pub fn reset(&mut self)
        ensures
            final(self).board_clones == 0,
            final(self).movegen_creates == 0,
    {
        self.board_clones = 0;
        self.movegen_creates = 0;
    }

    /// The report of the counters: "Board clones: " and the count, then on
    /// the next line "MoveGen creates: " and the count.
    pub fn stats_lines(&self) -> (r: (String, String))
        ensures
            r.0@ == "Board clones: "@ + decimal_text(self.board_clones as nat),
            r.1@ == "MoveGen creates: "@ + decimal_text(self.movegen_creates as nat),
    {
        (
            String::from_str("Board clones: ").concat(decimal_string(self.board_clones as u64).as_str()),
            String::from_str("MoveGen creates: ").concat(decimal_string(self.movegen_creates as u64).as_str()),
        )
    }
}

} // verus!
