//! History heuristic for chess move ordering.
//!
//! Tracks which quiet moves cause beta cutoffs, so that moves which often
//! cause cutoffs can be tried before moves which rarely do.
use vstd::prelude::*;

use crate::square::Square;

verus! {

/// Number of entries: one per (from square, to square) pair.
pub const HISTORY_SIZE: usize = 4096;

/// The slot of the table that holds the counter of the move `from -> to`.
pub open spec fn history_slot(from: Square, to: Square) -> int {
    (from.spec_index() * 64 + to.spec_index()) as int
}

/// The amount a cutoff at `depth` adds to a counter: deeper cutoffs weigh more.
pub open spec fn cutoff_bonus(depth: u8) -> u32 {
    ((depth as int + 1) * (depth as int + 1)) as u32
}

/// Counter `c` after a cutoff at `depth`: the addition wraps around on overflow,
/// as the atomic counters of a concurrent table do.
pub open spec fn counter_after_cutoff(c: u32, depth: u8) -> u32 {
    ((c as int + cutoff_bonus(depth) as int) % 0x1_0000_0000) as u32
}

/// History table tracking how often each move caused a beta cutoff.
/// Each of the 64 * 64 entries is a counter for one (from, to) square pair.
pub struct HistoryTable {
    table: Vec<u32>,
}

impl View for HistoryTable {
    type V = Seq<u32>;

    closed spec fn view(&self) -> Seq<u32> {
        self.table@
    }
}

impl HistoryTable {
    /// Every table has one counter per square pair.
    pub open spec fn wf(&self) -> bool {
        self@.len() == HISTORY_SIZE
    }

    /// The counter of the move `from -> to`.
    pub open spec fn spec_score(&self, from: Square, to: Square) -> u32 {
        self@[history_slot(from, to)]
    }

    /// A table whose counters are all zero.
    pub fn new() -> (r: Self)
        ensures
            r.wf(),
            r@ == Seq::new(HISTORY_SIZE as nat, |i: int| 0u32),
    {
        let mut table: Vec<u32> = Vec::new();
        while table.len() < HISTORY_SIZE
            invariant
                table.len() <= HISTORY_SIZE,
                forall|i: int| 0 <= i < table.len() ==> table@[i] == 0u32,
            decreases HISTORY_SIZE - table.len(),
        {
            table.push(0);
        }
        let r = Self { table };
        assert(r@ =~= Seq::new(HISTORY_SIZE as nat, |i: int| 0u32));
        r
    }

    /// The slot of the move `from -> to`.
    fn index(from: Square, to: Square) -> (r: usize)
        ensures
            r == history_slot(from, to),
            r < HISTORY_SIZE,
    {
        (from.index() as usize) * 64 + (to.index() as usize)
    }

    /// Records that the move `from -> to` caused a beta cutoff at `depth`: its
    /// counter grows by `(depth + 1)^2`, wrapping around on overflow.
    pub fn record_cutoff(&mut self, from: Square, to: Square, depth: u8)
        requires
            old(self).wf(),
        ensures
            final(self).wf(),
            final(self)@ == old(self)@.update(
                history_slot(from, to),
                counter_after_cutoff(old(self)@[history_slot(from, to)], depth),
            ),
            final(self).spec_score(from, to) == counter_after_cutoff(old(self).spec_score(from, to), depth),
            forall|f: Square, t: Square|
                (f != from || t != to) ==> #[trigger] final(self).spec_score(f, t) == old(self).spec_score(f, t),
    {
        proof {
            assert forall|f: Square, t: Square| (f != from || t != to) implies #[trigger] self@.update(
                history_slot(from, to),
                counter_after_cutoff(self@[history_slot(from, to)], depth),
            )[history_slot(f, t)] == self@[history_slot(f, t)] by {
                lemma_history_slots_distinct(from, to, f, t);
                lemma_history_slots_distinct(f, t, from, to);
            }
            crate::square::lemma_index_bound(from);
            crate::square::lemma_index_bound(to);
        }
        let idx = Self::index(from, to);
        let d: u32 = depth as u32 + 1;
        assert(d * d <= 65536) by (nonlinear_arith)
            requires
                d <= 256,
        ;
        let bonus: u32 = d * d;
        let updated = self.table[idx].wrapping_add(bonus);
        self.table.set(idx, updated);
    }

    /// Returns the counter of the move `from -> to`.
    pub fn score(&self, from: Square, to: Square) -> (r: u32)
        requires
            self.wf(),
        ensures
            r == self.spec_score(from, to),
    {
        let idx = Self::index(from, to);
        self.table[idx]
    }

    /// Halves every counter, so that old cutoffs count less than new ones and
    /// the counters cannot grow without bound.
    pub fn age(&mut self)
        requires
            old(self).wf(),
        ensures
            final(self).wf(),
            final(self)@ == Seq::new(HISTORY_SIZE as nat, |i: int| (old(self)@[i] / 2) as u32),
    {
        let mut i: usize = 0;
        while i < self.table.len()
            invariant
                self.table.len() == HISTORY_SIZE,
                i <= self.table.len(),
                forall|j: int| 0 <= j < i ==> self.table@[j] == old(self)@[j] / 2,
                forall|j: int| i <= j < HISTORY_SIZE ==> self.table@[j] == old(self)@[j],
            decreases self.table.len() - i,
        {
            let current = self.table[i];
            self.table.set(i, current / 2);
            i = i + 1;
        }
        assert(self@ =~= Seq::new(HISTORY_SIZE as nat, |i: int| (old(self)@[i] / 2) as u32));
    }

    /// Resets every counter to zero.
    pub fn clear(&mut self)
        requires
            old(self).wf(),
        ensures
            final(self).wf(),
            final(self)@ == Seq::new(HISTORY_SIZE as nat, |i: int| 0u32),
    {
        let mut i: usize = 0;
        while i < self.table.len()
            invariant
                self.table.len() == HISTORY_SIZE,
                i <= self.table.len(),
                forall|j: int| 0 <= j < i ==> self.table@[j] == 0u32,
            decreases self.table.len() - i,
        {
            self.table.set(i, 0);
            i = i + 1;
        }
        assert(self@ =~= Seq::new(HISTORY_SIZE as nat, |i: int| 0u32));
    }
}

impl Default for HistoryTable {
    fn default() -> (r: Self)
        ensures
            r.wf(),
            r@ == Seq::new(HISTORY_SIZE as nat, |i: int| 0u32),
    {
        Self::new()
    }
}


/// Different moves have different counters.
pub proof fn lemma_history_slots_distinct(from1: Square, to1: Square, from2: Square, to2: Square)
    requires
        from1 != from2 || to1 != to2,
    ensures
        history_slot(from1, to1) != history_slot(from2, to2),
        0 <= history_slot(from1, to1) < HISTORY_SIZE,
{
    crate::square::lemma_index_bound(from1);
    crate::square::lemma_index_bound(to1);
    crate::square::lemma_index_bound(from2);
    crate::square::lemma_index_bound(to2);
    crate::square::lemma_index_injective(from1, from2);
    crate::square::lemma_index_injective(to1, to2);
}

/// Recording a cutoff for one move leaves the counter of every other move as it was.
pub proof fn lemma_cutoff_leaves_other_moves(
    before: Seq<u32>,
    after: Seq<u32>,
    from: Square,
    to: Square,
    depth: u8,
    other_from: Square,
    other_to: Square,
)
    requires
        before.len() == HISTORY_SIZE,
        after == before.update(history_slot(from, to), counter_after_cutoff(before[history_slot(from, to)], depth)),
        other_from != from || other_to != to,
    ensures
        after[history_slot(other_from, other_to)] == before[history_slot(other_from, other_to)],
{
    lemma_history_slots_distinct(from, to, other_from, other_to);
    lemma_history_slots_distinct(other_from, other_to, from, to);
}

/// A cutoff raises the counter of its move by `(depth + 1)^2`, unless the
/// counter wraps around.
pub proof fn lemma_cutoff_raises_counter(c: u32, depth: u8)
    requires
        c as int + cutoff_bonus(depth) as int <= u32::MAX,
    ensures
        counter_after_cutoff(c, depth) == c + (depth as int + 1) * (depth as int + 1),
        counter_after_cutoff(c, depth) > c,
{
    assert(0 < (depth as int + 1) * (depth as int + 1) <= 65536) by (nonlinear_arith)
        requires
            depth <= 255,
    ;
}

} // verus!
