//! Counters of one evaluation run. They only observe: no result depends on
//! them.

use vstd::prelude::*;

verus! {

/// `n`, or `u64::MAX` where `n` is larger: what a counter shows after `n`
/// events.
pub open spec fn capped(n: int) -> int {
    if n < u64::MAX {
        n
    } else {
        u64::MAX as int
    }
}

/// How often the evaluator was entered, and how often it found the state in
/// the memo store or not. A counter that reaches `u64::MAX` stays there.
#[derive(Debug, Clone, Copy, PartialEq, Eq, Structural)]
pub struct RunStatistics {
    /// Evaluations in all.
    pub evaluations: u64,
    /// Evaluations answered from the memo store.
    pub memo_hits: u64,
    /// Evaluations that had to compute.
    pub memo_misses: u64,
}

impl RunStatistics {
    /// Every evaluation is a hit or a miss.
    pub open spec fn wf(&self) -> bool {
        self.evaluations == capped(self.memo_hits + self.memo_misses)
    }

    /// Whether these counters are `before` after some evaluations that
    /// added `added` entries to the memo store: every miss adds one entry.
    pub open spec fn counted_from(&self, before: RunStatistics, added: int) -> bool {
        &&& self.wf()
        &&& self.memo_misses == capped(before.memo_misses + added)
        &&& self.memo_hits >= before.memo_hits
        &&& self.evaluations >= before.evaluations
    }

    /// Counters at the start of a run.
    pub fn new() -> (stats: RunStatistics)
        ensures
            stats.evaluations == 0,
            stats.memo_hits == 0,
            stats.memo_misses == 0,
            stats.wf(),
    {
        RunStatistics { evaluations: 0, memo_hits: 0, memo_misses: 0 }
    }

    /// Counts an evaluation answered from the memo store.
    pub fn record_hit(&mut self)
        requires
            old(self).wf(),
        ensures
            final(self).wf(),
            final(self).evaluations == capped(old(self).evaluations + 1),
            final(self).memo_hits == capped(old(self).memo_hits + 1),
            final(self).memo_misses == old(self).memo_misses,
    {
        if self.evaluations < u64::MAX {
            self.evaluations = self.evaluations + 1;
        }
        if self.memo_hits < u64::MAX {
            self.memo_hits = self.memo_hits + 1;
        }
    }

    /// Counts an evaluation that has to compute.
    pub fn record_miss(&mut self)
        requires
            old(self).wf(),
        ensures
            final(self).wf(),
            final(self).evaluations == capped(old(self).evaluations + 1),
            final(self).memo_misses == capped(old(self).memo_misses + 1),
            final(self).memo_hits == old(self).memo_hits,
    {
        if self.evaluations < u64::MAX {
            self.evaluations = self.evaluations + 1;
        }
        if self.memo_misses < u64::MAX {
            self.memo_misses = self.memo_misses + 1;
        }
    }
}

} // verus!
