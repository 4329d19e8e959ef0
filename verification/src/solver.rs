//! One evaluation run, from input to result.

use vstd::prelude::*;
use crate::evaluator::dp;
use crate::input::{input_fault, opening, opening_state, InputError};
use crate::memo::Memo;
use crate::stats::{capped, RunStatistics};
use crate::value::Value;

verus! {

/// What a run reports.
#[derive(Debug, Clone, Copy, PartialEq, Eq, Structural)]
pub struct Solution {
    /// Expected value of the opening state under optimal play.
    pub value: Value,
    /// The bet that optimal play makes first; 0 where no bet is made.
    pub bet: i32,
    /// The counters of the run.
    pub stats: RunStatistics,
    /// Number of distinct states that were evaluated.
    pub states: usize,
}

/// Runs one evaluation with a memo store and counters of its own: checks
/// the input, then evaluates the opening state.
pub fn solve(s: i32, h: i32, d: u8, t: u8) -> (solved: Result<Solution, InputError>)
    ensures
        input_fault(d, t) matches Some(fault) ==> solved == Err::<Solution, InputError>(fault),
        input_fault(d, t) is None ==> solved is Ok,
        solved matches Ok(solution) ==> {
            &&& solution.value.units() == opening(s, h, d, t).expected_units()
            &&& solution.value.depth == opening(s, h, d, t).depth()
            &&& solution.value.small()
            &&& solution.bet == opening(s, h, d, t).optimal_bet()
            &&& solution.stats.wf()
            &&& solution.stats.memo_misses == capped(solution.states as int)
            &&& solution.states >= 1
        },
{
    let state = match opening_state(s, h, d, t) {
        Ok(state) => state,
        Err(fault) => {
            return Err(fault);
        },
    };
    let mut memo = Memo::new();
    let mut stats = RunStatistics::new();
    let (value, bet) = dp(state, &mut memo, &mut stats);
    proof {
        memo.lemma_finite();
        if memo@.len() == 0 {
            assert(memo@.dom() =~= Set::<u128>::empty());
        }
    }
    Ok(Solution { value, bet, stats, states: memo.len() })
}

} // verus!
