//! The evaluator: expected value and next bet of a state, computed once for
//! each state that play can reach.

use vstd::prelude::*;
use crate::bounds::{lemma_outcome_bounded, lemma_unit_bound_fits};
use crate::memo::Memo;
use crate::model::{best_of, bet_units, regime_rank};
use crate::state::{drawdown_policy, is_failed, State, BET_STEP, BREACH_LIMIT, HORIZON};
use crate::stats::{capped, RunStatistics};
use crate::value::{lemma_scaled_within, Value};

verus! {

/// Evaluates a state: its expected value under optimal play and the bet
/// that optimal play makes next.
///
/// The result depends on the state alone. The memo store only saves work:
/// the state's entry is returned where there is one, and written where
/// there was none.
pub fn dp(state: State, memo: &mut Memo, stats: &mut RunStatistics) -> (result: (Value, i32))
    requires
        state.in_range(),
        old(memo).wf(),
        old(stats).wf(),
    ensures
        result.0.units() == state.expected_units(),
        result.0.depth == state.depth(),
        result.0.small(),
        result.1 == state.optimal_bet(),
        final(memo).wf(),
        final(memo).grown_from(*old(memo), state),
        final(memo).contains(state),
        final(memo).entry(state) == result,
        old(memo).contains(state) ==> final(memo)@ == old(memo)@,
        old(memo).contains(state) ==> final(stats).memo_hits == capped(old(stats).memo_hits + 1),
        !old(memo).contains(state) ==> final(memo)@.len() > old(memo)@.len(),
        final(stats).counted_from(*old(stats), final(memo)@.len() - old(memo)@.len()),
        final(stats).evaluations == u64::MAX || final(stats).evaluations > old(stats).evaluations,
    decreases regime_rank(state), HORIZON - state.t, 2nat,
{
    proof {
        lemma_outcome_bounded(state);
        lemma_unit_bound_fits(state);
    }
    match memo.get(&state) {
        Some(found) => {
            stats.record_hit();
            return found;
        },
        None => {},
    }
    stats.record_miss();
    let result: (Value, i32) = if is_failed(&state) {
        (Value::zero(state.levels()), 0)
    } else if state.d >= BREACH_LIMIT {
        settle_breach(&state, memo, stats)
    } else if state.t == HORIZON {
        (Value::zero(state.levels()), 0)
    } else if drawdown_policy(&state).remaining_drawdown < BET_STEP as i128 {
        (Value::zero(state.levels()), 0)
    } else {
        best_bet(&state, memo, stats)
    };
    memo.record(&state, result.0, result.1);
    result
}

/// Settles a state at the breach limit: half of the balance is withdrawn,
/// and where play goes on after the reset, the value of the fresh start is
/// added. No bet is made.
pub fn settle_breach(state: &State, memo: &mut Memo, stats: &mut RunStatistics) -> (result: (
    Value,
    i32,
))
    requires
        state.in_range(),
        !state.failed(),
        state.d >= BREACH_LIMIT,
        old(memo).wf(),
        old(stats).wf(),
    ensures
        result.0.units() == state.expected_units(),
        result.0.depth == state.depth(),
        result.1 == 0,
        state.optimal_bet() == 0,
        final(memo).wf(),
        final(memo).grown_after(*old(memo), *state),
        !state.restart_continues() ==> final(memo)@ == old(memo)@,
        final(stats).counted_from(*old(stats), final(memo)@.len() - old(memo)@.len()),
    decreases regime_rank(*state), HORIZON - state.t, 1nat,
{
    proof {
        lemma_outcome_bounded(*state);
        lemma_unit_bound_fits(*state);
    }
    match state.restart() {
        None => (Value::half(state.s).rescaled(state.levels()), 0),
        Some(fresh) => {
            let (rest, _) = dp(fresh, memo, stats);
            proof {
                lemma_outcome_bounded(fresh);
                lemma_unit_bound_fits(fresh);
                lemma_scaled_within(state.s as int, crate::bounds::balance_cap(), 10);
            }
            let withdrawn = Value::half(state.s).rescaled(HORIZON);
            let total = withdrawn.plus(&rest);
            (total.rescaled(HORIZON - state.t), 0)
        },
    }
}

/// Tries the candidate bets in rising order and keeps the best: a later
/// bet replaces an earlier one only if it is worth strictly more.
pub fn best_bet(state: &State, memo: &mut Memo, stats: &mut RunStatistics) -> (best: (Value, i32))
    requires
        state.in_range(),
        state.t < HORIZON,
        state.d < BREACH_LIMIT,
        state.bet_count() >= 1,
        old(memo).wf(),
        old(stats).wf(),
    ensures
        best.0.units() == best_of(*state, state.bet_count()).0,
        best.0.depth == state.depth(),
        best.1 == best_of(*state, state.bet_count()).1,
        final(memo).wf(),
        final(memo).grown_after(*old(memo), *state),
        final(stats).counted_from(*old(stats), final(memo)@.len() - old(memo)@.len()),
    decreases regime_rank(*state), HORIZON - state.t, 1nat,
{
    let count: u8 = state.count_bets();
    let depth: u8 = state.levels();
    let mut best: (Value, i32) = (Value::zero(depth), 0);
    let mut tried: u8 = 0;
    while tried < count
        invariant
            state.in_range(),
            state.t < HORIZON,
            state.d < BREACH_LIMIT,
            count == state.bet_count(),
            1 <= count <= 80,
            tried <= count,
            depth == state.depth(),
            best.0.depth == depth,
            tried >= 1 ==> best.0.units() == best_of(*state, tried as nat).0 && best.1 == best_of(
                *state,
                tried as nat,
            ).1,
            memo.wf(),
            memo.grown_after(*old(memo), *state),
            stats.counted_from(*old(stats), memo@.len() - old(memo)@.len()),
        decreases count - tried,
    {
        tried = tried + 1;
        let bet: i64 = 50 * (tried as i64);
        let win = state.win(bet);
        let lose = state.lose(bet);
        let (win_value, _) = dp(win, memo, stats);
        let (lose_value, _) = dp(lose, memo, stats);
        proof {
            lemma_outcome_bounded(win);
            lemma_unit_bound_fits(win);
            lemma_outcome_bounded(lose);
            lemma_unit_bound_fits(lose);
        }
        let expected = Value::blend(&win_value, &lose_value);
        assert(expected.units() == bet_units(*state, bet as int));
        if tried == 1 || expected.exceeds(&best.0) {
            best = (expected, bet as i32);
        }
    }
    best
}

} // verus!
