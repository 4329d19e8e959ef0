//! Bounds on expected values, from which the arithmetic is shown to stay
//! within its working limit.

use vstd::prelude::*;
use crate::model::{best_of, bet_units, outcome, regime_rank};
use crate::state::{State, BREACH_LIMIT, HORIZON};
use crate::value::{
    lemma_scaled_grows, lemma_scaled_linear, lemma_scaled_monotone, lemma_scaled_twice,
    lemma_scaled_within, scaled, working_limit,
};

verus! {

/// No balance of a state in range exceeds this magnitude.
pub open spec fn balance_cap() -> int {
    2147563648
}

/// Bound on the magnitude of a state's expected value, in its units: after
/// the reset the value is at most half the largest balance, before it at
/// most the largest balance.
pub open spec fn unit_bound(state: State) -> int {
    if state.is_restarted {
        scaled(balance_cap(), state.depth())
    } else {
        scaled(2 * balance_cap(), state.depth())
    }
}

/// The unit bound is never negative and never exceeds the working limit.
pub proof fn lemma_unit_bound_fits(state: State)
    requires
        state.in_range(),
    ensures
        0 <= unit_bound(state) <= working_limit(),
{
    lemma_scaled_grows(balance_cap(), state.depth(), 20);
    lemma_scaled_grows(2 * balance_cap(), state.depth(), 20);
    lemma_scaled_monotone(balance_cap(), 2 * balance_cap(), 20);
    assert(scaled(2 * balance_cap(), 20) <= working_limit()) by {
        reveal_with_fuel(scaled, 21);
    }
}

/// The expected value of every state lies within its unit bound.
pub proof fn lemma_outcome_bounded(state: State)
    ensures
        -unit_bound(state) <= outcome(state).0 <= unit_bound(state),
    decreases regime_rank(state), HORIZON - state.t, 82nat,
{
    let depth = state.depth();
    lemma_scaled_grows(balance_cap(), 0, depth);
    lemma_scaled_monotone(balance_cap(), 2 * balance_cap(), depth);
    if !state.in_range() || state.failed() {
    } else if state.d >= BREACH_LIMIT {
        if state.restart_continues() {
            let fresh = state.fresh_start();
            let rest = (HORIZON - state.t) as nat;
            lemma_outcome_bounded(fresh);
            lemma_scaled_within(state.s as int, balance_cap(), 10);
            lemma_scaled_linear(balance_cap(), balance_cap(), 10);
            let inner = scaled(state.s as int, 10) + outcome(fresh).0;
            lemma_scaled_within(inner, scaled(2 * balance_cap(), 10), rest);
            lemma_scaled_twice(2 * balance_cap(), 10, rest);
        } else {
            lemma_scaled_within(state.s as int, balance_cap(), depth);
        }
    } else if state.t == HORIZON || state.remaining_drawdown() < 50 {
    } else {
        lemma_best_bounded(state, state.bet_count());
    }
}

/// The best of the first candidates lies within the state's unit bound.
pub proof fn lemma_best_bounded(state: State, count: nat)
    ensures
        -unit_bound(state) <= best_of(state, count).0 <= unit_bound(state),
    decreases regime_rank(state), HORIZON - state.t, count + 1,
{
    lemma_scaled_grows(balance_cap(), 0, state.depth());
    lemma_scaled_grows(2 * balance_cap(), 0, state.depth());
    if !state.in_range() || state.t >= HORIZON {
    } else if count <= 1 {
        lemma_bet_bounded(state, 50);
    } else {
        lemma_best_bounded(state, (count - 1) as nat);
        lemma_bet_bounded(state, 50 * (count as int));
    }
}

/// The value of a bet lies within the unit bound of the state that makes it.
pub proof fn lemma_bet_bounded(state: State, bet: int)
    ensures
        -unit_bound(state) <= bet_units(state, bet) <= unit_bound(state),
    decreases regime_rank(state), HORIZON - state.t, 0nat,
{
    lemma_scaled_grows(balance_cap(), 0, state.depth());
    lemma_scaled_grows(2 * balance_cap(), 0, state.depth());
    if state.in_range() && state.t < HORIZON {
        lemma_outcome_bounded(state.after_win(bet));
        lemma_outcome_bounded(state.after_loss(bet));
        assert(unit_bound(state) == 300 * unit_bound(state.after_win(bet)));
        assert(unit_bound(state) == 300 * unit_bound(state.after_loss(bet)));
    }
}

} // verus!
