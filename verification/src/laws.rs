//! Laws of the model: what holds of every state.

use vstd::prelude::*;
use crate::memo::Memo;
use crate::model::{best_of, bet_units, outcome, regime_rank};
use crate::state::{State, BET_STEP, BREACH_LIMIT, DRAWDOWN_FLOOR, HORIZON, MAX_BET};
use crate::value::{
    lemma_scaled_grows, lemma_scaled_monotone, scaled, LOSS_SHARE, SHARE_SCALE, WIN_SHARE,
};

verus! {

/// The shares of the two outcomes of a bet are their odds, a third and two
/// thirds, the share of the loss discounted by `0.985`.
pub proof fn law_shares_are_discounted_odds()
    ensures
        3 * WIN_SHARE == SHARE_SCALE,
        3 * 1000 * LOSS_SHARE == 2 * 985 * SHARE_SCALE,
{
}

/// In the opening regime, while the high-water mark has not passed the
/// floor, the permitted drawdown is the floor, whatever the balance. After
/// the reset it is the high-water mark.
pub proof fn law_max_drawdown_by_regime(state: State)
    ensures
        !state.is_restarted && state.h <= DRAWDOWN_FLOOR ==> state.max_drawdown_allowed()
            == DRAWDOWN_FLOOR,
        state.is_restarted ==> state.max_drawdown_allowed() == state.h,
{
}

/// At the horizon a state below the breach limit is worth nothing and no
/// bet is made, whatever its other fields.
pub proof fn law_horizon_ends_play(state: State)
    requires
        state.in_range(),
        state.t == HORIZON,
        state.failed() || state.d < BREACH_LIMIT,
    ensures
        state.expected_units() == 0,
        state.optimal_bet() == 0,
{
}

/// With a risk budget below the smallest bet a state below the breach limit
/// is worth nothing and no bet is made.
pub proof fn law_no_risk_room_ends_play(state: State)
    requires
        state.in_range(),
        state.remaining_drawdown() < BET_STEP,
        state.failed() || state.d < BREACH_LIMIT,
    ensures
        state.expected_units() == 0,
        state.optimal_bet() == 0,
{
}

/// A busted state is worth nothing and no bet is made.
pub proof fn law_failure_ends_play(state: State)
    requires
        state.failed(),
    ensures
        state.expected_units() == 0,
        state.optimal_bet() == 0,
{
}

/// At the breach limit no bet is made: a state that is not busted is worth
/// the half of its balance that is withdrawn, and the fresh start where
/// play goes on after the reset.
pub proof fn law_breach_limit_forces_settlement(state: State)
    requires
        state.in_range(),
        state.d >= BREACH_LIMIT,
    ensures
        state.optimal_bet() == 0,
        state.failed() ==> state.expected_units() == 0,
        !state.failed() && state.restart_continues() ==> state.expected_units() == scaled(
            scaled(state.s as int, HORIZON as nat) + state.fresh_start().expected_units(),
            (HORIZON - state.t) as nat,
        ),
        !state.failed() && !state.restart_continues() ==> state.expected_units() == scaled(
            state.s as int,
            state.depth(),
        ),
{
}

/// Where bets are made, the first candidate bet is always allowed: after
/// the reset the risk budget never exceeds the balance.
pub proof fn law_first_bet_allowed(state: State)
    requires
        state.remaining_drawdown() >= BET_STEP,
    ensures
        state.bet_count() >= 1,
        state.bet_limit() == if state.remaining_drawdown() < 4000 {
            state.remaining_drawdown()
        } else {
            4000
        },
{
}

/// Where bets are made, the next bet is one of the candidates, it is worth
/// the state's expected value, no candidate is worth more, and every
/// smaller candidate is worth less.
pub proof fn law_optimal_bet_is_least_best(state: State, other: int)
    requires
        state.in_range(),
        !state.failed(),
        state.d < BREACH_LIMIT,
        state.t < HORIZON,
        state.remaining_drawdown() >= BET_STEP,
        1 <= other <= state.bet_count(),
    ensures
        state.optimal_bet() % 50 == 0,
        50 <= state.optimal_bet() <= 50 * state.bet_count(),
        bet_units(state, state.optimal_bet()) == state.expected_units(),
        bet_units(state, 50 * other) <= state.expected_units(),
        50 * other < state.optimal_bet() ==> bet_units(state, 50 * other) < state.expected_units(),
{
    lemma_best_is_least_best(state, state.bet_count(), other);
}

/// The next bet is none, or a candidate within the bet limit: a multiple of
/// `BET_STEP`, no less than `BET_STEP` and no more than `MAX_BET`.
pub proof fn law_optimal_bet_in_bounds(state: State)
    ensures
        state.optimal_bet() == 0 || (state.optimal_bet() % 50 == 0 && BET_STEP
            <= state.optimal_bet() <= state.bet_limit() && state.optimal_bet() <= MAX_BET),
{
    if state.in_range() && !state.failed() && state.d < BREACH_LIMIT && state.t < HORIZON
        && state.remaining_drawdown() >= BET_STEP {
        lemma_best_is_least_best(state, state.bet_count(), 1);
    }
}

/// The best of the first `count` candidates: see
/// `law_optimal_bet_is_least_best`.
pub proof fn lemma_best_is_least_best(state: State, count: nat, other: int)
    requires
        state.in_range(),
        state.t < HORIZON,
        1 <= other <= count,
    ensures
        best_of(state, count).1 % 50 == 0,
        50 <= best_of(state, count).1 <= 50 * count,
        bet_units(state, best_of(state, count).1) == best_of(state, count).0,
        bet_units(state, 50 * other) <= best_of(state, count).0,
        50 * other < best_of(state, count).1 ==> bet_units(state, 50 * other) < best_of(
            state,
            count,
        ).0,
    decreases count,
{
    if count > 1 {
        if other < count {
            lemma_best_is_least_best(state, (count - 1) as nat, other);
        } else {
            lemma_best_is_least_best(state, (count - 1) as nat, 1);
        }
    }
}

/// The expected value is never negative, but for a state at the breach
/// limit with a negative balance.
pub proof fn law_value_nonnegative(state: State)
    requires
        state.d < BREACH_LIMIT || state.s >= 0,
    ensures
        state.expected_units() >= 0,
    decreases regime_rank(state), HORIZON - state.t, 82nat,
{
    if !state.in_range() || state.failed() {
    } else if state.d >= BREACH_LIMIT {
        if state.restart_continues() {
            law_value_nonnegative(state.fresh_start());
            lemma_scaled_grows(state.s as int, 0, 10);
            lemma_scaled_grows(
                scaled(state.s as int, 10) + outcome(state.fresh_start()).0,
                0,
                (HORIZON - state.t) as nat,
            );
        } else {
            lemma_scaled_grows(state.s as int, 0, state.depth());
        }
    } else if state.t == HORIZON || state.remaining_drawdown() < BET_STEP {
    } else {
        lemma_best_nonnegative(state, state.bet_count());
    }
}

/// The best of the first candidates of a state below the breach limit is
/// never negative: the smallest bet leads to no breach.
pub proof fn lemma_best_nonnegative(state: State, count: nat)
    requires
        state.d < BREACH_LIMIT,
    ensures
        best_of(state, count).0 >= 0,
    decreases regime_rank(state), HORIZON - state.t, count + 1,
{
    if !state.in_range() || state.t >= HORIZON {
    } else if count <= 1 {
        law_value_nonnegative(state.after_win(50));
        law_value_nonnegative(state.after_loss(50));
        assert(bet_units(state, 50) == 100 * outcome(state.after_win(50)).0 + 197 * outcome(
            state.after_loss(50),
        ).0);
    } else {
        lemma_best_nonnegative(state, (count - 1) as nat);
    }
}

/// The same account one turn later.
pub open spec fn one_turn_later(state: State) -> State {
    State { t: (state.t + 1) as u8, ..state }
}

/// An account with one more turn left is worth at least as much.
pub proof fn lemma_one_more_turn(state: State)
    requires
        state.in_range(),
        one_turn_later(state).in_range(),
    ensures
        state.expected_units() >= 300 * one_turn_later(state).expected_units(),
    decreases HORIZON - state.t, 82nat,
{
    let later = one_turn_later(state);
    assert(later.failed() == state.failed());
    assert(later.remaining_drawdown() == state.remaining_drawdown());
    assert(later.bet_count() == state.bet_count());
    assert(state.depth() == later.depth() + 1);
    if state.failed() {
    } else if state.d >= BREACH_LIMIT {
        assert(later.restart_continues() == state.restart_continues());
        assert(later.fresh_start() == state.fresh_start());
    } else if later.t == HORIZON {
        law_value_nonnegative(state);
    } else if state.remaining_drawdown() < BET_STEP {
    } else {
        lemma_one_more_turn_best(state, state.bet_count());
    }
}

/// The best of the first candidates with one more turn left is worth at
/// least as much.
pub proof fn lemma_one_more_turn_best(state: State, count: nat)
    requires
        state.in_range(),
        one_turn_later(state).in_range(),
        one_turn_later(state).t < HORIZON,
        count <= 80,
    ensures
        best_of(state, count).0 >= 300 * best_of(one_turn_later(state), count).0,
    decreases HORIZON - state.t, count + 1,
{
    let later = one_turn_later(state);
    let bet: int = if count <= 1 {
        50
    } else {
        50 * (count as int)
    };
    assert(one_turn_later(state.after_win(bet)) == later.after_win(bet));
    assert(one_turn_later(state.after_loss(bet)) == later.after_loss(bet));
    lemma_one_more_turn(state.after_win(bet));
    lemma_one_more_turn(state.after_loss(bet));
    assert(bet_units(state, bet) == 100 * outcome(state.after_win(bet)).0 + 197 * outcome(
        state.after_loss(bet),
    ).0);
    assert(bet_units(later, bet) == 100 * outcome(later.after_win(bet)).0 + 197 * outcome(
        later.after_loss(bet),
    ).0);
    assert(bet_units(state, bet) >= 300 * bet_units(later, bet));
    if count > 1 {
        lemma_one_more_turn_best(state, (count - 1) as nat);
    }
}

/// Of two accounts that differ in the turn alone, the one with more turns
/// left is worth at least as much.
pub proof fn law_more_turns_never_hurt(earlier: State, later: State)
    requires
        earlier.in_range(),
        later.in_range(),
        earlier.t <= later.t,
        later == (State { t: later.t, ..earlier }),
    ensures
        earlier.expected_units() >= scaled(
            later.expected_units(),
            (later.t - earlier.t) as nat,
        ),
    decreases later.t - earlier.t,
{
    if earlier.t < later.t {
        let next = one_turn_later(earlier);
        lemma_one_more_turn(earlier);
        law_more_turns_never_hurt(next, later);
        lemma_scaled_monotone(
            scaled(later.expected_units(), (later.t - next.t) as nat),
            next.expected_units(),
            1,
        );
        assert(scaled(next.expected_units(), 1) == 300 * next.expected_units()) by {
            reveal_with_fuel(scaled, 2);
        }
        assert(scaled(scaled(later.expected_units(), (later.t - next.t) as nat), 1) == scaled(
            later.expected_units(),
            (later.t - earlier.t) as nat,
        )) by {
            reveal_with_fuel(scaled, 2);
        }
    }
}

/// Two stores whose entries are what the evaluator computes hold the same
/// entry for a state: what was stored earlier is what a fresh evaluation
/// gives.
pub proof fn law_entries_agree(first: Memo, second: Memo, state: State)
    requires
        first.wf(),
        second.wf(),
        state.in_range(),
        first.contains(state),
        second.contains(state),
    ensures
        first.entry(state) == second.entry(state),
{
}

} // verus!
