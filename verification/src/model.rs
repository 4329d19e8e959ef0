//! What the evaluator computes, as mathematics.
//!
//! The expected value of a state is a rational number. It is stated here as
//! an integer count of units, the unit of a state being `1 / (2 * 300^k)`
//! with `k` the state's depth: the number of betting turns that can still
//! follow it, those after a reset included.

use vstd::prelude::*;
use crate::state::{State, BET_STEP, BREACH_LIMIT, HORIZON};
use crate::value::{scaled, LOSS_SHARE, WIN_SHARE};

verus! {

/// 0 after the reset, 1 before it.
pub open spec fn regime_rank(state: State) -> nat {
    if state.is_restarted {
        0
    } else {
        1
    }
}

impl State {
    /// Number of betting turns that can still follow this state, those after
    /// a reset included.
    pub open spec fn depth(&self) -> nat {
        if self.is_restarted {
            (HORIZON - self.t) as nat
        } else {
            (2 * HORIZON - self.t) as nat
        }
    }

    /// Computes the depth.
    pub fn levels(&self) -> (depth: u8)
        requires
            self.t <= HORIZON,
        ensures
            depth == self.depth(),
    {
        if self.is_restarted {
            HORIZON - self.t
        } else {
            2 * HORIZON - self.t
        }
    }

    /// The expected value under optimal play, in units of
    /// `1 / (2 * 300^depth)`.
    pub open spec fn expected_units(&self) -> int {
        outcome(*self).0
    }

    /// The bet that optimal play makes next; 0 where no bet is made.
    pub open spec fn optimal_bet(&self) -> int {
        outcome(*self).1
    }
}

/// Expected value in units and next bet of a state.
///
/// In this order: a busted account is worth nothing. At the breach limit
/// half of the balance is withdrawn, and where the account is reset the
/// value of the fresh start is added. At the horizon, or with a risk budget
/// below the smallest bet, nothing more is to be had. Otherwise the best
/// candidate bet decides.
pub open spec fn outcome(state: State) -> (int, int)
    decreases regime_rank(state), HORIZON - state.t, 82nat,
{
    if !state.in_range() || state.failed() {
        (0, 0)
    } else if state.d >= BREACH_LIMIT {
        if state.restart_continues() {
            (
                scaled(
                    scaled(state.s as int, HORIZON as nat) + outcome(state.fresh_start()).0,
                    (HORIZON - state.t) as nat,
                ),
                0,
            )
        } else {
            (scaled(state.s as int, state.depth()), 0)
        }
    } else if state.t == HORIZON || state.remaining_drawdown() < BET_STEP {
        (0, 0)
    } else {
        best_of(state, state.bet_count())
    }
}

/// Value in units and amount of the best among the first `count` candidate
/// bets. A later candidate replaces an earlier one only if it is worth
/// strictly more.
pub open spec fn best_of(state: State, count: nat) -> (int, int)
    decreases regime_rank(state), HORIZON - state.t, count + 1,
{
    if !state.in_range() || state.t >= HORIZON {
        (0, 0)
    } else if count <= 1 {
        (bet_units(state, 50), 50)
    } else {
        let earlier = best_of(state, (count - 1) as nat);
        let bet: int = 50 * (count as int);
        if bet_units(state, bet) > earlier.0 {
            (bet_units(state, bet), bet)
        } else {
            earlier
        }
    }
}

/// Value of a bet in units of the state that makes it: a third of the value
/// after a win and `197/300` of the value after a loss, the share of the
/// loss being two thirds discounted by `0.985`.
pub open spec fn bet_units(state: State, bet: int) -> int
    decreases regime_rank(state), HORIZON - state.t, 0nat,
{
    if !state.in_range() || state.t >= HORIZON {
        0
    } else {
        WIN_SHARE * outcome(state.after_win(bet)).0 + LOSS_SHARE * outcome(
            state.after_loss(bet),
        ).0
    }
}

} // verus!
