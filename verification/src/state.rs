//! The account state, the drawdown policy, the failure predicate and the
//! transitions between states.

use vstd::prelude::*;

verus! {

/// Number of betting turns in one evaluation window.
pub const HORIZON: u8 = 10;

/// Number of limit-breach days at which the account is reset.
pub const BREACH_LIMIT: u8 = 5;

/// Largest drawdown allowed in the opening regime while the high-water mark
/// has not passed it.
pub const DRAWDOWN_FLOOR: i64 = 2000;

/// Smallest bet, and the distance between two candidate bets.
pub const BET_STEP: i64 = 50;

/// Largest bet.
pub const MAX_BET: i64 = 4000;

/// A day's gain from which the day counts as a limit breach.
pub const BREACH_GAIN: i64 = 200;

/// Smallest balance with which play goes on after a reset.
pub const MIN_RESTART_BALANCE: i64 = 100;

/// Every balance and high-water mark of magnitude up to this limit is
/// accepted at any turn.
pub const BALANCE_LIMIT: i64 = 2147483648;

/// One decision point of the account.
#[derive(Debug, Clone, Copy, PartialEq, Eq, Hash, Structural)]
pub struct State {
    /// Current equity.
    pub s: i64,
    /// Highest balance reached since the last reset.
    pub h: i64,
    /// Days on which the limit was breached.
    pub d: u8,
    /// Turns used so far.
    pub t: u8,
    /// Whether the account has been reset.
    pub is_restarted: bool,
}

/// What the drawdown rule leaves to a state.
#[derive(Debug, Clone, Copy, PartialEq, Eq, Structural)]
pub struct Drawdown {
    /// Largest permitted distance below the high-water mark.
    pub max_drawdown_allowed: i128,
    /// Distance of the balance below the high-water mark, never negative.
    pub current_drawdown: i128,
    /// Risk budget that is left.
    pub remaining_drawdown: i128,
}

impl State {
    /// The states on which the evaluator works: the turn lies within the
    /// horizon, and balance and high-water mark are such as play can reach
    /// by that turn from amounts within `BALANCE_LIMIT`.
    pub open spec fn in_range(&self) -> bool {
        &&& self.t <= HORIZON
        &&& -BALANCE_LIMIT - 4000 * self.t <= self.s <= BALANCE_LIMIT + 8000 * self.t
        &&& -BALANCE_LIMIT <= self.h <= BALANCE_LIMIT + 8000 * self.t
    }

    /// Whether the account is busted.
    pub open spec fn failed(&self) -> bool {
        if self.is_restarted {
            self.s <= 0
        } else if self.h <= DRAWDOWN_FLOOR {
            self.s < self.h - DRAWDOWN_FLOOR
        } else {
            self.s <= 0
        }
    }

    /// Largest permitted drawdown.
    pub open spec fn max_drawdown_allowed(&self) -> int {
        if self.is_restarted || self.h > DRAWDOWN_FLOOR {
            self.h as int
        } else {
            DRAWDOWN_FLOOR as int
        }
    }

    /// Distance of the balance below the high-water mark, never negative.
    pub open spec fn current_drawdown(&self) -> int {
        if self.h - self.s > 0 {
            self.h - self.s
        } else {
            0
        }
    }

    /// Risk budget that is left.
    pub open spec fn remaining_drawdown(&self) -> int {
        self.max_drawdown_allowed() - self.current_drawdown()
    }

    /// Largest amount that the next bet may have: the risk budget, in the
    /// restarted regime also the balance, and never more than `MAX_BET`.
    pub open spec fn bet_limit(&self) -> int {
        let budget = if self.is_restarted && self.s < self.remaining_drawdown() {
            self.s as int
        } else {
            self.remaining_drawdown()
        };
        if budget < MAX_BET {
            budget
        } else {
            MAX_BET as int
        }
    }

    /// Number of candidate bets: `BET_STEP`, twice `BET_STEP`, and so on up
    /// to the bet limit.
    pub open spec fn bet_count(&self) -> nat {
        if self.bet_limit() < BET_STEP {
            0
        } else {
            (self.bet_limit() / 50) as nat
        }
    }

    /// The state after a bet of `bet` was won.
    pub open spec fn after_win(&self, bet: int) -> State {
        let balance = self.s + 2 * bet;
        State {
            s: balance as i64,
            h: if self.h >= balance {
                self.h
            } else {
                balance as i64
            },
            d: if 2 * bet >= BREACH_GAIN {
                (self.d + 1) as u8
            } else {
                self.d
            },
            t: (self.t + 1) as u8,
            is_restarted: self.is_restarted,
        }
    }

    /// The state after a bet of `bet` was lost.
    pub open spec fn after_loss(&self, bet: int) -> State {
        State {
            s: (self.s - bet) as i64,
            h: self.h,
            d: self.d,
            t: (self.t + 1) as u8,
            is_restarted: self.is_restarted,
        }
    }

    /// Whether play goes on after the reset: the half of the balance that
    /// stays in the account is at least `MIN_RESTART_BALANCE`.
    pub open spec fn restart_continues(&self) -> bool {
        !self.is_restarted && self.s / 2 >= MIN_RESTART_BALANCE
    }

    /// The state in which play goes on after the reset.
    pub open spec fn fresh_start(&self) -> State {
        State { s: (self.s / 2) as i64, h: (self.s / 2) as i64, d: 0, t: 0, is_restarted: true }
    }

    /// Computes the number of candidate bets.
    pub fn count_bets(&self) -> (count: u8)
        ensures
            count == self.bet_count(),
            count <= 80,
    {
        let policy = drawdown_policy(self);
        let budget: i128 = if self.is_restarted && (self.s as i128) < policy.remaining_drawdown {
            self.s as i128
        } else {
            policy.remaining_drawdown
        };
        if budget < 50 {
            0
        } else if budget < 4000 {
            (budget / 50) as u8
        } else {
            80
        }
    }

    /// Computes the state after a bet of `bet` was won.
    pub fn win(&self, bet: i64) -> (next: State)
        requires
            self.in_range(),
            self.t < HORIZON,
            self.d < u8::MAX,
            0 <= bet <= MAX_BET,
        ensures
            next == self.after_win(bet as int),
            next.in_range(),
    {
        let balance: i64 = self.s + 2 * bet;
        State {
            s: balance,
            h: if self.h >= balance {
                self.h
            } else {
                balance
            },
            d: if 2 * bet >= BREACH_GAIN {
                self.d + 1
            } else {
                self.d
            },
            t: self.t + 1,
            is_restarted: self.is_restarted,
        }
    }

    /// Computes the state after a bet of `bet` was lost.
    pub fn lose(&self, bet: i64) -> (next: State)
        requires
            self.in_range(),
            self.t < HORIZON,
            0 <= bet <= MAX_BET,
        ensures
            next == self.after_loss(bet as int),
            next.in_range(),
    {
        State {
            s: self.s - bet,
            h: self.h,
            d: self.d,
            t: self.t + 1,
            is_restarted: self.is_restarted,
        }
    }

    /// Computes the state in which play goes on after the reset, if it does.
    pub fn restart(&self) -> (next: Option<State>)
        ensures
            self.restart_continues() ==> next == Some(self.fresh_start()),
            !self.restart_continues() ==> next.is_none(),
            self.in_range() && self.restart_continues() ==> self.fresh_start().in_range(),
    {
        if self.is_restarted || self.s < 2 * MIN_RESTART_BALANCE {
            None
        } else {
            let half: i64 = self.s / 2;
            Some(State { s: half, h: half, d: 0, t: 0, is_restarted: true })
        }
    }

    /// Tells whether the state is one the evaluator works on.
    pub fn is_in_range(&self) -> (ok: bool)
        ensures
            ok == self.in_range(),
    {
        let t: i64 = self.t as i64;
        self.t <= HORIZON && -BALANCE_LIMIT - 4000 * t <= self.s && self.s <= BALANCE_LIMIT + 8000
            * t && -BALANCE_LIMIT <= self.h && self.h <= BALANCE_LIMIT + 8000 * t
    }
}

/// Decides whether a state is busted, so that nothing more can be had from it.
pub fn is_failed(state: &State) -> (failed: bool)
    ensures
        failed == state.failed(),
{
    if state.is_restarted {
        state.s <= 0
    } else if state.h <= DRAWDOWN_FLOOR {
        (state.s as i128) < state.h as i128 - 2000
    } else {
        state.s <= 0
    }
}

/// Computes the permitted drawdown, the current drawdown and the risk budget
/// that is left.
pub fn drawdown_policy(state: &State) -> (policy: Drawdown)
    ensures
        policy.max_drawdown_allowed == state.max_drawdown_allowed(),
        policy.current_drawdown == state.current_drawdown(),
        policy.remaining_drawdown == state.remaining_drawdown(),
{
    let max_drawdown_allowed: i128 = if state.is_restarted || state.h > DRAWDOWN_FLOOR {
        state.h as i128
    } else {
        DRAWDOWN_FLOOR as i128
    };
    let gap: i128 = state.h as i128 - state.s as i128;
    let current_drawdown: i128 = if gap > 0 {
        gap
    } else {
        0
    };
    Drawdown {
        max_drawdown_allowed,
        current_drawdown,
        remaining_drawdown: max_drawdown_allowed - current_drawdown,
    }
}

} // verus!
