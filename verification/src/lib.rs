//! Optimal betting policy for a trading-challenge account under a trailing
//! maximum-drawdown rule.
//!
//! The account is described by a [`State`]. From a state the evaluator
//! [`dp`] computes the largest discounted expected value that can still be
//! extracted before the horizon, and the size of the next bet that attains
//! it. Expected values are exact rationals, held as a [`Value`], so that
//! every result is determined by the state alone and is stated as such in
//! the evaluator's contract.
//!
//! - `state`: the state, the drawdown policy, the failure predicate and the
//!   transitions.
//! - `value`: exact arithmetic on expected values.
//! - `model`: what the evaluator computes, as mathematics.
//! - `bounds`: bounds on expected values.
//! - `memo`: the memo store.
//! - `stats`: the counters of a run.
//! - `evaluator`: the evaluator.
//! - `input`: the opening state and the inputs that are refused.
//! - `solver`: one run from input to result.
//! - `laws`: what holds of every state.

pub mod bounds;
pub mod evaluator;
pub mod input;
pub mod laws;
pub mod memo;
pub mod model;
pub mod solver;
pub mod state;
pub mod stats;
pub mod value;

pub use evaluator::{best_bet, dp, settle_breach};
pub use input::{input_fault, opening, opening_state, validate, InputError};
pub use memo::{holds_outcome, key_after, key_follows, key_of, key_restarted, key_turn, Memo};
pub use model::{best_of, bet_units, outcome, regime_rank};
pub use solver::{solve, Solution};
pub use state::{
    drawdown_policy, is_failed, Drawdown, State, BALANCE_LIMIT, BET_STEP, BREACH_GAIN,
    BREACH_LIMIT, DRAWDOWN_FLOOR, HORIZON, MAX_BET, MIN_RESTART_BALANCE,
};
pub use stats::{capped, RunStatistics};
pub use value::{pow300, scaled, working_limit, Value, LOSS_SHARE, SHARE_SCALE, WIN_SHARE};
