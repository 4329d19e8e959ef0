//! The opening state of a run, and the inputs that are refused.

use vstd::prelude::*;
use crate::state::State;

verus! {

/// Why an input is refused.
#[derive(Debug, Clone, Copy, PartialEq, Eq, Structural)]
pub enum InputError {
    /// The count of breach days is above 4.
    DrawdownDaysOutOfRange { value: u8 },
    /// The turn is above 9.
    TurnOutOfRange { value: u8 },
    /// The breach days that are left and the turns used do not fit into the
    /// horizon together.
    TemporalConsistencyViolated { drawdown_days: u8, turn: u8 },
}

/// The fault of an input, if it has one. The count of breach days is looked
/// at first, then the turn, then the two together.
pub open spec fn input_fault(d: u8, t: u8) -> Option<InputError> {
    if d > 4 {
        Some(InputError::DrawdownDaysOutOfRange { value: d })
    } else if t > 9 {
        Some(InputError::TurnOutOfRange { value: t })
    } else if (5 - d) + t >= 10 {
        Some(InputError::TemporalConsistencyViolated { drawdown_days: d, turn: t })
    } else {
        None
    }
}

/// The state in which a run opens: the opening regime, with the given
/// balance, high-water mark, breach days and turn.
pub open spec fn opening(s: i32, h: i32, d: u8, t: u8) -> State {
    State { s: s as i64, h: h as i64, d, t, is_restarted: false }
}

impl InputError {
    /// What is wrong, in words.
    pub fn message(&self) -> (text: &'static str)
        ensures
            self is DrawdownDaysOutOfRange ==> text@ == "d out of range"@,
            self is TurnOutOfRange ==> text@ == "t out of range"@,
            self is TemporalConsistencyViolated ==> text@ == "temporal consistency violated"@,
    {
        match self {
            InputError::DrawdownDaysOutOfRange { .. } => "d out of range",
            InputError::TurnOutOfRange { .. } => "t out of range",
            InputError::TemporalConsistencyViolated { .. } => "temporal consistency violated",
        }
    }
}

/// Checks the count of breach days and the turn of an input.
pub fn validate(d: u8, t: u8) -> (checked: Result<(), InputError>)
    ensures
        input_fault(d, t) is None ==> checked == Ok::<(), InputError>(()),
        input_fault(d, t) matches Some(fault) ==> checked == Err::<(), InputError>(fault),
{
    if d > 4 {
        Err(InputError::DrawdownDaysOutOfRange { value: d })
    } else if t > 9 {
        Err(InputError::TurnOutOfRange { value: t })
    } else if (5 - d) + t >= 10 {
        Err(InputError::TemporalConsistencyViolated { drawdown_days: d, turn: t })
    } else {
        Ok(())
    }
}

/// Builds the opening state of a run from an input, or refuses the input.
pub fn opening_state(s: i32, h: i32, d: u8, t: u8) -> (opened: Result<State, InputError>)
    ensures
        input_fault(d, t) is None ==> opened == Ok::<State, InputError>(opening(s, h, d, t)),
        input_fault(d, t) matches Some(fault) ==> opened == Err::<State, InputError>(fault),
        input_fault(d, t) is None ==> opening(s, h, d, t).in_range(),
{
    match validate(d, t) {
        Ok(_) => Ok(State { s: s as i64, h: h as i64, d, t, is_restarted: false }),
        Err(fault) => Err(fault),
    }
}

} // verus!
