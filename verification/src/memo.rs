//! The memo store: for each state that was evaluated, its expected value and
//! its next bet.

use std::collections::HashMap;
use vstd::prelude::*;
use crate::state::State;
use crate::value::Value;

verus! {

broadcast use vstd::std_specs::hash::group_hash_axioms;

/// The key under which a state is stored: regime, breach days, turn, balance
/// and high-water mark, packed into one number.
pub open spec fn key_of(state: State) -> u128 {
    let regime: int = if state.is_restarted {
        1
    } else {
        0
    };
    let head: int = (regime * 256 + state.d) * 16 + state.t;
    let balance: int = state.s + 0x2_0000_0000;
    let mark: int = state.h + 0x2_0000_0000;
    ((head * 0x4_0000_0000 + balance) * 0x4_0000_0000 + mark) as u128
}

/// The turn that a key holds.
pub open spec fn key_turn(key: u128) -> int {
    ((key as int) / 0x10_0000_0000_0000_0000) % 16
}

/// Whether a key belongs to the restarted regime.
pub open spec fn key_restarted(key: u128) -> bool {
    (key as int) / 0x1_0000_0000_0000_0000_0000 >= 1
}

/// Whether a key can belong to a state that play reaches from `state`: a
/// later turn in the same regime, or the restarted regime where `state` is
/// still in the opening one.
pub open spec fn key_after(key: u128, state: State) -> bool {
    if key_restarted(key) == state.is_restarted {
        key_turn(key) > state.t
    } else {
        key_restarted(key)
    }
}

/// Whether a key can belong to `state` itself or to a state that play
/// reaches from it.
pub open spec fn key_follows(key: u128, state: State) -> bool {
    key_after(key, state) || (key_restarted(key) == state.is_restarted && key_turn(key) == state.t)
}

/// Whether an entry is what the evaluator computes for `state`.
pub open spec fn holds_outcome(entry: (Value, i32), state: State) -> bool {
    &&& entry.0.units() == state.expected_units()
    &&& entry.0.depth == state.depth()
    &&& entry.1 == state.optimal_bet()
}

/// A key holds the regime and the turn of its state.
pub proof fn lemma_key_fields(state: State)
    requires
        state.in_range(),
    ensures
        key_turn(key_of(state)) == state.t,
        key_restarted(key_of(state)) == state.is_restarted,
        key_follows(key_of(state), state),
{
}

/// Two states in range with the same key are the same state.
pub proof fn lemma_key_injective(a: State, b: State)
    requires
        a.in_range(),
        b.in_range(),
        key_of(a) == key_of(b),
    ensures
        a == b,
{
}

/// Entries by state. An entry is written once, by the evaluator, and never
/// changed.
pub struct Memo {
    table: HashMap<u128, (Value, i32)>,
}

impl View for Memo {
    type V = Map<u128, (Value, i32)>;

    closed spec fn view(&self) -> Map<u128, (Value, i32)> {
        self.table@
    }
}

impl Memo {
    /// Whether the store holds an entry for `state`.
    pub open spec fn contains(&self, state: State) -> bool {
        self@.contains_key(key_of(state))
    }

    /// The entry of `state`.
    pub open spec fn entry(&self, state: State) -> (Value, i32) {
        self@[key_of(state)]
    }

    /// Every entry of a state in range is what the evaluator computes for
    /// that state.
    pub open spec fn wf(&self) -> bool {
        forall|state: State|
            state.in_range() && #[trigger] self.contains(state) ==> holds_outcome(
                self.entry(state),
                state,
            )
    }

    /// Whether this store holds every entry of `earlier`, unchanged, and
    /// perhaps more.
    pub open spec fn extends(&self, earlier: Memo) -> bool {
        &&& self@.len() >= earlier@.len()
        &&& forall|key: u128| #[trigger]
            earlier@.contains_key(key) ==> self@.contains_key(key) && self@[key] == earlier@[key]
    }

    /// Whether this store is `earlier` with entries added, none of them for
    /// a state before `state`.
    pub open spec fn grown_from(&self, earlier: Memo, state: State) -> bool {
        &&& self.extends(earlier)
        &&& forall|key: u128| #[trigger]
            self@.contains_key(key) && !earlier@.contains_key(key) ==> key_follows(key, state)
    }

    /// Whether this store is `earlier` with entries added, all of them for
    /// states after `state`.
    pub open spec fn grown_after(&self, earlier: Memo, state: State) -> bool {
        &&& self.extends(earlier)
        &&& forall|key: u128| #[trigger]
            self@.contains_key(key) && !earlier@.contains_key(key) ==> key_after(key, state)
    }

    /// The store holds finitely many entries.
    pub proof fn lemma_finite(&self)
        ensures
            self@.dom().finite(),
    {
    }

    /// An empty store.
    pub fn new() -> (memo: Memo)
        ensures
            memo@ == Map::<u128, (Value, i32)>::empty(),
            memo.wf(),
    {
        Memo { table: HashMap::new() }
    }

    /// Number of entries.
    pub fn len(&self) -> (count: usize)
        ensures
            count == self@.len(),
    {
        self.table.len()
    }

    /// The key of a state in range.
    fn key(state: &State) -> (key: u128)
        requires
            state.in_range(),
        ensures
            key == key_of(*state),
    {
        let regime: u128 = if state.is_restarted {
            1
        } else {
            0
        };
        let head: u128 = (regime * 256 + state.d as u128) * 16 + state.t as u128;
        let balance: u128 = (state.s + 0x2_0000_0000) as u128;
        let mark: u128 = (state.h + 0x2_0000_0000) as u128;
        (head * 0x4_0000_0000 + balance) * 0x4_0000_0000 + mark
    }

    /// Looks a state up. A state out of range has no entry.
    pub fn get(&self, state: &State) -> (found: Option<(Value, i32)>)
        ensures
            match found {
                Some(entry) => state.in_range() && self.contains(*state) && entry == self.entry(
                    *state,
                ),
                None => !state.in_range() || !self.contains(*state),
            },
    {
        if !state.is_in_range() {
            return None;
        }
        let key = Memo::key(state);
        match self.table.get(&key) {
            Some(entry) => Some(*entry),
            None => None,
        }
    }

    /// Writes the entry of a state that has none.
    pub(crate) fn record(&mut self, state: &State, value: Value, bet: i32)
        requires
            state.in_range(),
            old(self).wf(),
            !old(self).contains(*state),
            holds_outcome((value, bet), *state),
        ensures
            final(self)@ == old(self)@.insert(key_of(*state), (value, bet)),
            final(self)@.len() == old(self)@.len() + 1,
            final(self).wf(),
            final(self).grown_from(*old(self), *state),
    {
        let key = Memo::key(state);
        proof {
            self.lemma_finite();
            lemma_key_fields(*state);
        }
        self.table.insert(key, (value, bet));
        proof {
            assert forall|other: State| other.in_range() && #[trigger] self.contains(
                other,
            ) implies holds_outcome(self.entry(other), other) by {
                if key_of(other) == key_of(*state) {
                    lemma_key_injective(other, *state);
                } else {
                    assert(old(self).contains(other));
                }
            }
        }
    }
}

} // verus!
