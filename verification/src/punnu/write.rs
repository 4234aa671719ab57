//! A write that is ready to be published.

use vstd::prelude::*;
use crate::cacheable::Cacheable;
use crate::punnu::config::Sample;
use crate::punnu::events::PunnuEvent;
use crate::punnu::state::L1State;

verus! {

/// The next state of the pool, the events that tell about it, and what the
/// caller gets.
#[verifier::reject_recursive_types(T)]
pub struct PreparedWrite<T: Cacheable, R> {
    /// The next state.
    pub state: L1State<T>,
    /// The events to emit, in order.
    pub events: Vec<PunnuEvent<T>>,
    /// What the caller gets.
    pub result: R,
}

impl<T: Cacheable, R> PreparedWrite<T, R> {
    /// Makes a prepared write.
    pub fn new(state: L1State<T>, events: Vec<PunnuEvent<T>>, result: R) -> (r: Self)
        ensures
            r.state == state,
            r.events == events,
            r.result == result,
    {
        PreparedWrite { state, events, result }
    }

    /// Reads the next state.
    pub fn state(&self) -> (r: &L1State<T>)
        ensures
            *r == self.state,
    {
        &self.state
    }

    /// Takes the write apart.
    pub fn into_parts(self) -> (r: (L1State<T>, Vec<PunnuEvent<T>>, R))
        ensures
            r == (self.state, self.events, self.result),
    {
        (self.state, self.events, self.result)
    }
}

/// A write that was published.
#[verifier::reject_recursive_types(T)]
pub struct Committed<T: Cacheable, R> {
    /// What the caller gets.
    pub result: R,
    /// The events to send, in order.
    pub events: Vec<PunnuEvent<T>>,
    /// The samples to record, in order.
    pub samples: Vec<Sample>,
}

} // verus!
