//! The monitor: one tracking state per configured endpoint, updated once
//! per probe cycle.
//!
//! The scheduling loop around it (probe each endpoint, sleep, repeat) does
//! I/O and lives outside this crate; it hands [`Monitor::run_cycle`] the raw
//! classification of every endpoint for the cycle and receives the
//! notification decisions back, one slot per endpoint. Each endpoint's state
//! advances by exactly one step of the state machine of [`crate::tracker`],
//! with its own result; endpoints never affect one another.

use vstd::prelude::*;

use crate::tracker::EndpointState;
use crate::tracker::EventKind;
use crate::tracker::RawStatus;
use crate::tracker::initial_model;
use crate::tracker::step_event;
use crate::tracker::step_model;

verus! {

/// The tracking states of all configured endpoints, in configuration order,
/// together with the retry threshold they are debounced by.
pub struct Monitor {
    pub endpoints: Vec<String>,
    pub states: Vec<EndpointState>,
    pub retry_threshold: u64,
}

impl Monitor {
    /// One state per endpoint, and a positive threshold.
    pub open spec fn wf(&self) -> bool {
        &&& self.states.len() == self.endpoints.len()
        &&& 1 <= self.retry_threshold
    }

    /// Set up tracking for `endpoints`, every endpoint starting in the
    /// initial state.
    pub fn new(endpoints: Vec<String>, retry_threshold: u64) -> (m: Monitor)
        requires
            1 <= retry_threshold,
        ensures
            m.wf(),
            m.endpoints@ == endpoints@,
            m.retry_threshold == retry_threshold,
            forall|i: int| 0 <= i < m.states.len() ==> m.states[i]@ == initial_model(),
    {
        let mut states: Vec<EndpointState> = Vec::new();
        let n = endpoints.len();
        for k in 0..n
            invariant
                states.len() == k,
                forall|i: int| 0 <= i < k ==> states[i]@ == initial_model(),
        {
            states.push(EndpointState::new());
        }
        Monitor { endpoints, states, retry_threshold }
    }

    /// Where `name` stands in the tracked endpoint list, if anywhere: an
    /// update for an endpoint that is not tracked is a caller's programming
    /// error, and this is how a caller tells.
    pub fn find_endpoint(&self, name: &String) -> (idx: Option<usize>)
        ensures
            match idx {
                Some(i) => i < self.endpoints.len() && self.endpoints[i as int]@ == name@,
                None => forall|j: int| 0 <= j < self.endpoints.len() ==> self.endpoints[j]@ != name@,
            },
    {
        let mut i: usize = 0;
        while i < self.endpoints.len()
            invariant
                0 <= i <= self.endpoints.len(),
                forall|j: int| 0 <= j < i ==> self.endpoints[j]@ != name@,
            decreases self.endpoints.len() - i,
        {
            if self.endpoints[i].eq(name) {
                return Some(i);
            }
            i = i + 1;
        }
        None
    }

    /// Feed one endpoint its latest raw classification and return the
    /// notification decision, if any. All other endpoints' states are
    /// untouched.
    pub fn update_endpoint(&mut self, i: usize, raw: RawStatus) -> (event: Option<EventKind>)
        requires
            old(self).wf(),
            i < old(self).states.len(),
            old(self).states[i as int]@.count < u64::MAX,
        ensures
            final(self).wf(),
            final(self).endpoints == old(self).endpoints,
            final(self).retry_threshold == old(self).retry_threshold,
            final(self).states.len() == old(self).states.len(),
            final(self).states[i as int]@ == step_model(
                old(self).states[i as int]@,
                raw,
                old(self).retry_threshold as nat,
            ),
            event == step_event(old(self).states[i as int]@, raw, old(self).retry_threshold as nat),
            forall|j: int|
                0 <= j < old(self).states.len() && j != i ==> final(self).states[j] == old(
                    self,
                ).states[j],
    {
        let threshold = self.retry_threshold;
        let mut state = self.states[i];
        let event = state.update(raw, threshold);
        self.states.set(i, state);
        event
    }

    /// Apply one whole probe cycle: `results[i]` is the raw classification
    /// probed for `endpoints[i]` this cycle. Returns one decision slot per
    /// endpoint: each endpoint's state advances by one step with its own
    /// result, and the slot holds the notification that step decided.
    pub fn run_cycle(&mut self, results: &Vec<RawStatus>) -> (events: Vec<Option<EventKind>>)
        requires
            old(self).wf(),
            results.len() == old(self).states.len(),
            forall|i: int| 0 <= i < old(self).states.len() ==> old(self).states[i]@.count < u64::MAX,
        ensures
            final(self).wf(),
            final(self).endpoints == old(self).endpoints,
            final(self).retry_threshold == old(self).retry_threshold,
            final(self).states.len() == old(self).states.len(),
            events.len() == old(self).states.len(),
            forall|i: int|
                0 <= i < old(self).states.len() ==> final(self).states[i]@ == step_model(
                    old(self).states[i]@,
                    results[i],
                    old(self).retry_threshold as nat,
                ),
            forall|i: int|
                0 <= i < old(self).states.len() ==> events[i] == step_event(
                    old(self).states[i]@,
                    results[i],
                    old(self).retry_threshold as nat,
                ),
    {
        let mut events: Vec<Option<EventKind>> = Vec::new();
        let n = self.states.len();
        for k in 0..n
            invariant
                self.wf(),
                self.endpoints == old(self).endpoints,
                self.retry_threshold == old(self).retry_threshold,
                self.states.len() == old(self).states.len(),
                n == old(self).states.len(),
                results.len() == old(self).states.len(),
                events.len() == k,
                forall|i: int|
                    0 <= i < old(self).states.len() ==> old(self).states[i]@.count < u64::MAX,
                forall|i: int| k <= i < old(self).states.len() ==> self.states[i] == old(
                    self,
                ).states[i],
                forall|i: int|
                    0 <= i < k ==> self.states[i]@ == step_model(
                        old(self).states[i]@,
                        results[i],
                        old(self).retry_threshold as nat,
                    ),
                forall|i: int|
                    0 <= i < k ==> events[i] == step_event(
                        old(self).states[i]@,
                        results[i],
                        old(self).retry_threshold as nat,
                    ),
        {
            let event = self.update_endpoint(k, results[k]);
            events.push(event);
        }
        events
    }
}

} // verus!
