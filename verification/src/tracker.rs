//! The per-endpoint availability state machine.
//!
//! Each monitored endpoint owns one [`EndpointState`]. Every probe cycle the
//! latest raw classification is fed to [`EndpointState::update`], which
//! adjusts the state and decides whether a notification is due:
//!
//! * a `DownAlert` fires exactly once per down-episode, at the moment the
//!   count of consecutive `Down` observations first reaches the retry
//!   threshold;
//! * an `UpAgainAlert` fires exactly once, on the first `Up` observation
//!   after a `DownAlert` was emitted.
//!
//! The transition rules are stated once, as the spec functions [`step_model`]
//! and [`step_event`]; the executable code is proved to follow them.

use vstd::prelude::*;

verus! {

/// The outcome of a single probe: the endpoint answered healthily (`Up`)
/// or it did not (`Down`). Transport failures and malformed responses are
/// classified `Down` before they reach the tracker, so the tracker never
/// distinguishes them from an application-level failure.
#[derive(Clone, Copy, Debug, PartialEq, Eq, Structural)]
pub enum RawStatus {
    Up,
    Down,
}

/// The tracker's current belief about an endpoint. `Unknown` holds only
/// before the first probe result arrives and is never re-entered.
#[derive(Clone, Copy, Debug, PartialEq, Eq, Structural)]
pub enum SiteState {
    Unknown,
    Up,
    Down,
}

/// The kind of notification decided by an update.
#[derive(Clone, Copy, Debug, PartialEq, Eq, Structural)]
pub enum EventKind {
    DownAlert,
    UpAgainAlert,
}

/// The mathematical model of one endpoint's state: the belief, the number of
/// consecutive `Down` observations in the current episode, and whether a
/// `DownAlert` has been emitted for the current down-episode and not yet
/// answered by an `UpAgainAlert`.
pub ghost struct StateModel {
    pub current: SiteState,
    pub count: nat,
    pub notified: bool,
}

/// The state every endpoint starts in.
pub open spec fn initial_model() -> StateModel {
    StateModel { current: SiteState::Unknown, count: 0, notified: false }
}

/// How one raw observation transforms the state.
///
/// On `Down` the consecutive count grows and the belief becomes `Down`;
/// `notified` is set when the count reaches the threshold `t`. On `Up`
/// everything resets: count to zero, belief to `Up`, `notified` to false.
pub open spec fn step_model(s: StateModel, raw: RawStatus, t: nat) -> StateModel {
    match raw {
        RawStatus::Down => StateModel {
            current: SiteState::Down,
            count: s.count + 1,
            notified: s.notified || s.count + 1 == t,
        },
        RawStatus::Up => StateModel { current: SiteState::Up, count: 0, notified: false },
    }
}

/// Which notification, if any, one raw observation triggers from state `s`
/// under retry threshold `t`: a `DownAlert` exactly when the consecutive
/// count first reaches `t` in an episode not yet alerted, an `UpAgainAlert`
/// exactly when an alerted episode ends.
pub open spec fn step_event(s: StateModel, raw: RawStatus, t: nat) -> Option<EventKind> {
    match raw {
        RawStatus::Down => if s.count + 1 == t && !s.notified {
            Some(EventKind::DownAlert)
        } else {
            None
        },
        RawStatus::Up => if s.notified {
            Some(EventKind::UpAgainAlert)
        } else {
            None
        },
    }
}

/// One endpoint's persistent tracking state, mutated once per probe cycle.
#[derive(Clone, Copy, Debug)]
pub struct EndpointState {
    pub current: SiteState,
    pub count: u64,
    pub notified: bool,
}

impl View for EndpointState {
    type V = StateModel;

    open spec fn view(&self) -> StateModel {
        StateModel { current: self.current, count: self.count as nat, notified: self.notified }
    }
}

impl EndpointState {
    /// A fresh endpoint state: belief unknown, nothing counted, no alert
    /// outstanding.
    pub fn new() -> (s: Self)
        ensures
            s@ == initial_model(),
    {
        EndpointState { current: SiteState::Unknown, count: 0, notified: false }
    }

    /// Feed one probe result to the state machine; returns the notification
    /// decision, if any. Pure state transition: performs no I/O.
    ///
    /// The consecutive count resets to zero on any `Up` input, whatever the
    /// prior state.
    pub fn update(&mut self, raw: RawStatus, threshold: u64) -> (event: Option<EventKind>)
        requires
            1 <= threshold,
            old(self)@.count < u64::MAX,
        ensures
            final(self)@ == step_model(old(self)@, raw, threshold as nat),
            event == step_event(old(self)@, raw, threshold as nat),
            raw is Up ==> final(self)@.count == 0,
    {
        match raw {
            RawStatus::Down => {
                self.count = self.count + 1;
                self.current = SiteState::Down;
                if self.count == threshold && !self.notified {
                    self.notified = true;
                    Some(EventKind::DownAlert)
                } else {
                    None
                }
            },
            RawStatus::Up => {
                self.current = SiteState::Up;
                self.count = 0;
                if self.notified {
                    self.notified = false;
                    Some(EventKind::UpAgainAlert)
                } else {
                    None
                }
            },
        }
    }
}

} // verus!
