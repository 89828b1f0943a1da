use check_websites::laws::replay;
use check_websites::tracker::{EndpointState, EventKind, RawStatus, SiteState};

fn feed(threshold: u64, inputs: &[RawStatus]) -> Vec<Option<EventKind>> {
    let mut state = EndpointState::new();
    let mut events = Vec::new();
    for raw in inputs {
        events.push(state.update(*raw, threshold));
    }
    events
}

#[test]
fn fresh_state_is_unknown() {
    let state = EndpointState::new();
    assert_eq!(state.current, SiteState::Unknown);
    assert_eq!(state.count, 0);
    assert!(!state.notified);
}

#[test]
fn alert_on_third_down_with_threshold_three() {
    let events = feed(3, &[RawStatus::Down, RawStatus::Down, RawStatus::Down]);
    assert_eq!(events, vec![None, None, Some(EventKind::DownAlert)]);
}

#[test]
fn blip_below_threshold_alerts_nothing() {
    let events = feed(3, &[RawStatus::Down, RawStatus::Down, RawStatus::Up]);
    assert_eq!(events, vec![None, None, None]);
}

#[test]
fn blip_below_threshold_resets_count() {
    let mut state = EndpointState::new();
    state.update(RawStatus::Down, 3);
    state.update(RawStatus::Down, 3);
    state.update(RawStatus::Up, 3);
    assert_eq!(state.count, 0);
    assert_eq!(state.current, SiteState::Up);
    assert!(!state.notified);
}

#[test]
fn recovery_after_alert_sends_up_again() {
    let events = feed(2, &[RawStatus::Down, RawStatus::Down, RawStatus::Up]);
    assert_eq!(
        events,
        vec![None, Some(EventKind::DownAlert), Some(EventKind::UpAgainAlert)]
    );
}

#[test]
fn persisting_outage_alerts_once() {
    let events = feed(
        2,
        &[
            RawStatus::Down,
            RawStatus::Down,
            RawStatus::Down,
            RawStatus::Down,
            RawStatus::Up,
        ],
    );
    assert_eq!(
        events,
        vec![
            None,
            Some(EventKind::DownAlert),
            None,
            None,
            Some(EventKind::UpAgainAlert)
        ]
    );
}

#[test]
fn count_resets_on_up_from_any_state() {
    // From a deep outage.
    let mut state = EndpointState::new();
    for _ in 0..7 {
        state.update(RawStatus::Down, 3);
    }
    assert_eq!(state.count, 7);
    state.update(RawStatus::Up, 3);
    assert_eq!(state.count, 0);

    // From the initial state.
    let mut fresh = EndpointState::new();
    fresh.update(RawStatus::Up, 3);
    assert_eq!(fresh.count, 0);
}

#[test]
fn stabilized_state_emits_nothing_further() {
    let mut state = EndpointState::new();
    state.update(RawStatus::Down, 2);
    state.update(RawStatus::Down, 2);
    state.update(RawStatus::Up, 2);
    let settled = state;
    for _ in 0..10 {
        let event = state.update(RawStatus::Up, 2);
        assert_eq!(event, None);
        assert_eq!(state.current, settled.current);
        assert_eq!(state.count, settled.count);
        assert_eq!(state.notified, settled.notified);
    }
}

#[test]
fn two_outages_alert_twice() {
    let events = feed(
        2,
        &[
            RawStatus::Down,
            RawStatus::Down,
            RawStatus::Up,
            RawStatus::Down,
            RawStatus::Down,
            RawStatus::Up,
        ],
    );
    assert_eq!(
        events,
        vec![
            None,
            Some(EventKind::DownAlert),
            Some(EventKind::UpAgainAlert),
            None,
            Some(EventKind::DownAlert),
            Some(EventKind::UpAgainAlert)
        ]
    );
}

#[test]
fn threshold_one_alerts_immediately() {
    let events = feed(1, &[RawStatus::Down, RawStatus::Up]);
    assert_eq!(
        events,
        vec![Some(EventKind::DownAlert), Some(EventKind::UpAgainAlert)]
    );
}

#[test]
fn replay_matches_stepwise_updates() {
    let inputs = vec![
        RawStatus::Down,
        RawStatus::Down,
        RawStatus::Up,
        RawStatus::Down,
        RawStatus::Down,
        RawStatus::Down,
        RawStatus::Up,
    ];
    assert_eq!(replay(&inputs, 2), feed(2, &inputs));
    assert_eq!(replay(&inputs, 3), feed(3, &inputs));
    assert_eq!(
        replay(&inputs, 3),
        vec![
            None,
            None,
            None,
            None,
            None,
            Some(EventKind::DownAlert),
            Some(EventKind::UpAgainAlert)
        ]
    );
}

#[test]
fn down_below_threshold_still_changes_belief() {
    let mut state = EndpointState::new();
    state.update(RawStatus::Down, 5);
    assert_eq!(state.current, SiteState::Down);
    assert_eq!(state.count, 1);
    assert!(!state.notified);
}
