//! Properties of the tracker over whole input sequences.
//!
//! [`run_model`] and [`run_events`] replay a sequence of raw observations
//! through the state machine of [`crate::tracker`]; the lemmas here relate
//! the emitted notifications to the shape of the input sequence:
//!
//! * a `DownAlert` appears exactly at the positions where a maximal run of
//!   consecutive `Down` observations first reaches the retry threshold, so
//!   there is exactly one per such run;
//! * every `UpAgainAlert` is preceded, within the same down-episode, by a
//!   `DownAlert`;
//! * a recovered endpoint fed further `Up` observations never changes state
//!   or emits again.

use vstd::prelude::*;

use crate::tracker::EventKind;
use crate::tracker::RawStatus;
use crate::tracker::SiteState;
use crate::tracker::StateModel;
use crate::tracker::initial_model;
use crate::tracker::step_event;
use crate::tracker::step_model;

verus! {

/// The state reached from the initial state after feeding `s`, left to
/// right, under retry threshold `t`.
pub open spec fn run_model(s: Seq<RawStatus>, t: nat) -> StateModel
    decreases s.len(),
{
    if s.len() == 0 {
        initial_model()
    } else {
        step_model(run_model(s.drop_last(), t), s.last(), t)
    }
}

/// The notification decision at each position while feeding `s`:
/// `run_events(s, t)[i]` is what the update at input `s[i]` returned.
pub open spec fn run_events(s: Seq<RawStatus>, t: nat) -> Seq<Option<EventKind>>
    decreases s.len(),
{
    if s.len() == 0 {
        Seq::empty()
    } else {
        run_events(s.drop_last(), t).push(step_event(run_model(s.drop_last(), t), s.last(), t))
    }
}

/// The length of the maximal run of `Down` at the end of `s` (zero if `s`
/// is empty or ends in `Up`).
pub open spec fn trailing_downs(s: Seq<RawStatus>) -> nat
    decreases s.len(),
{
    if s.len() == 0 {
        0
    } else if s.last() is Down {
        trailing_downs(s.drop_last()) + 1
    } else {
        0
    }
}

/// How many `DownAlert` decisions a decision sequence holds.
pub open spec fn count_down_alerts(events: Seq<Option<EventKind>>) -> nat
    decreases events.len(),
{
    if events.len() == 0 {
        0
    } else {
        count_down_alerts(events.drop_last()) + if events.last() == Some(EventKind::DownAlert) {
            1nat
        } else {
            0nat
        }
    }
}

/// The number of maximal runs of consecutive `Down` in `s` whose length
/// reaches `t`, counted at the unique position where each such run first
/// reaches length exactly `t`. A maximal run of length `l >= t` contains
/// exactly one such position and a shorter run contains none, so this is
/// the number of maximal `Down` runs of length at least `t`.
pub open spec fn alerted_runs(s: Seq<RawStatus>, t: nat) -> nat
    decreases s.len(),
{
    if s.len() == 0 {
        0
    } else {
        alerted_runs(s.drop_last(), t) + if s.last() is Down && trailing_downs(s) == t {
            1nat
        } else {
            0nat
        }
    }
}

/// After any input sequence the consecutive count equals the length of the
/// trailing run of `Down`, and an alert is outstanding exactly when that
/// trailing run has reached the threshold.
pub proof fn lemma_run_invariant(s: Seq<RawStatus>, t: nat)
    requires
        1 <= t,
    ensures
        run_model(s, t).count == trailing_downs(s),
        run_model(s, t).notified <==> trailing_downs(s) >= t,
    decreases s.len(),
{
    if s.len() > 0 {
        lemma_run_invariant(s.drop_last(), t);
    }
}

/// The decision at a position depends only on the inputs up to it.
pub proof fn lemma_events_prefix(s: Seq<RawStatus>, t: nat, i: int)
    requires
        0 <= i < s.len(),
    ensures
        run_events(s, t).len() == s.len(),
        run_events(s, t)[i] == step_event(run_model(s.take(i), t), s[i], t),
        run_model(s.take(i + 1), t) == step_model(run_model(s.take(i), t), s[i], t),
    decreases s.len(),
{
    if i == s.len() - 1 {
        assert(s.take(i) =~= s.drop_last());
        assert(s.take(i + 1) =~= s);
        lemma_events_len(s.drop_last(), t);
    } else {
        lemma_events_prefix(s.drop_last(), t, i);
        assert(s.drop_last().take(i) =~= s.take(i));
        assert(s.drop_last().take(i + 1) =~= s.take(i + 1));
        lemma_events_len(s.drop_last(), t);
    }
}

/// The decision sequence is as long as the input sequence.
pub proof fn lemma_events_len(s: Seq<RawStatus>, t: nat)
    ensures
        run_events(s, t).len() == s.len(),
    decreases s.len(),
{
    if s.len() > 0 {
        lemma_events_len(s.drop_last(), t);
    }
}

/// A `DownAlert` is decided at position `i` exactly when `s[i]` is `Down`
/// and the maximal `Down` run through position `i` reaches length exactly
/// `t` there: once per maximal run of length at least `t`, at the moment
/// the run first reaches the threshold, and never otherwise.
pub proof fn lemma_down_alert_positions(s: Seq<RawStatus>, t: nat, i: int)
    requires
        1 <= t,
        0 <= i < s.len(),
    ensures
        run_events(s, t)[i] == Some(EventKind::DownAlert) <==> (s[i] is Down && trailing_downs(
            s.take(i + 1),
        ) == t),
{
    lemma_events_prefix(s, t, i);
    lemma_run_invariant(s.take(i), t);
    assert(s.take(i + 1).drop_last() =~= s.take(i));
    assert(s.take(i + 1).last() == s[i]);
}

/// The number of `DownAlert` decisions over any input sequence equals the
/// number of maximal runs of consecutive `Down` of length at least the
/// threshold.
pub proof fn lemma_down_alert_count(s: Seq<RawStatus>, t: nat)
    requires
        1 <= t,
    ensures
        count_down_alerts(run_events(s, t)) == alerted_runs(s, t),
    decreases s.len(),
{
    if s.len() > 0 {
        lemma_down_alert_count(s.drop_last(), t);
        lemma_run_invariant(s.drop_last(), t);
        assert(run_events(s, t).drop_last() =~= run_events(s.drop_last(), t));
    }
}

/// The trailing `Down` run is no longer than the sequence itself.
pub proof fn lemma_trailing_le(s: Seq<RawStatus>)
    ensures
        trailing_downs(s) <= s.len(),
    decreases s.len(),
{
    if s.len() > 0 {
        lemma_trailing_le(s.drop_last());
    }
}

/// Every position inside the trailing `Down` run of `s` holds a `Down`, and
/// the run length measured at such a position grows by one per step.
pub proof fn lemma_trailing_at(s: Seq<RawStatus>, k: int)
    requires
        0 <= k < s.len(),
        s.len() - trailing_downs(s) <= k,
    ensures
        s[k] is Down,
        trailing_downs(s.take(k + 1)) == k - (s.len() - trailing_downs(s)) + 1,
    decreases s.len(),
{
    if k == s.len() - 1 {
        assert(s.take(k + 1) =~= s);
    } else {
        lemma_trailing_at(s.drop_last(), k);
        assert(s.drop_last().take(k + 1) =~= s.take(k + 1));
    }
}

/// No `UpAgainAlert` without an earlier `DownAlert` in the same
/// down-episode: if position `i` decides `UpAgainAlert`, some earlier
/// position `j` decided `DownAlert` and every input from `j` up to `i` was
/// `Down`.
pub proof fn lemma_up_again_needs_down_alert(s: Seq<RawStatus>, t: nat, i: int)
    requires
        1 <= t,
        0 <= i < s.len(),
        run_events(s, t)[i] == Some(EventKind::UpAgainAlert),
    ensures
        exists|j: int|
            0 <= j < i && run_events(s, t)[j] == Some(EventKind::DownAlert) && (forall|k: int|
                j <= k < i ==> s[k] is Down),
{
    lemma_events_prefix(s, t, i);
    lemma_run_invariant(s.take(i), t);
    let p = s.take(i);
    let r = trailing_downs(p) as int;
    lemma_trailing_le(p);
    let j = i - r + (t - 1);
    lemma_trailing_at(p, j);
    assert(trailing_downs(p.take(j + 1)) == t);
    assert(s.take(i).take(j + 1) =~= s.take(j + 1));
    lemma_down_alert_positions(s, t, j);
    assert forall|k: int| j <= k < i implies s[k] is Down by {
        lemma_trailing_at(p, k);
        assert(p[k] == s[k]);
    }
    assert(run_events(s, t)[j] == Some(EventKind::DownAlert) && (forall|k: int|
        j <= k < i ==> s[k] is Down));
}

/// Feed a whole observation history to a fresh endpoint state and collect
/// every notification decision: the executable counterpart of
/// [`run_events`], against which the laws above are stated.
pub fn replay(inputs: &Vec<RawStatus>, threshold: u64) -> (events: Vec<Option<EventKind>>)
    requires
        1 <= threshold,
        inputs.len() < u64::MAX,
    ensures
        events@ == run_events(inputs@, threshold as nat),
{
    let mut state = crate::tracker::EndpointState::new();
    let mut events: Vec<Option<EventKind>> = Vec::new();
    let mut i: usize = 0;
    proof {
        assert(inputs@.take(0) =~= Seq::<RawStatus>::empty());
    }
    while i < inputs.len()
        invariant
            1 <= threshold,
            0 <= i <= inputs.len() < u64::MAX,
            state@ == run_model(inputs@.take(i as int), threshold as nat),
            events@ == run_events(inputs@.take(i as int), threshold as nat),
        decreases inputs.len() - i,
    {
        proof {
            lemma_run_invariant(inputs@.take(i as int), threshold as nat);
            lemma_trailing_le(inputs@.take(i as int));
            assert(inputs@.take(i + 1).drop_last() =~= inputs@.take(i as int));
            assert(inputs@.take(i + 1).last() == inputs@[i as int]);
        }
        let event = state.update(inputs[i], threshold);
        events.push(event);
        i = i + 1;
    }
    proof {
        assert(inputs@.take(inputs.len() as int) =~= inputs@);
    }
    events
}

/// Recovery is stable: once an endpoint is believed `Up` with no alert
/// outstanding, further `Up` observations leave the state unchanged and
/// emit nothing, however often they repeat.
pub proof fn lemma_up_is_stable(t: nat)
    ensures
        forall|m: StateModel| #[trigger]
            step_model(m, RawStatus::Up, t) == (StateModel {
                current: SiteState::Up,
                count: 0nat,
                notified: false,
            }),
        forall|m: StateModel|
            !m.notified ==> #[trigger] step_event(m, RawStatus::Up, t) == None::<EventKind>,
{
}

} // verus!
