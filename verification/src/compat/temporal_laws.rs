//! Laws of the Temporal replay: what a replayed state says of its history.

use crate::compat::temporal::{self, ActivityOutcome, ReplayView, SignalView, TemporalCompatError, TemporalHistoryEvent, TemporalReplayState, TemporalReplayedActivityState, TemporalTerminalState, TerminalView};
use crate::durable_effect;
use crate::hashing;
use crate::runtime::WorkflowEvent;
use vstd::prelude::*;
use vstd::utf8::*;

verus! {

/// Whether an event records the schedule of activity `k`.
pub open spec fn schedules(e: TemporalHistoryEvent, k: u64) -> bool {
    e matches TemporalHistoryEvent::ActivityTaskScheduled { event_id, .. } && event_id == k
}

/// Whether an event records the outcome of activity `k`.
pub open spec fn settles(e: TemporalHistoryEvent, k: u64) -> bool {
    ||| e matches TemporalHistoryEvent::ActivityTaskCompleted { scheduled_event_id, .. }
        && scheduled_event_id == k
    ||| e matches TemporalHistoryEvent::ActivityTaskFailed { scheduled_event_id, .. }
        && scheduled_event_id == k
}

/// Whether an event records the start of timer `k`.
pub open spec fn starts_timer(e: TemporalHistoryEvent, k: u64) -> bool {
    e matches TemporalHistoryEvent::TimerStarted { event_id, .. } && event_id == k
}

/// Whether an event records that timer `k` fired.
pub open spec fn fires(e: TemporalHistoryEvent, k: u64) -> bool {
    e matches TemporalHistoryEvent::TimerFired { started_event_id, .. } && started_event_id == k
}

/// Whether an event records signal `k`.
pub open spec fn signals(e: TemporalHistoryEvent, k: u64) -> bool {
    e matches TemporalHistoryEvent::WorkflowExecutionSignaled { event_id, .. } && event_id == k
}

/// What a projection must say because the event happened.
pub open spec fn tells(e: TemporalHistoryEvent, m: ReplayView) -> bool {
    match e {
        TemporalHistoryEvent::WorkflowExecutionStarted { workflow_type, input, .. } => {
            m.workflow_type == Some(workflow_type@) && m.input == input@
        },
        TemporalHistoryEvent::ActivityTaskScheduled {
            event_id,
            activity_id,
            activity_type,
            task_queue,
            input,
        } => {
            let a = m.activities[event_id];
            &&& m.activities.contains_key(event_id)
            &&& a.activity_id == activity_id@
            &&& a.activity_type == activity_type@
            &&& a.task_queue == task_queue@
            &&& a.input == input@
        },
        TemporalHistoryEvent::ActivityTaskCompleted { scheduled_event_id, result, .. } => {
            m.activities.contains_key(scheduled_event_id) && m.activities[scheduled_event_id].state
                == ActivityOutcome::Completed(result@)
        },
        TemporalHistoryEvent::ActivityTaskFailed { scheduled_event_id, message, .. } => {
            m.activities.contains_key(scheduled_event_id) && m.activities[scheduled_event_id].state
                == ActivityOutcome::Failed(message@)
        },
        TemporalHistoryEvent::TimerStarted { event_id, timer_id, duration_ms } => {
            let t = m.timers[event_id];
            m.timers.contains_key(event_id) && t.timer_id == timer_id@ && t.duration_ms
                == duration_ms
        },
        TemporalHistoryEvent::TimerFired { started_event_id, .. } => {
            m.timers.contains_key(started_event_id) && m.timers[started_event_id].fired
        },
        TemporalHistoryEvent::WorkflowExecutionSignaled { event_id, signal_name, payload } => {
            exists|j: int|
                0 <= j < m.signals.len() && (#[trigger] m.signals[j]).event_id == event_id
                    && m.signals[j].signal_name == signal_name@ && (match payload {
                    Some(p) => m.signals[j].payload == Some(p@),
                    None => m.signals[j].payload is None,
                })
        },
        TemporalHistoryEvent::WorkflowExecutionCompleted { result, .. } => {
            m.terminal == Some(TerminalView::Completed(result@))
        },
        TemporalHistoryEvent::WorkflowExecutionFailed { message, .. } => {
            m.terminal == Some(TerminalView::Failed(message@))
        },
        TemporalHistoryEvent::WorkflowExecutionContinuedAsNew { new_run_id, .. } => {
            m.terminal == Some(TerminalView::ContinuedAsNew(new_run_id@))
        },
    }
}

/// Whether one of the first `n` events satisfies a condition.
pub open spec fn some_event(
    history: Seq<TemporalHistoryEvent>,
    n: nat,
    holds: spec_fn(TemporalHistoryEvent) -> bool,
) -> bool {
    exists|i: int| 0 <= i < n && holds(#[trigger] history[i])
}

/// Whether a projection says what the first `n` events say, and no more.
pub open spec fn mirrors(history: Seq<TemporalHistoryEvent>, n: nat, m: ReplayView) -> bool {
    &&& forall|i: int| 0 <= i < n ==> tells(#[trigger] history[i], m)
    &&& m.workflow_type is Some ==> some_event(
        history,
        n,
        |e: TemporalHistoryEvent| e is WorkflowExecutionStarted,
    )
    &&& forall|k: u64| #[trigger]
        m.activities.contains_key(k) ==> some_event(
            history,
            n,
            |e: TemporalHistoryEvent| schedules(e, k),
        )
    &&& forall|k: u64| #[trigger]
        m.activities.contains_key(k) && !(m.activities[k].state is Scheduled) ==> some_event(
            history,
            n,
            |e: TemporalHistoryEvent| settles(e, k),
        )
    &&& forall|k: u64| #[trigger]
        m.timers.contains_key(k) ==> some_event(
            history,
            n,
            |e: TemporalHistoryEvent| starts_timer(e, k),
        )
    &&& forall|k: u64| #[trigger]
        m.timers.contains_key(k) && m.timers[k].fired ==> some_event(
            history,
            n,
            |e: TemporalHistoryEvent| fires(e, k),
        )
    &&& forall|j: int|
        0 <= j < m.signals.len() ==> some_event(
            history,
            n,
            |e: TemporalHistoryEvent| signals(e, (#[trigger] m.signals[j]).event_id),
        )
    &&& forall|i: int, j: int|
        0 <= i < j < m.signals.len() ==> (#[trigger] m.signals[i]).event_id < (
        #[trigger] m.signals[j]).event_id
    &&& m.terminal is Some ==> n > 0 && (history[n - 1] is WorkflowExecutionCompleted || history[n
        - 1] is WorkflowExecutionFailed || history[n - 1] is WorkflowExecutionContinuedAsNew)
}

proof fn some_event_persists(
    history: Seq<TemporalHistoryEvent>,
    n: nat,
    holds: spec_fn(TemporalHistoryEvent) -> bool,
)
    requires
        some_event(history, n, holds),
    ensures
        some_event(history, n + 1, holds),
{
    let i = choose|i: int| 0 <= i < n && holds(#[trigger] history[i]);
    assert(0 <= i < n + 1 && holds(history[i]));
}

/// A projection mirrors its history: every event is told by it, with what the
/// event says, and everything it tells comes from an event. In particular the
/// end it tells is that of the last event.
#[verifier::rlimit(60)]
pub proof fn replay_mirrors_history(history: Seq<TemporalHistoryEvent>, n: nat)
    requires
        n <= history.len(),
        temporal::replayed(history, n) is Ok,
    ensures
        mirrors(history, n, temporal::replayed(history, n)->Ok_0),
    decreases n,
{
    if n > 0 {
        let p = (n - 1) as nat;
        replay_mirrors_history(history, p);
        temporal::entries_are_older(history, p);
        temporal::replayed_history_is_ordered(history, p);
        let a = temporal::replayed(history, p)->Ok_0;
        let b = temporal::replayed(history, n)->Ok_0;
        let e = history[n - 1];
        one_more_event_is_told(history, p, a, b);
        assert forall|i: int| 0 <= i < n implies tells(#[trigger] history[i], b) by {
            if i < p {
                older_events_stay_told(history[i], e, a, b);
            }
        }
    }
}

/// Whether a state went on by one event.
pub open spec fn went_on(a: ReplayView, e: TemporalHistoryEvent, b: ReplayView) -> bool {
    &&& temporal::replay_event(a, e) == Ok::<ReplayView, TemporalCompatError>(b)
    &&& forall|k: u64| #[trigger] a.activities.contains_key(k) ==> k <= a.last_event_id
    &&& forall|k: u64| #[trigger] a.timers.contains_key(k) ==> k <= a.last_event_id
}

proof fn older_events_stay_told(
    o: TemporalHistoryEvent,
    e: TemporalHistoryEvent,
    a: ReplayView,
    b: ReplayView,
)
    requires
        went_on(a, e, b),
        tells(o, a),
    ensures
        tells(o, b),
{
    if let TemporalHistoryEvent::WorkflowExecutionSignaled { event_id, signal_name, payload } = o {
        let j = choose|j: int|
            0 <= j < a.signals.len() && (#[trigger] a.signals[j]).event_id == event_id
                && a.signals[j].signal_name == signal_name@ && (match payload {
                Some(p) => a.signals[j].payload == Some(p@),
                None => a.signals[j].payload is None,
            });
        assert(b.signals[j] == a.signals[j]);
    }
}

#[verifier::rlimit(60)]
proof fn one_more_event_is_told(
    history: Seq<TemporalHistoryEvent>,
    p: nat,
    a: ReplayView,
    b: ReplayView,
)
    requires
        p < history.len(),
        mirrors(history, p, a),
        went_on(a, history[p as int], b),
        forall|i: int| 0 <= i < p ==> (#[trigger] history[i]).id() <= a.last_event_id,
    ensures
        tells(history[p as int], b),
        mirrors(history, p, a) && (forall|i: int|
            0 <= i < p + 1 ==> tells(#[trigger] history[i], b)) ==> mirrors(history, p + 1, b),
{
    let e = history[p as int];
    let n = p + 1;
    if e is WorkflowExecutionSignaled {
        assert(b.signals[a.signals.len() as int].event_id == e.id());
    }
    if b.workflow_type is Some {
        let h = |e: TemporalHistoryEvent| e is WorkflowExecutionStarted;
        if a.workflow_type is Some {
            some_event_persists(history, p, h);
        } else {
            assert(h(history[p as int]));
        }
    }
    assert forall|k: u64| #[trigger] b.activities.contains_key(k) implies some_event(
        history,
        n,
        |e: TemporalHistoryEvent| schedules(e, k),
    ) by {
        let h = |e: TemporalHistoryEvent| schedules(e, k);
        if a.activities.contains_key(k) {
            some_event_persists(history, p, h);
        } else {
            assert(h(history[p as int]));
        }
    }
    assert forall|k: u64| #[trigger]
        b.activities.contains_key(k) && !(b.activities[k].state is Scheduled) implies some_event(
        history,
        n,
        |e: TemporalHistoryEvent| settles(e, k),
    ) by {
        let h = |e: TemporalHistoryEvent| settles(e, k);
        if a.activities.contains_key(k) && !(a.activities[k].state is Scheduled) {
            some_event_persists(history, p, h);
        } else {
            assert(h(history[p as int]));
        }
    }
    assert forall|k: u64| #[trigger] b.timers.contains_key(k) implies some_event(
        history,
        n,
        |e: TemporalHistoryEvent| starts_timer(e, k),
    ) by {
        let h = |e: TemporalHistoryEvent| starts_timer(e, k);
        if a.timers.contains_key(k) {
            some_event_persists(history, p, h);
        } else {
            assert(h(history[p as int]));
        }
    }
    assert forall|k: u64| #[trigger]
        b.timers.contains_key(k) && b.timers[k].fired implies some_event(
        history,
        n,
        |e: TemporalHistoryEvent| fires(e, k),
    ) by {
        let h = |e: TemporalHistoryEvent| fires(e, k);
        if a.timers.contains_key(k) && a.timers[k].fired {
            some_event_persists(history, p, h);
        } else {
            assert(h(history[p as int]));
        }
    }
    assert forall|j: int| 0 <= j < b.signals.len() implies some_event(
        history,
        n,
        |e: TemporalHistoryEvent| signals(e, (#[trigger] b.signals[j]).event_id),
    ) by {
        let k = b.signals[j].event_id;
        let h = |e: TemporalHistoryEvent| signals(e, b.signals[j].event_id);
        if j < a.signals.len() {
            assert(b.signals[j] == a.signals[j]);
            let g = |e: TemporalHistoryEvent| signals(e, a.signals[j].event_id);
            assert(some_event(history, p, g));
            let i = choose|i: int| 0 <= i < p && g(#[trigger] history[i]);
            assert(h(history[i]));
        } else {
            assert(h(history[p as int]));
        }
    }
    assert forall|i: int, j: int| 0 <= i < j < b.signals.len() implies (
    #[trigger] b.signals[i]).event_id < (#[trigger] b.signals[j]).event_id by {
        assert(b.signals[i] == a.signals[i]);
        let g = |e: TemporalHistoryEvent| signals(e, a.signals[i].event_id);
        assert(some_event(history, p, g));
        let q = choose|q: int| 0 <= q < p && g(#[trigger] history[q]);
        assert(history[q].id() <= a.last_event_id);
    }
}

/// A replayed state tells how the execution ended exactly as the last event
/// does: with its result, its message or its next run, and not at all where the
/// last event ends nothing. The same holds of what was started, of every
/// activity, timer and signal.
#[verifier::rlimit(60)]
pub proof fn replayed_state_tells_the_history(
    history: Seq<TemporalHistoryEvent>,
    state: TemporalReplayState,
)
    requires
        temporal::replayed(history, history.len()) == Ok::<ReplayView, TemporalCompatError>(
            state@,
        ),
    ensures
        history.len() > 0,
        state.terminal is None <==> !(history.last() is WorkflowExecutionCompleted)
            && !(history.last() is WorkflowExecutionFailed)
            && !(history.last() is WorkflowExecutionContinuedAsNew),
        history.last() matches TemporalHistoryEvent::WorkflowExecutionCompleted { result, .. } ==> (
        state.terminal matches Some(TemporalTerminalState::Completed(r)) && r@ == result@),
        history.last() matches TemporalHistoryEvent::WorkflowExecutionFailed { message, .. } ==> (
        state.terminal matches Some(TemporalTerminalState::Failed(r)) && r@ == message@),
        history.last() matches TemporalHistoryEvent::WorkflowExecutionContinuedAsNew {
            new_run_id,
            ..
        } ==> (state.terminal matches Some(TemporalTerminalState::ContinuedAsNew { new_run_id: r })
            && r@ == new_run_id@),
        forall|i: int|
            0 <= i < history.len() ==> (#[trigger] history[i] matches TemporalHistoryEvent::WorkflowExecutionStarted {
                workflow_type,
                input,
                ..
            } ==> state.workflow_type@ == workflow_type@ && state.input@ == input@),
        forall|i: int|
            0 <= i < history.len() ==> (#[trigger] history[i] matches TemporalHistoryEvent::ActivityTaskScheduled {
                event_id,
                activity_id,
                activity_type,
                task_queue,
                input,
            } ==> {
                let a = state.activities@[event_id];
                &&& state.activities@.contains_key(event_id)
                &&& a.scheduled_event_id == event_id
                &&& a.activity_id@ == activity_id@
                &&& a.activity_type@ == activity_type@
                &&& a.task_queue@ == task_queue@
                &&& a.input@ == input@
                &&& a.state is Scheduled <==> !some_event(
                    history,
                    history.len(),
                    |e: TemporalHistoryEvent| settles(e, event_id),
                )
            }),
        forall|i: int|
            0 <= i < history.len() ==> (#[trigger] history[i] matches TemporalHistoryEvent::ActivityTaskCompleted {
                scheduled_event_id,
                result,
                ..
            } ==> (
            state.activities@[scheduled_event_id].state matches TemporalReplayedActivityState::Completed(
                r,
            ) && r@ == result@)),
        forall|i: int|
            0 <= i < history.len() ==> (#[trigger] history[i] matches TemporalHistoryEvent::ActivityTaskFailed {
                scheduled_event_id,
                message,
                ..
            } ==> (
            state.activities@[scheduled_event_id].state matches TemporalReplayedActivityState::Failed(
                r,
            ) && r@ == message@)),
        forall|i: int|
            0 <= i < history.len() ==> (#[trigger] history[i] matches TemporalHistoryEvent::TimerStarted {
                event_id,
                timer_id,
                duration_ms,
            } ==> {
                let t = state.timers@[event_id];
                &&& state.timers@.contains_key(event_id)
                &&& t.started_event_id == event_id
                &&& t.timer_id@ == timer_id@
                &&& t.duration_ms == duration_ms
                &&& t.fired <==> some_event(
                    history,
                    history.len(),
                    |e: TemporalHistoryEvent| fires(e, event_id),
                )
            }),
        forall|i: int|
            0 <= i < history.len() ==> (#[trigger] history[i] matches TemporalHistoryEvent::WorkflowExecutionSignaled {
                event_id,
                signal_name,
                payload,
            } ==> exists|j: int|
                0 <= j < state.signals@.len() && (#[trigger] state.signals@[j]).event_id == event_id
                    && state.signals@[j].signal_name@ == signal_name@ && (match payload {
                    Some(p) => state.signals@[j].payload matches Some(q) && q@ == p@,
                    None => state.signals@[j].payload is None,
                })),
        forall|k: u64| #[trigger]
            state.activities@.contains_key(k) ==> some_event(
                history,
                history.len(),
                |e: TemporalHistoryEvent| schedules(e, k),
            ),
        forall|k: u64| #[trigger]
            state.timers@.contains_key(k) ==> some_event(
                history,
                history.len(),
                |e: TemporalHistoryEvent| starts_timer(e, k),
            ),
        forall|j: int|
            0 <= j < state.signals@.len() ==> some_event(
                history,
                history.len(),
                |e: TemporalHistoryEvent| signals(e, (#[trigger] state.signals@[j]).event_id),
            ),
        forall|i: int, j: int|
            0 <= i < j < state.signals@.len() ==> (#[trigger] state.signals@[i]).event_id < (
            #[trigger] state.signals@[j]).event_id,
{
    let n = history.len();
    let m = state@;
    replay_mirrors_history(history, n);
    temporal::replayed_entries_keep_their_event(history, n);
    temporal::replayed_history_is_ordered(history, n);
    if n == 0 {
        assert(m == temporal::replay_start());
    }
    assert(tells(history[n - 1], m));
    assert forall|i: int| 0 <= i < n implies tells(#[trigger] history[i], m) by {}
    assert forall|k: u64| state.activities@.contains_key(k) == #[trigger] m.activities.contains_key(k) by {}
    assert forall|k: u64| state.timers@.contains_key(k) == #[trigger] m.timers.contains_key(k) by {}
    assert forall|k: u64| #[trigger] state.activities@.contains_key(k) implies m.activities.contains_key(k)
        && m.activities[k] == state.activities@[k]@ by {}
    assert forall|k: u64| #[trigger] state.timers@.contains_key(k) implies m.timers.contains_key(k)
        && m.timers[k] == state.timers@[k]@ by {}
    assert forall|i: int| 0 <= i < n implies (#[trigger] history[i] matches TemporalHistoryEvent::WorkflowExecutionSignaled {
        event_id,
        signal_name,
        payload,
    } ==> exists|j: int|
        0 <= j < state.signals@.len() && (#[trigger] state.signals@[j]).event_id == event_id
            && state.signals@[j].signal_name@ == signal_name@ && (match payload {
            Some(p) => state.signals@[j].payload matches Some(q) && q@ == p@,
            None => state.signals@[j].payload is None,
        })) by {
        if let TemporalHistoryEvent::WorkflowExecutionSignaled { event_id, signal_name, payload } =
            history[i] {
            let j = choose|j: int|
                0 <= j < m.signals.len() && (#[trigger] m.signals[j]).event_id == event_id
                    && m.signals[j].signal_name == signal_name@ && (match payload {
                    Some(p) => m.signals[j].payload == Some(p@),
                    None => m.signals[j].payload is None,
                });
            assert(m.signals[j] == state.signals@[j]@);
            assert(state.signals@[j].event_id == event_id);
        }
    }
    assert forall|i: int| 0 <= i < n implies (#[trigger] history[i] matches TemporalHistoryEvent::ActivityTaskScheduled {
        event_id,
        ..
    } ==> (m.activities[event_id].state is Scheduled <==> !some_event(
        history,
        n,
        |e: TemporalHistoryEvent| settles(e, event_id),
    ))) by {
        if let TemporalHistoryEvent::ActivityTaskScheduled { event_id, .. } = history[i] {
            let h = |e: TemporalHistoryEvent| settles(e, event_id);
            if some_event(history, n, h) {
                let q = choose|q: int| 0 <= q < n && h(#[trigger] history[q]);
                assert(tells(history[q], m));
            }
        }
    }
    assert forall|i: int| 0 <= i < n implies (#[trigger] history[i] matches TemporalHistoryEvent::TimerStarted {
        event_id,
        ..
    } ==> (m.timers[event_id].fired <==> some_event(
        history,
        n,
        |e: TemporalHistoryEvent| fires(e, event_id),
    ))) by {
        if let TemporalHistoryEvent::TimerStarted { event_id, .. } = history[i] {
            let h = |e: TemporalHistoryEvent| fires(e, event_id);
            if some_event(history, n, h) {
                let q = choose|q: int| 0 <= q < n && h(#[trigger] history[q]);
                assert(tells(history[q], m));
            }
        }
    }
    assert forall|j: int| 0 <= j < state.signals@.len() implies some_event(
        history,
        n,
        |e: TemporalHistoryEvent| signals(e, (#[trigger] state.signals@[j]).event_id),
    ) by {
        assert(m.signals[j] == state.signals@[j]@);
        let g = |e: TemporalHistoryEvent| signals(e, m.signals[j].event_id);
        let h = |e: TemporalHistoryEvent| signals(e, state.signals@[j].event_id);
        assert(some_event(history, n, g));
        let i = choose|i: int| 0 <= i < n && g(#[trigger] history[i]);
        assert(h(history[i]));
    }
    assert forall|i: int, j: int| 0 <= i < j < state.signals@.len() implies (
    #[trigger] state.signals@[i]).event_id < (#[trigger] state.signals@[j]).event_id by {
        assert(m.signals[i] == state.signals@[i]@);
        assert(m.signals[j] == state.signals@[j]@);
    }
}

/// The id of the last of the first `n` events; zero before the first.
pub open spec fn last_id(history: Seq<TemporalHistoryEvent>, n: nat) -> u64 {
    if n == 0 {
        0
    } else {
        history[n - 1].id()
    }
}

/// Why the event after the first `n` has no place in the history, if so.
pub open spec fn misplaced(history: Seq<TemporalHistoryEvent>, n: nat) -> Option<
    TemporalCompatError,
> {
    let e = history[n as int];
    let since = |h: spec_fn(TemporalHistoryEvent) -> bool| some_event(history, n, h);
    if e.id() <= last_id(history, n) {
        Some(
            TemporalCompatError::NonMonotonicHistory {
                previous: last_id(history, n),
                current: e.id(),
            },
        )
    } else if n > 0 && (history[n - 1] is WorkflowExecutionCompleted || history[n
        - 1] is WorkflowExecutionFailed || history[n - 1] is WorkflowExecutionContinuedAsNew) {
        Some(TemporalCompatError::EventAfterTerminal { event_id: e.id() })
    } else {
        match e {
            TemporalHistoryEvent::WorkflowExecutionStarted { .. } if since(
                |o: TemporalHistoryEvent| o is WorkflowExecutionStarted,
            ) => Some(TemporalCompatError::DuplicateWorkflowStart),
            TemporalHistoryEvent::ActivityTaskCompleted { scheduled_event_id: k, .. } if !since(
                |o: TemporalHistoryEvent| schedules(o, k),
            ) => Some(TemporalCompatError::UnknownActivityScheduledEvent(k)),
            TemporalHistoryEvent::ActivityTaskFailed { scheduled_event_id: k, .. } if !since(
                |o: TemporalHistoryEvent| schedules(o, k),
            ) => Some(TemporalCompatError::UnknownActivityScheduledEvent(k)),
            TemporalHistoryEvent::ActivityTaskCompleted { scheduled_event_id: k, .. } if since(
                |o: TemporalHistoryEvent| settles(o, k),
            ) => Some(TemporalCompatError::ActivityAlreadyTerminal(k)),
            TemporalHistoryEvent::ActivityTaskFailed { scheduled_event_id: k, .. } if since(
                |o: TemporalHistoryEvent| settles(o, k),
            ) => Some(TemporalCompatError::ActivityAlreadyTerminal(k)),
            TemporalHistoryEvent::TimerFired { started_event_id: k, .. } if !since(
                |o: TemporalHistoryEvent| starts_timer(o, k),
            ) => Some(TemporalCompatError::UnknownTimerStartedEvent(k)),
            TemporalHistoryEvent::TimerFired { started_event_id: k, .. } if since(
                |o: TemporalHistoryEvent| fires(o, k),
            ) => Some(TemporalCompatError::TimerAlreadyFired(k)),
            _ => None,
        }
    }
}

/// Whether an event leaves a name empty that it must give.
pub open spec fn leaves_a_name_empty(e: TemporalHistoryEvent) -> bool {
    match e {
        TemporalHistoryEvent::WorkflowExecutionStarted { workflow_type, .. } => workflow_type@.len()
            == 0,
        TemporalHistoryEvent::ActivityTaskScheduled {
            activity_id,
            activity_type,
            task_queue,
            ..
        } => activity_id@.len() == 0 || activity_type@.len() == 0 || task_queue@.len() == 0,
        TemporalHistoryEvent::TimerStarted { timer_id, .. } => timer_id@.len() == 0,
        TemporalHistoryEvent::WorkflowExecutionSignaled { signal_name, .. } => signal_name@.len()
            == 0,
        TemporalHistoryEvent::WorkflowExecutionContinuedAsNew { new_run_id, .. } => new_run_id@.len()
            == 0,
        _ => false,
    }
}

/// The next event is refused exactly where it has no place in the history or
/// leaves a required name empty: an id that does not grow, an event after the
/// end, a second start, an outcome without a schedule or a second outcome, a
/// firing without a timer or a second firing.
#[verifier::rlimit(60)]
pub proof fn misplaced_events_are_refused(history: Seq<TemporalHistoryEvent>, n: nat)
    requires
        n < history.len(),
        temporal::replayed(history, n) is Ok,
    ensures
        match misplaced(history, n) {
            Some(e) => temporal::replayed(history, n + 1) == Err::<ReplayView, TemporalCompatError>(
                e,
            ),
            None => if leaves_a_name_empty(history[n as int]) {
                temporal::replayed(history, n + 1) matches Err(TemporalCompatError::EmptyField(_))
            } else {
                temporal::replayed(history, n + 1) is Ok
            },
        },
{
    let m = temporal::replayed(history, n)->Ok_0;
    let e = history[n as int];
    replay_mirrors_history(history, n);
    temporal::replayed_history_is_ordered(history, n);
    let started = |o: TemporalHistoryEvent| o is WorkflowExecutionStarted;
    if some_event(history, n, started) {
        let q = choose|q: int| 0 <= q < n && started(#[trigger] history[q]);
        assert(tells(history[q], m));
    }
    let k = match e {
        TemporalHistoryEvent::ActivityTaskCompleted { scheduled_event_id, .. } => scheduled_event_id,
        TemporalHistoryEvent::ActivityTaskFailed { scheduled_event_id, .. } => scheduled_event_id,
        TemporalHistoryEvent::TimerFired { started_event_id, .. } => started_event_id,
        _ => 0,
    };
    let is_schedule = |o: TemporalHistoryEvent| schedules(o, k);
    if some_event(history, n, is_schedule) {
        let q = choose|q: int| 0 <= q < n && is_schedule(#[trigger] history[q]);
        assert(tells(history[q], m));
    }
    let is_outcome = |o: TemporalHistoryEvent| settles(o, k);
    if some_event(history, n, is_outcome) {
        let q = choose|q: int| 0 <= q < n && is_outcome(#[trigger] history[q]);
        assert(tells(history[q], m));
    }
    let is_start = |o: TemporalHistoryEvent| starts_timer(o, k);
    if some_event(history, n, is_start) {
        let q = choose|q: int| 0 <= q < n && is_start(#[trigger] history[q]);
        assert(tells(history[q], m));
    }
    let is_firing = |o: TemporalHistoryEvent| fires(o, k);
    if some_event(history, n, is_firing) {
        let q = choose|q: int| 0 <= q < n && is_firing(#[trigger] history[q]);
        assert(tells(history[q], m));
    }
    if n == 0 {
        assert(m == temporal::replay_start());
    }
}

/// An event with another id.
pub open spec fn renumbered(e: TemporalHistoryEvent, event_id: u64) -> TemporalHistoryEvent {
    match e {
        TemporalHistoryEvent::WorkflowExecutionStarted { workflow_type, input, .. } =>
            TemporalHistoryEvent::WorkflowExecutionStarted { event_id, workflow_type, input },
        TemporalHistoryEvent::ActivityTaskScheduled {
            activity_id,
            activity_type,
            task_queue,
            input,
            ..
        } => TemporalHistoryEvent::ActivityTaskScheduled {
            event_id,
            activity_id,
            activity_type,
            task_queue,
            input,
        },
        TemporalHistoryEvent::ActivityTaskCompleted { scheduled_event_id, result, .. } =>
            TemporalHistoryEvent::ActivityTaskCompleted { event_id, scheduled_event_id, result },
        TemporalHistoryEvent::ActivityTaskFailed { scheduled_event_id, message, .. } =>
            TemporalHistoryEvent::ActivityTaskFailed { event_id, scheduled_event_id, message },
        TemporalHistoryEvent::TimerStarted { timer_id, duration_ms, .. } =>
            TemporalHistoryEvent::TimerStarted { event_id, timer_id, duration_ms },
        TemporalHistoryEvent::TimerFired { started_event_id, .. } =>
            TemporalHistoryEvent::TimerFired { event_id, started_event_id },
        TemporalHistoryEvent::WorkflowExecutionSignaled { signal_name, payload, .. } =>
            TemporalHistoryEvent::WorkflowExecutionSignaled { event_id, signal_name, payload },
        TemporalHistoryEvent::WorkflowExecutionCompleted { result, .. } =>
            TemporalHistoryEvent::WorkflowExecutionCompleted { event_id, result },
        TemporalHistoryEvent::WorkflowExecutionFailed { message, .. } =>
            TemporalHistoryEvent::WorkflowExecutionFailed { event_id, message },
        TemporalHistoryEvent::WorkflowExecutionContinuedAsNew { new_run_id, .. } =>
            TemporalHistoryEvent::WorkflowExecutionContinuedAsNew { event_id, new_run_id },
    }
}

/// The id of an event is the one it was given, and nothing else of the event
/// bears on it.
pub proof fn renumbering_changes_the_id(e: TemporalHistoryEvent, event_id: u64)
    ensures
        renumbered(e, event_id).id() == event_id,
        renumbered(e, e.id()) == e,
{
}

// ---------------------------------------------------------------------------
// Commands
// ---------------------------------------------------------------------------

/// A plan keeps its command: an activity becomes an external effect of its type
/// that is promised at least once and has no result yet, a timer becomes a timer
/// event of its name and duration at the transition's sequence, and the endings
/// stay what they are.
pub proof fn plans_keep_their_command(
    context: temporal::TemporalWorkflowTaskContext,
    ordinal: u32,
    command: temporal::TemporalCommand,
    plan: temporal::TemporalCommandPlan,
)
    requires
        context.plans(ordinal, command, plan),
    ensures
        command matches temporal::TemporalCommand::ScheduleActivity(request) <==> plan is Activity,
        plan matches temporal::TemporalCommandPlan::Activity(p) ==> {
            let record = p.record@;
            &&& command == temporal::TemporalCommand::ScheduleActivity(p.request)
            &&& record.result is None
            &&& record.spec.boundary is External
            &&& record.spec.operation == "Temporal.Activity/"@ + p.request.activity_type@
            &&& record.digest == hashing::blake3_digest(p.request.canonical())
            &&& durable_effect::recovery(record) == durable_effect::ActionView::RetryAtLeastOnce(
                record.spec.id,
            )
        },
        command matches temporal::TemporalCommand::StartTimer { timer_id, duration_ms } ==> (
        plan matches temporal::TemporalCommandPlan::WorkflowEvent(
            WorkflowEvent::TimerSet { sequence, name, duration_ms: d },
        ) && sequence == context.transition_sequence && name@ == timer_id@ && d == duration_ms),
        command matches temporal::TemporalCommand::CompleteWorkflow { result } ==> (
        plan matches temporal::TemporalCommandPlan::CompleteWorkflow { result: r } && r@
            == result@),
        command matches temporal::TemporalCommand::FailWorkflow { message } ==> (
        plan matches temporal::TemporalCommandPlan::FailWorkflow { message: m } && m@
            == message@),
        command matches temporal::TemporalCommand::ContinueAsNew { workflow_type, input } ==> (
        plan matches temporal::TemporalCommandPlan::ContinueAsNew {
            workflow_type: w,
            input: i,
        } && w@ == workflow_type@ && i@ == input@),
{
}

/// A command is refused exactly where it leaves a name empty that it must give.
pub proof fn nameless_commands_are_refused(command: temporal::TemporalCommand)
    ensures
        temporal::command_fault(command) is Some <==> match command {
            temporal::TemporalCommand::ScheduleActivity(r) => r.activity_id@.len() == 0
                || r.activity_type@.len() == 0 || r.task_queue@.len() == 0,
            temporal::TemporalCommand::StartTimer { timer_id, .. } => timer_id@.len() == 0,
            temporal::TemporalCommand::ContinueAsNew { workflow_type, .. } => workflow_type@.len()
                == 0,
            _ => false,
        },
        temporal::command_fault(command) matches Some(e) ==> e is EmptyField,
{
}

/// The identity of an activity is derived from what makes it: two activities are
/// derived from the same bytes only where actor, execution, workflow task,
/// activity, type and place among the commands are the same.
pub proof fn activities_have_their_own_identity(
    a: temporal::TemporalWorkflowTaskContext,
    b: temporal::TemporalWorkflowTaskContext,
    ordinal_a: u32,
    ordinal_b: u32,
    id_a: Seq<char>,
    id_b: Seq<char>,
    type_a: Seq<char>,
    type_b: Seq<char>,
)
    requires
        encode_utf8(a.activity_key(id_a)).len() < 0x1_0000_0000_0000_0000,
        encode_utf8(b.activity_key(id_b)).len() < 0x1_0000_0000_0000_0000,
        durable_effect::effect_preimage(
            a.nulang_actor_id,
            a.activity_key(id_a),
            ordinal_a,
            "Temporal.Activity/"@ + type_a,
        ) == durable_effect::effect_preimage(
            b.nulang_actor_id,
            b.activity_key(id_b),
            ordinal_b,
            "Temporal.Activity/"@ + type_b,
        ),
    ensures
        a.nulang_actor_id == b.nulang_actor_id,
        ordinal_a == ordinal_b,
        a.execution.namespace@ == b.execution.namespace@,
        a.execution.workflow_id@ == b.execution.workflow_id@,
        a.execution.run_id@ == b.execution.run_id@,
        a.workflow_task_started_event_id == b.workflow_task_started_event_id,
        id_a == id_b,
        type_a == type_b,
{
    let p = "Temporal.Activity/"@;
    durable_effect::effect_preimage_injective(
        a.nulang_actor_id,
        a.activity_key(id_a),
        ordinal_a,
        p + type_a,
        b.nulang_actor_id,
        b.activity_key(id_b),
        ordinal_b,
        p + type_b,
    );
    temporal::activity_key_is_injective(a, id_a, b, id_b);
    assert((p + type_a).skip(p.len() as int) =~= type_a);
    assert((p + type_b).skip(p.len() as int) =~= type_b);
}

} // verus!
