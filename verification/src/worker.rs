//! One unit of the worker pipeline: the decisions of a task between its
//! waits, and what it does with its result.

use vstd::prelude::*;
use crate::control::RunControl;
use crate::counters::TestCounters;
use crate::outcome::{transport_error_result, ErrorType, RequestResult, TransportError};
use crate::progress::{progress_of, report_progress};
use crate::report::ProgressUpdate;

verus! {

/// Where a task stands.
#[derive(Debug, Clone, Copy, PartialEq, Eq, Structural)]
pub enum TaskState {
    /// Not begun.
    Start,
    /// Pausing for the rate limit.
    Pausing,
    /// Shaping its request.
    Shaping,
    /// Waiting for the response.
    Sending,
    /// Reading the response to its end.
    Draining,
    /// Ended without a result.
    Dropped,
    /// Ended with a result.
    Recorded,
}

/// What a task is told.
#[derive(Debug, Clone, Copy, PartialEq, Eq, Structural)]
pub enum TaskEvent {
    /// The task is taken up.
    Begin,
    /// The pause for the rate limit is over.
    PauseElapsed,
    /// The cancel poll ticked.
    PollTick,
    /// The request is shaped.
    Shaped,
    /// The head of the response arrived.
    HeadArrived,
    /// The transport failed.
    SendFailed,
    /// The response is read to its end.
    BodyDrained,
}

/// What a task does next.
#[derive(Debug, Clone, Copy, PartialEq, Eq, Structural)]
pub enum TaskAction {
    /// End without a result.
    Drop,
    /// Pause for so many nanoseconds, and look for a cancel at every tick.
    Pause(u64),
    /// Shape the request.
    Shape,
    /// Send the request, and look for a cancel at every tick.
    Send,
    /// Read the response to its end.
    Drain,
    /// Keep waiting.
    Wait,
    /// Record the result and end.
    Record,
}

/// Whether a task in state `state` has ended.
pub open spec fn is_ended(state: TaskState) -> bool {
    state == TaskState::Dropped || state == TaskState::Recorded
}

/// Whether a task in state `state` waits for `event`.
pub open spec fn expects(state: TaskState, event: TaskEvent) -> bool {
    match (state, event) {
        (TaskState::Start, TaskEvent::Begin) => true,
        (TaskState::Pausing, TaskEvent::PauseElapsed) => true,
        (TaskState::Pausing, TaskEvent::PollTick) => true,
        (TaskState::Shaping, TaskEvent::Shaped) => true,
        (TaskState::Sending, TaskEvent::PollTick) => true,
        (TaskState::Sending, TaskEvent::HeadArrived) => true,
        (TaskState::Sending, TaskEvent::SendFailed) => true,
        (TaskState::Draining, TaskEvent::BodyDrained) => true,
        _ => false,
    }
}

/// The next state and action of a task that is told `event` in state
/// `state`, given whether its run is cancelled at that moment and the pause
/// that the rate limit asks for. An event that the task does not wait for
/// changes nothing. A cancelled task ends without a result, whatever it is
/// told.
pub open spec fn task_step(
    state: TaskState,
    event: TaskEvent,
    cancelled: bool,
    interval_ns: Option<u64>,
) -> (TaskState, TaskAction) {
    if !expects(state, event) {
        (state, TaskAction::Wait)
    } else if cancelled {
        (TaskState::Dropped, TaskAction::Drop)
    } else {
        match (state, event) {
            (TaskState::Start, _) => match interval_ns {
                Some(pause) => (TaskState::Pausing, TaskAction::Pause(pause)),
                None => (TaskState::Shaping, TaskAction::Shape),
            },
            (TaskState::Pausing, TaskEvent::PauseElapsed) => (TaskState::Shaping, TaskAction::Shape),
            (TaskState::Pausing, _) => (TaskState::Pausing, TaskAction::Wait),
            (TaskState::Shaping, _) => (TaskState::Sending, TaskAction::Send),
            (TaskState::Sending, TaskEvent::PollTick) => (TaskState::Sending, TaskAction::Wait),
            (TaskState::Sending, TaskEvent::HeadArrived) => (
                TaskState::Draining,
                TaskAction::Drain,
            ),
            (TaskState::Sending, _) => (TaskState::Recorded, TaskAction::Record),
            _ => (TaskState::Recorded, TaskAction::Record),
        }
    }
}

/// Decides what a task does next.
pub fn next_action(
    state: TaskState,
    event: TaskEvent,
    cancelled: bool,
    interval_ns: Option<u64>,
) -> (r: (TaskState, TaskAction))
    ensures
        r == task_step(state, event, cancelled, interval_ns),
{
    let expected = match (state, event) {
        (TaskState::Start, TaskEvent::Begin) => true,
        (TaskState::Pausing, TaskEvent::PauseElapsed) => true,
        (TaskState::Pausing, TaskEvent::PollTick) => true,
        (TaskState::Shaping, TaskEvent::Shaped) => true,
        (TaskState::Sending, TaskEvent::PollTick) => true,
        (TaskState::Sending, TaskEvent::HeadArrived) => true,
        (TaskState::Sending, TaskEvent::SendFailed) => true,
        (TaskState::Draining, TaskEvent::BodyDrained) => true,
        _ => false,
    };
    if !expected {
        (state, TaskAction::Wait)
    } else if cancelled {
        (TaskState::Dropped, TaskAction::Drop)
    } else {
        match (state, event) {
            (TaskState::Start, _) => match interval_ns {
                Some(pause) => (TaskState::Pausing, TaskAction::Pause(pause)),
                None => (TaskState::Shaping, TaskAction::Shape),
            },
            (TaskState::Pausing, TaskEvent::PauseElapsed) => (TaskState::Shaping, TaskAction::Shape),
            (TaskState::Pausing, _) => (TaskState::Pausing, TaskAction::Wait),
            (TaskState::Shaping, _) => (TaskState::Sending, TaskAction::Send),
            (TaskState::Sending, TaskEvent::PollTick) => (TaskState::Sending, TaskAction::Wait),
            (TaskState::Sending, TaskEvent::HeadArrived) => (
                TaskState::Draining,
                TaskAction::Drain,
            ),
            (TaskState::Sending, _) => (TaskState::Recorded, TaskAction::Record),
            _ => (TaskState::Recorded, TaskAction::Record),
        }
    }
}

/// The state of a task after the first `upto` of the events it was told,
/// each with whether the run was cancelled then.
pub open spec fn state_after(events: Seq<(TaskEvent, bool)>, interval_ns: Option<u64>, upto: int) -> TaskState
    decreases upto,
{
    if upto <= 0 {
        TaskState::Start
    } else {
        task_step(
            state_after(events, interval_ns, upto - 1),
            events[upto - 1].0,
            events[upto - 1].1,
            interval_ns,
        ).0
    }
}

/// The action that the task took on event `at`.
pub open spec fn action_at(events: Seq<(TaskEvent, bool)>, interval_ns: Option<u64>, at: int) -> TaskAction {
    task_step(state_after(events, interval_ns, at), events[at].0, events[at].1, interval_ns).1
}

/// How many results the task recorded on the first `upto` events.
pub open spec fn records(events: Seq<(TaskEvent, bool)>, interval_ns: Option<u64>, upto: int) -> nat
    decreases upto,
{
    if upto <= 0 {
        0
    } else {
        records(events, interval_ns, upto - 1) + if action_at(events, interval_ns, upto - 1)
            == TaskAction::Record {
            1nat
        } else {
            0nat
        }
    }
}

/// A task that finds its run cancelled records nothing: it ends without a
/// result, or ignores an event it did not wait for.
pub proof fn lemma_cancelled_task_records_nothing(
    state: TaskState,
    event: TaskEvent,
    interval_ns: Option<u64>,
)
    ensures
        task_step(state, event, true, interval_ns).1 != TaskAction::Record,
        task_step(state, event, true, interval_ns).0 != TaskState::Recorded || state
            == TaskState::Recorded,
        expects(state, event) ==> task_step(state, event, true, interval_ns) == (
            TaskState::Dropped,
            TaskAction::Drop,
        ),
{
}

/// Without a rate limit no task pauses.
pub proof fn lemma_no_limit_no_pause(state: TaskState, event: TaskEvent, cancelled: bool)
    ensures
        !(task_step(state, event, cancelled, None).1 is Pause),
        task_step(state, event, cancelled, None).0 != TaskState::Pausing || state
            == TaskState::Pausing,
{
}

/// A task that has ended stays as it is and does nothing more.
pub proof fn lemma_ended_task_stays(
    state: TaskState,
    event: TaskEvent,
    cancelled: bool,
    interval_ns: Option<u64>,
)
    requires
        is_ended(state),
    ensures
        task_step(state, event, cancelled, interval_ns) == (state, TaskAction::Wait),
{
}

/// Every task has at most one outcome: it records at most one result, and
/// it has recorded one exactly when it stands in the state `Recorded`.
pub proof fn lemma_at_most_one_result(
    events: Seq<(TaskEvent, bool)>,
    interval_ns: Option<u64>,
    upto: int,
)
    requires
        0 <= upto <= events.len(),
    ensures
        records(events, interval_ns, upto) <= 1,
        records(events, interval_ns, upto) == 1 <==> state_after(events, interval_ns, upto)
            == TaskState::Recorded,
    decreases upto,
{
    if upto > 0 {
        lemma_at_most_one_result(events, interval_ns, upto - 1);
    }
}

/// A task whose run is never cancelled, and that is told only what it waits
/// for, is not dropped.
pub proof fn lemma_uncancelled_task_is_not_dropped(
    events: Seq<(TaskEvent, bool)>,
    interval_ns: Option<u64>,
    upto: int,
)
    requires
        0 <= upto <= events.len(),
        forall|i: int| 0 <= i < upto ==> !(#[trigger] events[i]).1,
    ensures
        state_after(events, interval_ns, upto) != TaskState::Dropped,
    decreases upto,
{
    if upto > 0 {
        lemma_uncancelled_task_is_not_dropped(events, interval_ns, upto - 1);
    }
}

/// From the moment a task finds its run cancelled every time it looks, it
/// records nothing more: what it has recorded by event `from` is all it
/// records.
pub proof fn lemma_nothing_is_recorded_after_cancel(
    events: Seq<(TaskEvent, bool)>,
    interval_ns: Option<u64>,
    from: int,
    upto: int,
)
    requires
        0 <= from <= upto <= events.len(),
        forall|i: int| from <= i < upto ==> (#[trigger] events[i]).1,
    ensures
        records(events, interval_ns, upto) == records(events, interval_ns, from),
    decreases upto - from,
{
    if from < upto {
        lemma_nothing_is_recorded_after_cancel(events, interval_ns, from, upto - 1);
        lemma_cancelled_task_records_nothing(
            state_after(events, interval_ns, upto - 1),
            events[upto - 1].0,
            interval_ns,
        );
    }
}

/// How many results the first `upto` tasks of a run recorded, each given by
/// the events it was told.
pub open spec fn results_of(
    tasks: Seq<Seq<(TaskEvent, bool)>>,
    interval_ns: Option<u64>,
    upto: int,
) -> nat
    decreases upto,
{
    if upto <= 0 {
        0
    } else {
        results_of(tasks, interval_ns, upto - 1) + records(
            tasks[upto - 1],
            interval_ns,
            tasks[upto - 1].len() as int,
        )
    }
}

/// A run yields at most one result for each request, and exactly one for
/// each where every task came to record its result.
pub proof fn lemma_run_yields_one_result_per_request(
    tasks: Seq<Seq<(TaskEvent, bool)>>,
    interval_ns: Option<u64>,
    upto: int,
)
    requires
        0 <= upto <= tasks.len(),
    ensures
        results_of(tasks, interval_ns, upto) <= upto,
        (forall|t: int|
            0 <= t < upto ==> state_after(#[trigger] tasks[t], interval_ns, tasks[t].len() as int)
                == TaskState::Recorded) ==> results_of(tasks, interval_ns, upto) == upto,
    decreases upto,
{
    if upto > 0 {
        lemma_run_yields_one_result_per_request(tasks, interval_ns, upto - 1);
        let last = tasks[upto - 1];
        lemma_at_most_one_result(last, interval_ns, last.len() as int);
    }
}

/// Turns a transport failure into a result, and counts it where its class
/// is `Connection`: a connection failure that is not a timeout.
pub fn record_transport_failure(
    counters: &mut TestCounters,
    err: &TransportError,
    duration_ns: u64,
    timestamp_ns: u64,
    keep_alive_disabled: bool,
) -> (r: RequestResult)
    ensures
        r.wf(),
        r.status == 0,
        !r.success,
        r.duration_ns == duration_ns,
        r.timestamp_ns == timestamp_ns,
        r.error_type == err.class(),
        r.error->0@ == err.text(duration_ns, keep_alive_disabled),
        final(counters).completed() == old(counters).completed(),
        final(counters).successful() == old(counters).successful(),
        final(counters).failed() == old(counters).failed(),
        final(counters).connection_errors() == if err.class() == ErrorType::Connection
            && old(counters).connection_errors() < u32::MAX {
            (old(counters).connection_errors() + 1) as u32
        } else {
            old(counters).connection_errors()
        },
{
    let result = transport_error_result(err, duration_ns, timestamp_ns, keep_alive_disabled);
    if result.error_type == ErrorType::Connection {
        counters.record_connection_error();
    }
    result
}

/// Counts a result, and decides whether a progress event goes out with it.
/// Returns the new number of completed requests and the event, if any.
pub fn record_result(
    counters: &mut TestCounters,
    control: &mut RunControl,
    result: &RequestResult,
    total: u32,
    now_ms: u64,
    elapsed_ns: u64,
) -> (r: (u32, Option<ProgressUpdate>))
    ensures
        r.0 == final(counters).completed(),
        final(counters).connection_errors() == old(counters).connection_errors(),
        final(counters).completed() == final(counters).successful() + final(counters).failed(),
        old(counters).completed() < u32::MAX ==> {
            &&& final(counters).completed() == old(counters).completed() + 1
            &&& final(counters).successful() == old(counters).successful() + if result.success {
                1int
            } else {
                0int
            }
            &&& final(counters).failed() == old(counters).failed() + if result.success {
                0int
            } else {
                1int
            }
        },
        old(counters).completed() == u32::MAX ==> {
            &&& final(counters).completed() == old(counters).completed()
            &&& final(counters).successful() == old(counters).successful()
            &&& final(counters).failed() == old(counters).failed()
        },
        *final(control) == old(control).after_progress(now_ms),
        r.1 is Some <==> old(control).progress_due(now_ms) || r.0 == total,
        r.1 is Some ==> r.1->0 == progress_of(
            *final(counters),
            r.0,
            total,
            elapsed_ns,
            result.duration_ns,
        ),
{
    let completed = counters.record(result.success);
    let event = report_progress(
        control,
        counters,
        completed,
        total,
        now_ms,
        elapsed_ns,
        result.duration_ns,
    );
    (completed, event)
}

} // verus!
