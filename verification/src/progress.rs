//! Progress events: when one goes out, and what it says.

use vstd::prelude::*;
use crate::control::{RunControl, should_emit_progress};
use crate::counters::TestCounters;
use crate::report::{ProgressUpdate, Rate};

verus! {

/// The progress event for the moment at which `completed` of `total`
/// requests are done, `elapsed_ns` into the run. The rate is the completed
/// requests over the elapsed time.
pub open spec fn progress_of(
    counters: TestCounters,
    completed: u32,
    total: u32,
    elapsed_ns: u64,
    latest_response_time_ns: u64,
) -> ProgressUpdate {
    ProgressUpdate {
        completed,
        total,
        successful: counters.successful(),
        failed: counters.failed(),
        current_rps: Rate { count: completed as u64, window_ns: elapsed_ns },
        elapsed_ns,
        latest_response_time_ns,
    }
}

/// Decides whether the request that brought the number of completed
/// requests to `completed` sends a progress event: it does when the throttle
/// lets it, or when it is the last request of the run. The throttle is asked
/// first and notes the time where it lets the event pass.
pub fn report_progress(
    control: &mut RunControl,
    counters: &TestCounters,
    completed: u32,
    total: u32,
    now_ms: u64,
    elapsed_ns: u64,
    latest_response_time_ns: u64,
) -> (event: Option<ProgressUpdate>)
    ensures
        *final(control) == old(control).after_progress(now_ms),
        event is Some <==> old(control).progress_due(now_ms) || completed == total,
        event is Some ==> event->0 == progress_of(
            *counters,
            completed,
            total,
            elapsed_ns,
            latest_response_time_ns,
        ),
{
    let due = should_emit_progress(control, now_ms);
    if due || completed == total {
        Some(
            ProgressUpdate {
                completed,
                total,
                successful: counters.successful(),
                failed: counters.failed(),
                current_rps: Rate { count: completed as u64, window_ns: elapsed_ns },
                elapsed_ns,
                latest_response_time_ns,
            },
        )
    } else {
        None
    }
}

} // verus!
