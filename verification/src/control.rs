//! Cancellation and progress throttling: a cancel flag, a generation counter
//! that scopes the flag to one run, and the time of the last progress event.

use vstd::prelude::*;

verus! {

/// Progress events are at least this many milliseconds apart.
pub const PROGRESS_THROTTLE_MS: u64 = 100;

/// A pending request looks at the cancel flag every so many milliseconds.
pub const CANCEL_POLL_MS: u64 = 50;

/// The control state shared by all runs.
#[derive(Debug, Clone, Copy, PartialEq, Eq, Structural)]
pub struct RunControl {
    /// Set by a cancel, cleared when a run begins.
    pub cancel_flag: bool,
    /// The number of the run that began last.
    pub generation: u64,
    /// When the last throttled progress event went out, in milliseconds since
    /// the epoch; 0 when none went out in this run.
    pub last_progress_ms: u64,
}

/// What can happen to the control state.
#[derive(Debug, Clone, Copy, PartialEq, Eq, Structural)]
pub enum ControlStep {
    /// The host cancels.
    Cancel,
    /// A run begins.
    BeginRun,
    /// A finished request asks at the given time whether to emit progress.
    Progress(u64),
}

impl RunControl {
    /// The state after a cancel: the flag is set, nothing else changes.
    pub open spec fn after_cancel(self) -> RunControl {
        RunControl { cancel_flag: true, ..self }
    }

    /// The state after a run began: the next generation, the flag cleared, no
    /// progress event sent yet.
    pub open spec fn after_begin_run(self) -> RunControl {
        RunControl {
            cancel_flag: false,
            generation: (self.generation + 1) as u64,
            last_progress_ms: 0,
        }
    }

    /// Whether a progress event is due at `now_ms` by the throttle alone.
    pub open spec fn progress_due(self, now_ms: u64) -> bool {
        now_ms >= self.last_progress_ms && now_ms - self.last_progress_ms >= PROGRESS_THROTTLE_MS
    }

    /// The state after a request asked for a progress event at `now_ms`.
    pub open spec fn after_progress(self, now_ms: u64) -> RunControl {
        if self.progress_due(now_ms) {
            RunControl { last_progress_ms: now_ms, ..self }
        } else {
            self
        }
    }

    /// Whether the run of generation `expected_generation` is cancelled: the
    /// flag is set and that run is still the current one.
    pub open spec fn cancelled(self, expected_generation: u64) -> bool {
        self.cancel_flag && self.generation == expected_generation
    }

    /// The state after one step.
    pub open spec fn after(self, step: ControlStep) -> RunControl {
        match step {
            ControlStep::Cancel => self.after_cancel(),
            ControlStep::BeginRun => self.after_begin_run(),
            ControlStep::Progress(now_ms) => self.after_progress(now_ms),
        }
    }

    /// The state after the first `upto` of `steps`.
    pub open spec fn after_steps(self, steps: Seq<ControlStep>, upto: int) -> RunControl
        decreases upto,
    {
        if upto <= 0 {
            self
        } else {
            self.after_steps(steps, upto - 1).after(steps[upto - 1])
        }
    }

    /// The state before any run: not cancelled, generation 0.
    pub fn new() -> (r: Self)
        ensures
            r == (RunControl { cancel_flag: false, generation: 0, last_progress_ms: 0 }),
    {
        RunControl { cancel_flag: false, generation: 0, last_progress_ms: 0 }
    }

    /// Cancels whichever run is current. The generation is left alone.
    pub fn cancel(&mut self)
        ensures
            *final(self) == old(self).after_cancel(),
    {
        self.cancel_flag = true;
    }

    /// Begins a run: moves to the next generation, clears the cancel flag and
    /// the progress throttle, and returns the new generation.
    pub fn begin_run(&mut self) -> (generation: u64)
        requires
            old(self).generation < u64::MAX,
        ensures
            *final(self) == old(self).after_begin_run(),
            generation == old(self).generation + 1,
            !final(self).cancelled(generation),
    {
        self.generation = self.generation + 1;
        self.cancel_flag = false;
        self.last_progress_ms = 0;
        self.generation
    }
}

/// Whether the run of generation `expected_generation` is cancelled.
pub fn is_cancelled(control: &RunControl, expected_generation: u64) -> (r: bool)
    ensures
        r == control.cancelled(expected_generation),
{
    control.cancel_flag && control.generation == expected_generation
}

/// Whether enough time has passed since the last progress event to emit
/// another; if so, `now_ms` becomes the time of the last event.
pub fn should_emit_progress(control: &mut RunControl, now_ms: u64) -> (emit: bool)
    ensures
        emit == old(control).progress_due(now_ms),
        *final(control) == old(control).after_progress(now_ms),
{
    if now_ms.saturating_sub(control.last_progress_ms) >= PROGRESS_THROTTLE_MS {
        control.last_progress_ms = now_ms;
        true
    } else {
        false
    }
}

/// A second cancel changes nothing.
pub proof fn lemma_cancel_idempotent(s: RunControl)
    ensures
        s.after_cancel().after_cancel() == s.after_cancel(),
{
}

/// Beginning a run moves to a strictly later generation, and the new run is
/// not cancelled when it begins, whatever the flag was before.
pub proof fn lemma_begin_run_is_fresh(s: RunControl)
    requires
        s.generation < u64::MAX,
    ensures
        s.after_begin_run().generation > s.generation,
        !s.after_begin_run().cancelled(s.after_begin_run().generation),
        !s.after_begin_run().cancelled(s.generation),
{
}

/// The generation never goes back, as long as it does not run out.
pub proof fn lemma_generation_monotonic(s: RunControl, steps: Seq<ControlStep>, upto: int)
    requires
        0 <= upto <= steps.len(),
        s.generation + upto <= u64::MAX,
    ensures
        s.generation <= s.after_steps(steps, upto).generation <= s.generation + upto,
    decreases upto,
{
    if upto > 0 {
        lemma_generation_monotonic(s, steps, upto - 1);
    }
}

/// Once a later run has begun, the earlier run's generation is never seen as
/// cancelled again, whatever cancels and runs follow.
pub proof fn lemma_old_generation_stays_clear(s: RunControl, steps: Seq<ControlStep>, upto: int)
    requires
        0 <= upto <= steps.len(),
        s.generation + 1 + upto <= u64::MAX,
    ensures
        !s.after_begin_run().after_steps(steps, upto).cancelled(s.generation),
{
    lemma_generation_monotonic(s.after_begin_run(), steps, upto);
}

/// A run is only ever cancelled by a cancel that came after it began: with no
/// cancel among the steps since, it is not cancelled.
pub proof fn lemma_cancelled_only_by_own_cancel(s: RunControl, steps: Seq<ControlStep>, upto: int)
    requires
        0 <= upto <= steps.len(),
        s.generation < u64::MAX,
        forall|i: int| 0 <= i < upto ==> !(steps[i] is Cancel),
    ensures
        !s.after_begin_run().after_steps(steps, upto).cancel_flag,
    decreases upto,
{
    if upto > 0 {
        lemma_cancelled_only_by_own_cancel(s, steps, upto - 1);
    }
}

} // verus!
