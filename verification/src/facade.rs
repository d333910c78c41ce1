//! The entry of a run: what is settled before any request is shaped.

use vstd::prelude::*;
use crate::config::{config_rejection, needs_dedicated_executor, parsed_scheme, resolve_concurrency, resolve_worker_threads, resolved_concurrency, validate_config, LoadTestConfig};
use crate::control::RunControl;
use crate::errors::LoadTestError;

verus! {

/// What is settled when a run begins.
#[derive(Debug, Clone, Copy, PartialEq, Eq, Structural)]
pub struct RunStart {
    /// The generation of the run; its cancellation is scoped to it.
    pub generation: u64,
    /// How many requests may be in flight.
    pub concurrency: u32,
    /// How many worker threads the run works with.
    pub worker_threads: usize,
    /// Whether the run needs an executor of its own with that many threads.
    pub dedicated_executor: bool,
}

/// Begins a run: validates the configuration, and only if it is accepted
/// moves the control state to the next generation. A rejected configuration
/// leaves the control state as it was, so a run in progress is not touched.
pub fn start_run(control: &mut RunControl, config: &LoadTestConfig, default_threads: usize) -> (r:
    Result<RunStart, LoadTestError>)
    requires
        old(control).generation < u64::MAX,
    ensures
        r is Ok <==> config_rejection(
            config.num_requests,
            config.url@,
            parsed_scheme(config.url@),
        ) is None,
        r is Err ==> *final(control) == *old(control) && r->Err_0 is InvalidConfig
            && r->Err_0->InvalidConfig_0@ == config_rejection(
            config.num_requests,
            config.url@,
            parsed_scheme(config.url@),
        )->0,
        r is Ok ==> {
            &&& *final(control) == old(control).after_begin_run()
            &&& !final(control).cancelled(r->Ok_0.generation)
            &&& r->Ok_0.generation == old(control).generation + 1
            &&& r->Ok_0.concurrency == resolved_concurrency(config.num_requests, config.concurrency)
            &&& 0 < r->Ok_0.concurrency <= config.num_requests
            &&& r->Ok_0.worker_threads == if config.worker_threads == 0 {
                default_threads
            } else {
                config.worker_threads as usize
            }
            &&& r->Ok_0.dedicated_executor == (config.worker_threads > 0 && config.worker_threads
                as usize != default_threads)
        },
{
    match validate_config(config) {
        Err(e) => Err(e),
        Ok(()) => {
            let worker_threads = resolve_worker_threads(config.worker_threads, default_threads);
            let dedicated_executor = needs_dedicated_executor(
                config.worker_threads,
                default_threads,
            );
            let generation = control.begin_run();
            let concurrency = resolve_concurrency(config.num_requests, config.concurrency);
            Ok(RunStart { generation, concurrency, worker_threads, dedicated_executor })
        },
    }
}

} // verus!
