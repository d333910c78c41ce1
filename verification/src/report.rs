//! The records that a report and a progress event are made of. Times are
//! nanoseconds.

use vstd::prelude::*;
use crate::histogram::HistogramBucket;
use crate::outcome::{ErrorType, RequestResult};
use crate::percentile::LatencyPercentiles;

verus! {

/// A rate: `count` events in a window of `window_ns` nanoseconds. A window
/// of 0 stands for the rate 0.
#[derive(Debug, Clone, Copy, PartialEq, Eq, Structural)]
pub struct Rate {
    pub count: u64,
    pub window_ns: u64,
}

/// How often a status code was seen.
#[derive(Debug, Clone, Copy, PartialEq, Eq, Structural)]
pub struct StatusCodeCount {
    pub code: u16,
    pub count: u32,
}

/// The progress of a run, as sent to the host.
#[derive(Debug, Clone, Copy, PartialEq, Eq, Structural)]
pub struct ProgressUpdate {
    pub completed: u32,
    pub total: u32,
    pub successful: u32,
    pub failed: u32,
    pub current_rps: Rate,
    pub elapsed_ns: u64,
    pub latest_response_time_ns: u64,
}

/// The throughput in one interval of the run.
#[derive(Debug, Clone, Copy, PartialEq, Eq, Structural)]
pub struct ThroughputDataPoint {
    /// The end of the interval.
    pub time_ns: u64,
    /// The requests completed before the end of the interval.
    pub requests_completed: u32,
    /// The rate of the requests completed within the interval.
    pub rps: Rate,
}

/// The latency of one request, by its place in the order of completion.
#[derive(Debug, Clone, Copy, PartialEq, Eq, Structural)]
pub struct LatencyDataPoint {
    pub request_num: u32,
    pub latency_ns: u64,
    pub timestamp_ns: u64,
}

/// One failed request in the error log.
#[derive(Debug, Clone, PartialEq, Eq)]
pub struct ErrorLogEntry {
    pub timestamp_ns: u64,
    pub status: u16,
    pub error: String,
    pub error_type: ErrorType,
    pub duration_ns: u64,
}

/// The number of requests in flight at one moment.
#[derive(Debug, Clone, Copy, PartialEq, Eq, Structural)]
pub struct ConcurrencyDataPoint {
    pub time_ns: u64,
    pub concurrent_requests: u32,
}

/// The start of one request, by its place in the order of starting.
#[derive(Debug, Clone, Copy, PartialEq, Eq, Structural)]
pub struct RequestTimelinePoint {
    pub time_ns: u64,
    pub request_index: u32,
}

/// The report of a run.
#[derive(Debug, Clone, PartialEq, Eq)]
pub struct LoadTestStats {
    pub total_requests: u32,
    pub successful_requests: u32,
    pub failed_requests: u32,
    pub total_time_ns: u64,
    pub avg_response_time_ns: u64,
    pub min_response_time_ns: u64,
    pub max_response_time_ns: u64,
    pub requests_per_second: Rate,
    pub histogram: Vec<HistogramBucket>,
    pub percentiles: LatencyPercentiles,
    pub status_codes: Vec<StatusCodeCount>,
    pub results: Vec<RequestResult>,
    pub throughput_over_time: Vec<ThroughputDataPoint>,
    pub latency_over_time: Vec<LatencyDataPoint>,
    pub error_logs: Vec<ErrorLogEntry>,
    pub concurrency_over_time: Vec<ConcurrencyDataPoint>,
    pub request_timeline: Vec<RequestTimelinePoint>,
}

} // verus!
