//! The counters of a run, and the rule that asks for fresh connections when
//! too many connections fail.

use vstd::prelude::*;

verus! {

/// Share of connection errors, in percent of the completed requests, from
/// which on requests ask for a fresh connection.
pub const CONNECTION_ERROR_THRESHOLD_PERCENT: u32 = 5;

/// Completed requests before the share of connection errors is looked at.
pub const MIN_REQUESTS_FOR_ADAPTIVE: u32 = 50;

/// The counters of a run. `completed` is always `successful + failed`.
#[derive(Debug, Clone, Copy, PartialEq, Eq)]
pub struct TestCounters {
    completed: u32,
    successful: u32,
    failed: u32,
    connection_errors: u32,
}

/// Whether requests must ask for a fresh connection, given the counters:
/// at least 50 requests completed and connection errors make up 5 percent or
/// more of them, the percentage rounded down.
pub open spec fn fresh_connections_needed(completed: u32, connection_errors: u32) -> bool {
    &&& completed >= MIN_REQUESTS_FOR_ADAPTIVE
    &&& connection_errors > 0
    &&& (connection_errors * 100) / (completed as int) >= CONNECTION_ERROR_THRESHOLD_PERCENT
}

impl TestCounters {
    #[verifier::type_invariant]
    spec fn inv(self) -> bool {
        self.completed == self.successful + self.failed
    }

    /// Requests that produced a result.
    pub closed spec fn spec_completed(&self) -> u32 {
        self.completed
    }

    /// Requests answered with a success status.
    pub closed spec fn spec_successful(&self) -> u32 {
        self.successful
    }

    /// Requests that failed.
    pub closed spec fn spec_failed(&self) -> u32 {
        self.failed
    }

    /// Requests that failed while connecting.
    pub closed spec fn spec_connection_errors(&self) -> u32 {
        self.connection_errors
    }

    /// All counters at 0.
    pub fn new() -> (r: Self)
        ensures
            r.spec_completed() == 0,
            r.spec_successful() == 0,
            r.spec_failed() == 0,
            r.spec_connection_errors() == 0,
    {
        TestCounters { completed: 0, successful: 0, failed: 0, connection_errors: 0 }
    }

    #[verifier::when_used_as_spec(spec_completed)]
    pub fn completed(&self) -> (r: u32)
        ensures
            r == self.spec_completed(),
            r == self.spec_successful() + self.spec_failed(),
    {
        proof {
            use_type_invariant(self);
        }
        self.completed
    }

    #[verifier::when_used_as_spec(spec_successful)]
    pub fn successful(&self) -> (r: u32)
        ensures
            r == self.spec_successful(),
    {
        self.successful
    }

    #[verifier::when_used_as_spec(spec_failed)]
    pub fn failed(&self) -> (r: u32)
        ensures
            r == self.spec_failed(),
    {
        self.failed
    }

    #[verifier::when_used_as_spec(spec_connection_errors)]
    pub fn connection_errors(&self) -> (r: u32)
        ensures
            r == self.spec_connection_errors(),
    {
        self.connection_errors
    }

    /// Counts a request that failed while connecting. The counter stops at
    /// its largest value.
    pub fn record_connection_error(&mut self)
        ensures
            final(self).spec_connection_errors() == if old(self).spec_connection_errors()
                < u32::MAX {
                (old(self).spec_connection_errors() + 1) as u32
            } else {
                u32::MAX
            },
            final(self).spec_completed() == old(self).spec_completed(),
            final(self).spec_successful() == old(self).spec_successful(),
            final(self).spec_failed() == old(self).spec_failed(),
    {
        proof {
            use_type_invariant(&*self);
        }
        if self.connection_errors < u32::MAX {
            self.connection_errors = self.connection_errors + 1;
        }
    }

    /// Counts a request that produced a result, and returns the new number of
    /// completed requests. The counters stop when `completed` is at its
    /// largest value.
    pub fn record(&mut self, success: bool) -> (completed: u32)
        ensures
            completed == final(self).spec_completed(),
            final(self).spec_connection_errors() == old(self).spec_connection_errors(),
            final(self).spec_completed()
                == final(self).spec_successful() + final(self).spec_failed(),
            old(self).spec_completed() < u32::MAX ==> {
                &&& final(self).spec_completed() == old(self).spec_completed() + 1
                &&& final(self).spec_successful() == old(self).spec_successful() + if success {
                    1int
                } else {
                    0int
                }
                &&& final(self).spec_failed() == old(self).spec_failed() + if success {
                    0int
                } else {
                    1int
                }
            },
            old(self).spec_completed() == u32::MAX ==> {
                &&& final(self).spec_completed() == old(self).spec_completed()
                &&& final(self).spec_successful() == old(self).spec_successful()
                &&& final(self).spec_failed() == old(self).spec_failed()
            },
    {
        proof {
            use_type_invariant(&*self);
        }
        if self.completed < u32::MAX {
            if success {
                *self = TestCounters {
                    completed: self.completed + 1,
                    successful: self.successful + 1,
                    failed: self.failed,
                    connection_errors: self.connection_errors,
                };
            } else {
                *self = TestCounters {
                    completed: self.completed + 1,
                    successful: self.successful,
                    failed: self.failed + 1,
                    connection_errors: self.connection_errors,
                };
            }
        }
        self.completed
    }

    /// Whether the next request must ask for a fresh connection. Looked at
    /// anew for every request: it may hold now and not later.
    pub fn needs_fresh_connections(&self) -> (r: bool)
        ensures
            r == fresh_connections_needed(self.spec_completed(), self.spec_connection_errors()),
    {
        if self.completed >= MIN_REQUESTS_FOR_ADAPTIVE && self.connection_errors > 0 {
            let percent: u64 = (self.connection_errors as u64 * 100) / (self.completed as u64);
            percent >= CONNECTION_ERROR_THRESHOLD_PERCENT as u64
        } else {
            false
        }
    }
}

} // verus!
