//! Percentiles of response times.

use vstd::prelude::*;
use crate::sorting::ascending;

verus! {

/// The seven percentiles of the response times that a report shows,
/// in nanoseconds.
#[derive(Debug, Clone, Copy, PartialEq, Eq, Structural)]
pub struct LatencyPercentiles {
    pub p10: u64,
    pub p25: u64,
    pub p50: u64,
    pub p75: u64,
    pub p90: u64,
    pub p95: u64,
    pub p99: u64,
}

impl Default for LatencyPercentiles {
    fn default() -> (r: Self)
        ensures
            r == (LatencyPercentiles { p10: 0, p25: 0, p50: 0, p75: 0, p90: 0, p95: 0, p99: 0 }),
    {
        LatencyPercentiles { p10: 0, p25: 0, p50: 0, p75: 0, p90: 0, p95: 0, p99: 0 }
    }
}

/// Where the percentile `percentile` stands among `len` sorted items: at
/// `percentile` hundredths of the last index, rounded half up, and not behind
/// the last index.
pub open spec fn percentile_index(len: nat, percentile: nat) -> int {
    if len == 0 {
        0
    } else {
        let raw = (percentile * (len - 1) + 50) / 100;
        if raw < len - 1 {
            raw
        } else {
            len - 1
        }
    }
}

/// The percentile `percentile` of sorted times; 0 for no times.
pub open spec fn percentile_of(sorted: Seq<u64>, percentile: nat) -> u64 {
    if sorted.len() == 0 {
        0
    } else {
        sorted[percentile_index(sorted.len(), percentile)]
    }
}

/// The seven percentiles of sorted times.
pub open spec fn percentiles_of(sorted: Seq<u64>) -> LatencyPercentiles {
    LatencyPercentiles {
        p10: percentile_of(sorted, 10),
        p25: percentile_of(sorted, 25),
        p50: percentile_of(sorted, 50),
        p75: percentile_of(sorted, 75),
        p90: percentile_of(sorted, 90),
        p95: percentile_of(sorted, 95),
        p99: percentile_of(sorted, 99),
    }
}

/// Reads one percentile from sorted times.
pub fn calculate_percentile(sorted_times: &Vec<u64>, percentile: u32) -> (r: u64)
    ensures
        r == percentile_of(sorted_times@, percentile as nat),
{
    let len: usize = sorted_times.len();
    if len == 0 {
        return 0;
    }
    let last: usize = len - 1;
    assert(percentile as u128 * last as u128 <= 0xffff_ffff * 0xffff_ffff_ffff_ffff) by (nonlinear_arith)
        requires
            percentile <= 0xffff_ffff,
            last <= 0xffff_ffff_ffff_ffff,
    ;
    let raw: u128 = (percentile as u128 * last as u128 + 50) / 100;
    let index: usize = if raw < last as u128 {
        raw as usize
    } else {
        last
    };
    sorted_times[index]
}

/// In ascending times, a higher percentile is not a smaller time.
pub proof fn lemma_percentile_monotonic(sorted: Seq<u64>, p1: nat, p2: nat)
    requires
        ascending(sorted),
        p1 <= p2,
    ensures
        percentile_of(sorted, p1) <= percentile_of(sorted, p2),
{
    if sorted.len() > 0 {
        let last = sorted.len() - 1;
        assert(p1 * last <= p2 * last) by (nonlinear_arith)
            requires
                p1 <= p2,
                last >= 0,
        ;
        assert(percentile_index(sorted.len(), p1) <= percentile_index(sorted.len(), p2));
        assert(0 <= p1 * last) by (nonlinear_arith)
            requires
                p1 >= 0,
                last >= 0,
        ;
    }
}

/// Reads the seven percentiles from sorted times. From ascending times they
/// come out in ascending order.
pub fn latency_percentiles(sorted_times: &Vec<u64>) -> (r: LatencyPercentiles)
    ensures
        r == percentiles_of(sorted_times@),
        ascending(sorted_times@) ==> r.p10 <= r.p25 <= r.p50 <= r.p75 <= r.p90 <= r.p95 <= r.p99,
{
    proof {
        if ascending(sorted_times@) {
            lemma_percentile_monotonic(sorted_times@, 10, 25);
            lemma_percentile_monotonic(sorted_times@, 25, 50);
            lemma_percentile_monotonic(sorted_times@, 50, 75);
            lemma_percentile_monotonic(sorted_times@, 75, 90);
            lemma_percentile_monotonic(sorted_times@, 90, 95);
            lemma_percentile_monotonic(sorted_times@, 95, 99);
        }
    }
    LatencyPercentiles {
        p10: calculate_percentile(sorted_times, 10),
        p25: calculate_percentile(sorted_times, 25),
        p50: calculate_percentile(sorted_times, 50),
        p75: calculate_percentile(sorted_times, 75),
        p90: calculate_percentile(sorted_times, 90),
        p95: calculate_percentile(sorted_times, 95),
        p99: calculate_percentile(sorted_times, 99),
    }
}

} // verus!
