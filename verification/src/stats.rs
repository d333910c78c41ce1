//! The report of a run, computed from the results in the order they came
//! in.

use std::collections::HashMap;
use vstd::prelude::*;
use vstd::seq_lib::*;
use vstd::std_specs::hash::*;
use crate::counting::{count_where, lemma_count_bound, lemma_count_positive, lemma_count_take_next};
use crate::histogram::{build_histogram, is_histogram, total_count, HISTOGRAM_BUCKETS};
use crate::outcome::{http_status_message, http_status_text, RequestResult};
use crate::percentile::{latency_percentiles, percentiles_of};
use crate::report::{ErrorLogEntry, LoadTestStats, Rate, StatusCodeCount};
use crate::series::{calculate_concurrency_over_time, calculate_latency_over_time, calculate_request_timeline, calculate_throughput_over_time, is_concurrency_series, is_latency_series, is_request_timeline, is_throughput_series, is_timestamp_order, sort_by_timestamp};
use crate::sorting::{pair_le, sort_pairs, sorted_ascending, sorted_copy};

verus! {

/// The error log holds at most this many entries.
pub const ERROR_LOGS_MAX: usize = 1000;

/// The room that the table of status codes starts with.
pub const STATUS_MAP_CAPACITY: usize = 8;

/// The results that succeeded.
pub open spec fn succeeded() -> spec_fn(RequestResult) -> bool {
    |r: RequestResult| r.success
}

/// The results with the status `code`.
pub open spec fn has_status(code: u16) -> spec_fn(RequestResult) -> bool {
    |r: RequestResult| r.status == code
}

/// How many results have the status `code`.
pub open spec fn status_count(results: Seq<RequestResult>, code: u16) -> nat {
    count_where(results, has_status(code))
}

/// The durations of the results, in their order.
pub open spec fn durations(results: Seq<RequestResult>) -> Seq<u64> {
    Seq::new(results.len(), |i: int| results[i].duration_ns)
}

/// The sum of the durations of the first `upto` results.
pub open spec fn duration_sum(results: Seq<RequestResult>, upto: int) -> int
    decreases upto,
{
    if upto <= 0 {
        0
    } else {
        duration_sum(results, upto - 1) + results[upto - 1].duration_ns
    }
}

/// The smallest duration among the first `upto` results; 0 for none.
pub open spec fn min_duration(results: Seq<RequestResult>, upto: int) -> u64
    decreases upto,
{
    if upto <= 0 {
        0
    } else if upto == 1 || results[upto - 1].duration_ns < min_duration(results, upto - 1) {
        results[upto - 1].duration_ns
    } else {
        min_duration(results, upto - 1)
    }
}

/// The largest duration among the first `upto` results; 0 for none.
pub open spec fn max_duration(results: Seq<RequestResult>, upto: int) -> u64
    decreases upto,
{
    if upto <= 0 {
        0
    } else if results[upto - 1].duration_ns > max_duration(results, upto - 1) {
        results[upto - 1].duration_ns
    } else {
        max_duration(results, upto - 1)
    }
}

/// The mean duration of the results, rounded down; 0 for none.
pub open spec fn mean_duration(results: Seq<RequestResult>) -> int {
    if results.len() == 0 {
        0
    } else {
        duration_sum(results, results.len() as int) / (results.len() as int)
    }
}

/// The words that the error log holds for a failed result: its error, or
/// its status where it carries no error.
pub open spec fn error_text_of(r: RequestResult) -> Seq<char> {
    match r.error {
        Some(e) => e@,
        None => http_status_text(r.status),
    }
}

/// Whether `entry` is the error log's entry for the result `r`.
pub open spec fn logs_result(entry: ErrorLogEntry, r: RequestResult) -> bool {
    &&& entry.timestamp_ns == r.timestamp_ns
    &&& entry.status == r.status
    &&& entry.error@ == error_text_of(r)
    &&& entry.error_type == r.error_type
    &&& entry.duration_ns == r.duration_ns
}

/// The places of the failed results among the first `upto` that the error
/// log holds: in order, and no more than the log has room for.
pub open spec fn logged(results: Seq<RequestResult>, upto: int) -> Seq<int>
    decreases upto,
{
    if upto <= 0 {
        seq![]
    } else if !results[upto - 1].success && logged(results, upto - 1).len() < ERROR_LOGS_MAX {
        logged(results, upto - 1).push(upto - 1)
    } else {
        logged(results, upto - 1)
    }
}

/// Whether `log` is the error log of `results`.
pub open spec fn is_error_log(log: Seq<ErrorLogEntry>, results: Seq<RequestResult>) -> bool {
    let places = logged(results, results.len() as int);
    &&& log.len() == places.len()
    &&& forall|k: int| 0 <= k < places.len() ==> logs_result(#[trigger] log[k], results[places[k]])
}

/// Whether `table` is the table of the status codes of `results`: every
/// status that occurs has one entry with the number of its results, and the
/// entries descend by that number, entries with the same number ascending by
/// code.
pub open spec fn is_status_table(table: Seq<StatusCodeCount>, results: Seq<RequestResult>) -> bool {
    &&& forall|i: int|
        0 <= i < table.len() ==> {
            &&& (#[trigger] table[i]).count == status_count(results, table[i].code)
            &&& table[i].count > 0
        }
    &&& forall|j: int|
        0 <= j < results.len() ==> exists|i: int|
            0 <= i < table.len() && table[i].code == (#[trigger] results[j]).status
    &&& forall|i: int, k: int|
        0 <= i < k < table.len() ==> {
            ||| table[i].count > table[k].count
            ||| (table[i].count == table[k].count && table[i].code < table[k].code)
        }
}

spec fn key_pair(code: u16, count: nat) -> (u64, u64) {
    ((u32::MAX - count) as u64, code as u64)
}

/// Counts the results by status code.
pub fn count_status_codes(results: &Vec<RequestResult>) -> (table: Vec<StatusCodeCount>)
    requires
        results.len() <= u32::MAX,
    ensures
        is_status_table(table@, results@),
{
    broadcast use group_hash_axioms;

    let n: usize = results.len();
    let mut seen: HashMap<u16, u32> = HashMap::with_capacity(STATUS_MAP_CAPACITY);
    let mut codes: Vec<u16> = Vec::new();
    let mut k: usize = 0;
    while k < n
        invariant
            k <= n,
            n == results.len(),
            n <= u32::MAX,
            forall|code: u16|
                seen@.contains_key(code) <==> #[trigger] status_count(
                    results@.take(k as int),
                    code,
                ) > 0,
            forall|code: u16|
                seen@.contains_key(code) ==> seen@[code] == #[trigger] status_count(
                    results@.take(k as int),
                    code,
                ),
            codes@.no_duplicates(),
            forall|code: u16| #[trigger] codes@.contains(code) <==> seen@.contains_key(code),
        decreases n - k,
    {
        let status: u16 = results[k].status;
        let ghost before = results@.take(k as int);
        let ghost after = results@.take(k + 1);
        proof {
            assert forall|code: u16|
                #[trigger] status_count(after, code) == status_count(before, code) + if code
                    == status {
                    1nat
                } else {
                    0nat
                } by {
                lemma_count_take_next(results@, has_status(code), k as int);
            }
            lemma_count_bound(before, has_status(status));
        }
        let previous: Option<u32> = match seen.get(&status) {
            Some(count) => Some(*count),
            None => None,
        };
        match previous {
            Some(count) => {
                assert(seen@.contains_key(status));
                assert(count == status_count(before, status));
                seen.insert(status, count + 1);
                assert forall|code: u16| #[trigger] codes@.contains(code) <==> seen@.contains_key(
                    code,
                ) by {}
            },
            None => {
                assert(!seen@.contains_key(status));
                assert(status_count(before, status) == 0);
                assert(!codes@.contains(status));
                seen.insert(status, 1);
                let ghost old_codes = codes@;
                codes.push(status);
                assert forall|a: int, b: int|
                    0 <= a < codes@.len() && 0 <= b < codes@.len() && a != b implies codes@[a]
                    != codes@[b] by {
                    if a < old_codes.len() {
                        assert(old_codes.contains(old_codes[a]));
                    }
                    if b < old_codes.len() {
                        assert(old_codes.contains(old_codes[b]));
                    }
                }
                assert forall|code: u16| #[trigger] codes@.contains(code) <==> seen@.contains_key(
                    code,
                ) by {
                    if code == status {
                        assert(codes@[old_codes.len() as int] == status);
                    } else if old_codes.contains(code) {
                        let at = choose|at: int| 0 <= at < old_codes.len() && old_codes[at] == code;
                        assert(codes@[at] == code);
                    } else if codes@.contains(code) {
                        let at = choose|at: int| 0 <= at < codes@.len() && codes@[at] == code;
                        assert(old_codes[at] == code);
                    }
                }
            },
        }
        k += 1;
    }
    assert(results@.take(n as int) =~= results@);
    let mut pairs: Vec<(u64, u64)> = Vec::new();
    let mut j: usize = 0;
    while j < codes.len()
        invariant
            j <= codes.len(),
            pairs@.len() == j,
            n == results.len(),
            n <= u32::MAX,
            forall|code: u16|
                seen@.contains_key(code) <==> #[trigger] status_count(results@, code) > 0,
            forall|code: u16|
                seen@.contains_key(code) ==> seen@[code] == #[trigger] status_count(results@, code),
            forall|code: u16| #[trigger] codes@.contains(code) <==> seen@.contains_key(code),
            forall|i: int|
                0 <= i < j ==> #[trigger] pairs@[i] == key_pair(
                    codes@[i],
                    status_count(results@, codes@[i]),
                ),
        decreases codes.len() - j,
    {
        let code: u16 = codes[j];
        assert(codes@.contains(code));
        proof {
            lemma_count_bound(results@, has_status(code));
        }
        let count: u32 = match seen.get(&code) {
            Some(count) => *count,
            None => 0,
        };
        pairs.push(((u32::MAX - count) as u64, code as u64));
        j += 1;
    }
    let ghost unsorted = pairs@;
    proof {
        assert forall|a: int, b: int| 0 <= a < unsorted.len() && 0 <= b < unsorted.len() && a
            != b implies unsorted[a] != unsorted[b] by {
            assert(codes@[a] != codes@[b]);
        }
        assert(unsorted.no_duplicates());
    }
    sort_pairs(&mut pairs);
    proof {
        broadcast use group_to_multiset_ensures;

        unsorted.lemma_multiset_has_no_duplicates();
        pairs@.lemma_multiset_has_no_duplicates_conv();
    }
    let mut table: Vec<StatusCodeCount> = Vec::with_capacity(pairs.len());
    let mut i: usize = 0;
    while i < pairs.len()
        invariant
            i <= pairs.len(),
            table@.len() == i,
            n == results.len(),
            n <= u32::MAX,
            pairs@.to_multiset() == unsorted.to_multiset(),
            unsorted.len() == codes@.len(),
            forall|code: u16| #[trigger] codes@.contains(code) <==> seen@.contains_key(code),
            forall|code: u16|
                seen@.contains_key(code) <==> #[trigger] status_count(results@, code) > 0,
            forall|a: int|
                0 <= a < unsorted.len() ==> #[trigger] unsorted[a] == key_pair(
                    codes@[a],
                    status_count(results@, codes@[a]),
                ),
            forall|t: int|
                0 <= t < i ==> {
                    &&& pairs@[t] == key_pair((#[trigger] table@[t]).code, table@[t].count as nat)
                    &&& table@[t].count == status_count(results@, table@[t].code)
                    &&& table@[t].count > 0
                },
        decreases pairs.len() - i,
    {
        let pair = pairs[i];
        proof {
            broadcast use group_to_multiset_ensures;

            assert(pairs@.contains(pair));
            assert(unsorted.to_multiset().count(pair) > 0);
            assert(unsorted.contains(pair));
            let at = choose|at: int| 0 <= at < unsorted.len() && unsorted[at] == pair;
            assert(pair == key_pair(codes@[at], status_count(results@, codes@[at])));
            assert(codes@.contains(codes@[at]));
            lemma_count_bound(results@, has_status(codes@[at]));
        }
        table.push(StatusCodeCount { code: pair.1 as u16, count: u32::MAX - (pair.0 as u32) });
        i += 1;
    }
    proof {
        broadcast use group_to_multiset_ensures;

        assert forall|j: int| 0 <= j < results@.len() implies exists|i: int|
            0 <= i < table@.len() && table@[i].code == (#[trigger] results@[j]).status by {
            let status = results@[j].status;
            lemma_count_positive(results@, has_status(status), j);
            assert(status_count(results@, status) > 0);
            assert(seen@.contains_key(status));
            assert(codes@.contains(status));
            let c = choose|c: int| 0 <= c < codes@.len() && codes@[c] == status;
            let pair = unsorted[c];
            assert(unsorted.contains(pair));
            assert(pairs@.to_multiset().count(pair) > 0);
            assert(pairs@.contains(pair));
            let at = choose|at: int| 0 <= at < pairs@.len() && pairs@[at] == pair;
            assert(table@[at].code == status);
        }
        assert forall|i: int, k: int| 0 <= i < k < table@.len() implies {
            ||| table@[i].count > table@[k].count
            ||| (table@[i].count == table@[k].count && table@[i].code < table@[k].code)
        } by {
            assert(pair_le(pairs@[i], pairs@[k]));
            assert(pairs@[i] != pairs@[k]);
        }
    }
    table
}

/// The words that the error log holds for a failed result.
fn error_text(result: &RequestResult) -> (s: String)
    ensures
        s@ == error_text_of(*result),
{
    match &result.error {
        Some(e) => e.clone(),
        None => http_status_message(result.status),
    }
}

fn collect_durations(results: &Vec<RequestResult>) -> (out: Vec<u64>)
    ensures
        out@ == durations(results@),
{
    let mut out: Vec<u64> = Vec::with_capacity(results.len());
    let mut i: usize = 0;
    while i < results.len()
        invariant
            i <= results.len(),
            out@.len() == i,
            forall|j: int| 0 <= j < i ==> out@[j] == results@[j].duration_ns,
        decreases results.len() - i,
    {
        out.push(results[i].duration_ns);
        i += 1;
    }
    assert(out@ =~= durations(results@));
    out
}

/// Computes the report of a run from its results, the number of requests
/// asked for, and the time the run took. Every result counts, failed ones
/// too.
pub fn calculate_stats(results: Vec<RequestResult>, num_requests: u32, total_time_ns: u64) -> (stats:
    LoadTestStats)
    requires
        results.len() <= u32::MAX,
    ensures
        stats.results == results,
        stats.total_requests == num_requests,
        stats.total_time_ns == total_time_ns,
        stats.successful_requests == count_where(results@, succeeded()),
        stats.successful_requests + stats.failed_requests == results@.len(),
        stats.avg_response_time_ns == mean_duration(results@),
        stats.min_response_time_ns == min_duration(results@, results@.len() as int),
        stats.max_response_time_ns == max_duration(results@, results@.len() as int),
        stats.requests_per_second == (Rate {
            count: results@.len() as u64,
            window_ns: total_time_ns,
        }),
        is_histogram(
            stats.histogram@,
            durations(results@),
            stats.min_response_time_ns,
            stats.max_response_time_ns,
            HISTOGRAM_BUCKETS as int,
        ),
        total_count(stats.histogram@, stats.histogram@.len() as int) == results@.len(),
        stats.percentiles == percentiles_of(sorted_ascending(durations(results@))),
        stats.percentiles.p10 <= stats.percentiles.p25 <= stats.percentiles.p50
            <= stats.percentiles.p75 <= stats.percentiles.p90 <= stats.percentiles.p95
            <= stats.percentiles.p99,
        is_status_table(stats.status_codes@, results@),
        is_throughput_series(stats.throughput_over_time@, results@, total_time_ns),
        forall|i: int, j: int|
            0 <= i <= j < stats.throughput_over_time@.len()
                ==> stats.throughput_over_time@[i].requests_completed
                <= stats.throughput_over_time@[j].requests_completed,
        exists|order: Seq<usize>|
            #[trigger] is_timestamp_order(order, results@) && is_latency_series(
                stats.latency_over_time@,
                results@,
                order,
            ),
        is_error_log(stats.error_logs@, results@),
        is_concurrency_series(stats.concurrency_over_time@, results@, total_time_ns),
        is_request_timeline(stats.request_timeline@, results@),
{
    let n: usize = results.len();
    let mut successful: u32 = 0;
    let mut failed: u32 = 0;
    let mut sum: u128 = 0;
    let mut min: u64 = 0;
    let mut max: u64 = 0;
    let mut error_logs: Vec<ErrorLogEntry> = Vec::new();
    let mut k: usize = 0;
    while k < n
        invariant
            k <= n,
            n == results.len(),
            n <= u32::MAX,
            successful == count_where(results@.take(k as int), succeeded()),
            successful + failed == k,
            sum == duration_sum(results@, k as int),
            sum <= k * 0xffff_ffff_ffff_ffff,
            min == min_duration(results@, k as int),
            max == max_duration(results@, k as int),
            error_logs@.len() == logged(results@, k as int).len(),
            error_logs@.len() <= ERROR_LOGS_MAX,
            forall|t: int|
                0 <= t < error_logs@.len() ==> logs_result(
                    #[trigger] error_logs@[t],
                    results@[logged(results@, k as int)[t]],
                ),
        decreases n - k,
    {
        let result = &results[k];
        proof {
            lemma_count_take_next(results@, succeeded(), k as int);
        }
        if result.success {
            successful += 1;
        } else {
            failed += 1;
            if error_logs.len() < ERROR_LOGS_MAX {
                error_logs.push(
                    ErrorLogEntry {
                        timestamp_ns: result.timestamp_ns,
                        status: result.status,
                        error: error_text(result),
                        error_type: result.error_type,
                        duration_ns: result.duration_ns,
                    },
                );
            }
        }
        sum = sum + result.duration_ns as u128;
        if k == 0 || result.duration_ns < min {
            min = result.duration_ns;
        }
        if result.duration_ns > max {
            max = result.duration_ns;
        }
        k += 1;
    }
    assert(results@.take(n as int) =~= results@);
    let avg: u64 = if n > 0 {
        assert(sum / (n as u128) <= 0xffff_ffff_ffff_ffff) by (nonlinear_arith)
            requires
                sum <= n * 0xffff_ffff_ffff_ffff,
                n > 0,
        ;
        (sum / n as u128) as u64
    } else {
        0
    };
    let response_times = collect_durations(&results);
    let histogram = build_histogram(&response_times, min, max, HISTOGRAM_BUCKETS);
    let sorted_times = sorted_copy(&response_times);
    let percentiles = latency_percentiles(&sorted_times);
    let status_codes = count_status_codes(&results);
    let sorted_by_timestamp = sort_by_timestamp(&results);
    let throughput_over_time = calculate_throughput_over_time(
        &results,
        total_time_ns,
        &sorted_by_timestamp,
    );
    let latency_over_time = calculate_latency_over_time(&results, &sorted_by_timestamp);
    let concurrency_over_time = calculate_concurrency_over_time(&results, total_time_ns);
    let request_timeline = calculate_request_timeline(&results);
    LoadTestStats {
        total_requests: num_requests,
        successful_requests: successful,
        failed_requests: failed,
        total_time_ns,
        avg_response_time_ns: avg,
        min_response_time_ns: min,
        max_response_time_ns: max,
        requests_per_second: Rate { count: n as u64, window_ns: total_time_ns },
        histogram,
        percentiles,
        status_codes,
        results,
        throughput_over_time,
        latency_over_time,
        error_logs,
        concurrency_over_time,
        request_timeline,
    }
}

} // verus!
