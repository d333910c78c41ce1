//! The time series of a report: throughput, latency, concurrency and the
//! request timeline.

use vstd::prelude::*;
use vstd::seq_lib::*;
use crate::counting::{count_where, lemma_count_bound, lemma_count_difference, lemma_count_monotone, lemma_count_pointwise, lemma_count_rearranged, lemma_count_split, lemma_map_rearranged};
use crate::outcome::RequestResult;
use crate::report::{ConcurrencyDataPoint, LatencyDataPoint, Rate, RequestTimelinePoint, ThroughputDataPoint};
use crate::sorting::{ascending, pair_le, sort_pairs, sorted_ascending, sorted_copy};

verus! {

/// The throughput series has at most this many intervals.
pub const THROUGHPUT_BUCKETS: usize = 30;

/// The throughput series has at least this many intervals.
pub const THROUGHPUT_MIN_BUCKETS: usize = 5;

/// About how many points the latency series has.
pub const LATENCY_SAMPLE_TARGET: usize = 400;

/// The concurrency series has at most this many samples.
pub const CONCURRENCY_SAMPLE_TARGET: usize = 200;

/// The concurrency series has at least this many samples.
pub const CONCURRENCY_MIN_SAMPLES: usize = 20;

/// About how many points the request timeline has.
pub const TIMELINE_SAMPLE_TARGET: usize = 500;

/// A tenth of a second.
pub const TENTH_OF_SECOND_NS: u64 = 100_000_000;

/// Into how many slots a run of `total_ns` is divided: one for each tenth
/// of a second, but not fewer than `least` and not more than `most`.
pub open spec fn slots(total_ns: u64, least: int, most: int) -> int {
    let tenths = total_ns as int / TENTH_OF_SECOND_NS as int;
    if tenths < least {
        least
    } else if tenths > most {
        most
    } else {
        tenths
    }
}

/// The product of two integers, which fits 128 bits.
fn scaled(value: u64, by: u64) -> (r: u128)
    ensures
        r == value * by,
{
    assert(value * by <= 0xffff_ffff_ffff_ffff * 0xffff_ffff_ffff_ffff) by (nonlinear_arith)
        requires
            value <= 0xffff_ffff_ffff_ffff,
            by <= 0xffff_ffff_ffff_ffff,
    ;
    value as u128 * by as u128
}

fn slot_count(total_ns: u64, least: usize, most: usize) -> (r: usize)
    requires
        0 < least <= most <= 1000,
    ensures
        r == slots(total_ns, least as int, most as int),
        least <= r <= most,
{
    let tenths: u64 = total_ns / TENTH_OF_SECOND_NS;
    if tenths < least as u64 {
        least
    } else if tenths > most as u64 {
        most
    } else {
        tenths as usize
    }
}

/// The places of `n` results, in their order.
pub open spec fn places(n: nat) -> Seq<usize> {
    Seq::new(n, |i: int| i as usize)
}

/// Whether `order` lists the places of `results` by completion time: it
/// rearranges the places, and the completion times ascend along it. Results
/// that completed at the same time may stand in any order.
pub open spec fn is_completion_order(order: Seq<usize>, results: Seq<RequestResult>) -> bool {
    &&& order.len() == results.len()
    &&& forall|k: int| 0 <= k < order.len() ==> order[k] < results.len()
    &&& order.to_multiset() == places(results.len()).to_multiset()
    &&& forall|a: int, b: int|
        0 <= a <= b < order.len() ==> results[order[a] as int].timestamp_ns
            <= results[order[b] as int].timestamp_ns
}

/// Whether `order` lists the places of `results` by completion time, and
/// results that completed at the same time by their place. There is one such
/// order.
pub open spec fn is_timestamp_order(order: Seq<usize>, results: Seq<RequestResult>) -> bool {
    &&& is_completion_order(order, results)
    &&& forall|a: int, b: int|
        0 <= a < b < order.len() && results[order[a] as int].timestamp_ns
            == results[order[b] as int].timestamp_ns ==> order[a] < order[b]
}

spec fn stamped(results: Seq<RequestResult>) -> Seq<(u64, u64)> {
    Seq::new(results.len(), |i: int| (results[i].timestamp_ns, i as u64))
}

spec fn place_of() -> spec_fn((u64, u64)) -> usize {
    |pair: (u64, u64)| pair.1 as usize
}

/// Lists the places of the results by completion time; results that
/// completed at the same time keep their order.
pub fn sort_by_timestamp(results: &Vec<RequestResult>) -> (order: Vec<usize>)
    ensures
        is_timestamp_order(order@, results@),
{
    let n: usize = results.len();
    let mut pairs: Vec<(u64, u64)> = Vec::with_capacity(n);
    let mut i: usize = 0;
    while i < n
        invariant
            i <= n,
            n == results.len(),
            pairs@.len() == i,
            forall|j: int| 0 <= j < i ==> pairs@[j] == (results@[j].timestamp_ns, j as u64),
        decreases n - i,
    {
        pairs.push((results[i].timestamp_ns, i as u64));
        i += 1;
    }
    assert(pairs@ =~= stamped(results@));
    sort_pairs(&mut pairs);
    proof {
        to_multiset_len(pairs@);
        to_multiset_len(stamped(results@));
    }
    let mut order: Vec<usize> = Vec::with_capacity(n);
    let mut k: usize = 0;
    while k < n
        invariant
            k <= n,
            n == results.len(),
            pairs@.len() == n,
            pairs@.to_multiset() == stamped(results@).to_multiset(),
            order@.len() == k,
            forall|j: int|
                0 <= j < k ==> {
                    &&& (#[trigger] order@[j]) < n
                    &&& pairs@[j] == (results@[order@[j] as int].timestamp_ns, order@[j] as u64)
                },
        decreases n - k,
    {
        let pair = pairs[k];
        proof {
            broadcast use group_to_multiset_ensures;

            assert(pairs@.contains(pair));
            assert(stamped(results@).to_multiset().count(pair) > 0);
            assert(stamped(results@).contains(pair));
            let at = choose|at: int| 0 <= at < stamped(results@).len() && stamped(results@)[at] == pair;
            assert(pair == (results@[at].timestamp_ns, at as u64));
        }
        order.push(pair.1 as usize);
        k += 1;
    }
    proof {
        lemma_map_rearranged(pairs@, stamped(results@), place_of());
        assert(order@ =~= pairs@.map_values(place_of()));
        assert(places(results@.len()) =~= stamped(results@).map_values(place_of()));
        assert forall|a: int, b: int| 0 <= a <= b < order@.len() implies results@[order@[a] as int].timestamp_ns
            <= results@[order@[b] as int].timestamp_ns by {
            if a < b {
                assert(pair_le(pairs@[a], pairs@[b]));
            }
        }
        assert forall|a: int, b: int|
            0 <= a < b < order@.len() && results@[order@[a] as int].timestamp_ns
                == results@[order@[b] as int].timestamp_ns implies order@[a] < order@[b] by {
            assert(pair_le(pairs@[a], pairs@[b]));
            broadcast use group_to_multiset_ensures;

            stamped(results@).lemma_multiset_has_no_duplicates();
            pairs@.lemma_multiset_has_no_duplicates_conv();
            assert(pairs@[a] != pairs@[b]);
        }
    }
    order
}

/// Where, along an order by completion time, exactly the first `upto`
/// results meet a condition, `upto` results meet it.
proof fn lemma_count_by_order(
    results: Seq<RequestResult>,
    order: Seq<usize>,
    p: spec_fn(RequestResult) -> bool,
    upto: int,
)
    requires
        results.len() <= usize::MAX,
        is_completion_order(order, results),
        0 <= upto <= order.len(),
        forall|k: int| 0 <= k < upto ==> p(results[#[trigger] order[k] as int]),
        forall|k: int| upto <= k < order.len() ==> !p(results[#[trigger] order[k] as int]),
    ensures
        count_where(results, p) == upto,
{
    let q = |place: usize| p(results[place as int]);
    let there = places(results.len());
    assert forall|i: int| 0 <= i < results.len() implies p(#[trigger] results[i]) == q(there[i]) by {}
    lemma_count_pointwise(results, p, there, q);
    assert forall|k: int| 0 <= k < upto implies q(#[trigger] order[k]) by {
        assert(p(results[order[k] as int]));
    }
    assert forall|k: int| upto <= k < order.len() implies !q(#[trigger] order[k]) by {
        assert(!p(results[order[k] as int]));
    }
    lemma_count_split(order, q, upto);
    lemma_count_rearranged(order, there, q);
}

/// The results that completed before `k` of `buckets` equal parts of the run
/// had passed.
pub open spec fn completes_before(buckets: int, total_ns: int, k: int) -> spec_fn(
    RequestResult,
) -> bool {
    |r: RequestResult| r.timestamp_ns * buckets < k * total_ns
}

/// How many results completed before `k` of `buckets` equal parts of the run
/// had passed.
pub open spec fn completed_before(
    results: Seq<RequestResult>,
    buckets: int,
    total_ns: int,
    k: int,
) -> nat {
    count_where(results, completes_before(buckets, total_ns, k))
}

/// The point of the throughput series for interval `i` of `buckets`: the
/// end of the interval, rounded down; the results completed before that end;
/// and, as a rate over the whole run, the results completed within the
/// interval times the number of intervals.
pub open spec fn throughput_point(
    results: Seq<RequestResult>,
    total_ns: u64,
    buckets: int,
    i: int,
) -> ThroughputDataPoint {
    ThroughputDataPoint {
        time_ns: (((i + 1) * total_ns) / buckets) as u64,
        requests_completed: completed_before(results, buckets, total_ns as int, i + 1) as u32,
        rps: Rate {
            count: ((completed_before(results, buckets, total_ns as int, i + 1) - completed_before(
                results,
                buckets,
                total_ns as int,
                i,
            )) * buckets) as u64,
            window_ns: total_ns,
        },
    }
}

/// Whether `series` is the throughput series of `results` over a run of
/// `total_ns`: empty for no results or no time; else one point for each
/// interval.
pub open spec fn is_throughput_series(
    series: Seq<ThroughputDataPoint>,
    results: Seq<RequestResult>,
    total_ns: u64,
) -> bool {
    if results.len() == 0 || total_ns == 0 {
        series.len() == 0
    } else {
        let buckets = slots(total_ns, THROUGHPUT_MIN_BUCKETS as int, THROUGHPUT_BUCKETS as int);
        &&& series.len() == buckets
        &&& forall|i: int|
            0 <= i < buckets ==> #[trigger] series[i] == throughput_point(
                results,
                total_ns,
                buckets,
                i,
            )
    }
}

/// Along a throughput series the number of completed requests never
/// decreases, and never exceeds the number of results.
pub proof fn lemma_throughput_never_decreases(
    series: Seq<ThroughputDataPoint>,
    results: Seq<RequestResult>,
    total_ns: u64,
    i: int,
    j: int,
)
    requires
        results.len() <= u32::MAX,
        is_throughput_series(series, results, total_ns),
        0 <= i <= j < series.len(),
    ensures
        series[i].requests_completed <= series[j].requests_completed <= results.len(),
{
    let buckets = slots(total_ns, THROUGHPUT_MIN_BUCKETS as int, THROUGHPUT_BUCKETS as int);
    let total = total_ns as int;
    let sooner = completes_before(buckets, total, i + 1);
    let later = completes_before(buckets, total, j + 1);
    assert((i + 1) * total <= (j + 1) * total) by (nonlinear_arith)
        requires
            i <= j,
            total >= 0,
    ;
    assert forall|k: int| 0 <= k < results.len() && sooner(#[trigger] results[k]) implies later(
        results[k],
    ) by {}
    lemma_count_monotone(results, sooner, later);
    lemma_count_bound(results, sooner);
    lemma_count_bound(results, later);
    assert(series[i] == throughput_point(results, total_ns, buckets, i));
    assert(series[j] == throughput_point(results, total_ns, buckets, j));
}

/// In a run of at least five nanoseconds the intervals of a throughput
/// series end at ascending times, after the start and not after the end of
/// the run. In a shorter run the rounded ends can coincide.
pub proof fn lemma_throughput_intervals_ascend(
    series: Seq<ThroughputDataPoint>,
    results: Seq<RequestResult>,
    total_ns: u64,
    i: int,
    j: int,
)
    requires
        is_throughput_series(series, results, total_ns),
        total_ns >= THROUGHPUT_MIN_BUCKETS,
        0 <= i <= j < series.len(),
    ensures
        0 < series[i].time_ns <= series[j].time_ns <= total_ns,
        i < j ==> series[i].time_ns < series[j].time_ns,
        j == series.len() - 1 ==> series[j].time_ns == total_ns,
{
    let buckets = slots(total_ns, THROUGHPUT_MIN_BUCKETS as int, THROUGHPUT_BUCKETS as int);
    let total = total_ns as int;
    assert(series[i] == throughput_point(results, total_ns, buckets, i));
    assert(series[j] == throughput_point(results, total_ns, buckets, j));
    assert(buckets <= total);
    let xi = (i + 1) * total;
    let xj = (j + 1) * total;
    assert(buckets <= xi <= xj <= buckets * total && (i < j ==> xi + buckets <= xj) && (j
        == buckets - 1 ==> xj == buckets * total)) by (nonlinear_arith)
        requires
            0 <= i <= j < buckets,
            buckets <= total,
            xi == (i + 1) * total,
            xj == (j + 1) * total,
    ;
    assert(1 <= xi / buckets <= xj / buckets <= total && (i < j ==> xi / buckets < xj / buckets)
        && (j == buckets - 1 ==> xj / buckets == total)) by (nonlinear_arith)
        requires
            buckets > 0,
            buckets <= xi <= xj <= buckets * total,
            i < j ==> xi + buckets <= xj,
            j == buckets - 1 ==> xj == buckets * total,
    ;
}

/// Computes the throughput series in one sweep over the results in the
/// order of their completion. The number of completed requests never
/// decreases along the series.
pub fn calculate_throughput_over_time(
    results: &Vec<RequestResult>,
    total_time_ns: u64,
    sorted_by_timestamp: &Vec<usize>,
) -> (series: Vec<ThroughputDataPoint>)
    requires
        results.len() <= u32::MAX,
        is_completion_order(sorted_by_timestamp@, results@),
    ensures
        is_throughput_series(series@, results@, total_time_ns),
        forall|i: int, j: int|
            0 <= i <= j < series@.len() ==> series@[i].requests_completed
                <= series@[j].requests_completed,
{
    let mut series: Vec<ThroughputDataPoint> = Vec::new();
    if results.len() == 0 || total_time_ns == 0 {
        return series;
    }
    let n: usize = results.len();
    let buckets: usize = slot_count(total_time_ns, THROUGHPUT_MIN_BUCKETS, THROUGHPUT_BUCKETS);
    let ghost b = buckets as int;
    let ghost total = total_time_ns as int;
    let mut at: usize = 0;
    let mut i: usize = 0;
    proof {
        assert forall|k: int| 0 <= k < n implies !completes_before(b, total, 0)(
            results@[#[trigger] sorted_by_timestamp@[k] as int],
        ) by {
            let t = results@[sorted_by_timestamp@[k] as int].timestamp_ns;
            assert(t * b >= 0) by (nonlinear_arith)
                requires
                    t >= 0,
                    b >= 0,
            ;
        }
        lemma_count_by_order(results@, sorted_by_timestamp@, completes_before(b, total, 0), 0);
    }
    while i < buckets
        invariant
            i <= buckets,
            at <= n,
            n == results.len(),
            n <= u32::MAX,
            b == buckets,
            total == total_time_ns,
            total > 0,
            5 <= buckets <= 30,
            is_completion_order(sorted_by_timestamp@, results@),
            series@.len() == i,
            at == completed_before(results@, b, total, i as int),
            forall|k: int|
                0 <= k < at ==> completes_before(b, total, i as int)(
                    results@[#[trigger] sorted_by_timestamp@[k] as int],
                ),
            forall|j: int|
                0 <= j < i ==> #[trigger] series@[j] == throughput_point(
                    results@,
                    total_time_ns,
                    b,
                    j,
                ),
        decreases buckets - i,
    {
        let before: usize = at;
        let end: u128 = scaled(i as u64 + 1, total_time_ns);
        proof {
            assert(i * total <= (i + 1) * total) by (nonlinear_arith)
                requires
                    total > 0,
                    i >= 0,
            ;
            assert((i + 1) * total <= 31 * total) by (nonlinear_arith)
                requires
                    total > 0,
                    i < 30,
            ;
        }
        while at < n && scaled(results[sorted_by_timestamp[at]].timestamp_ns, buckets as u64) < end
            invariant
                before <= at <= n,
                n == results.len(),
                b == buckets,
                5 <= buckets <= 30,
                total == total_time_ns,
                end == (i + 1) * total,
                is_completion_order(sorted_by_timestamp@, results@),
                forall|k: int|
                    0 <= k < at ==> completes_before(b, total, i + 1)(
                        results@[#[trigger] sorted_by_timestamp@[k] as int],
                    ),
            decreases n - at,
        {
            at += 1;
        }
        proof {
            assert forall|k: int| at <= k < n implies !completes_before(b, total, i + 1)(
                results@[#[trigger] sorted_by_timestamp@[k] as int],
            ) by {
                let t0 = results@[sorted_by_timestamp@[at as int] as int].timestamp_ns;
                let t1 = results@[sorted_by_timestamp@[k] as int].timestamp_ns;
                assert(t0 * b <= t1 * b) by (nonlinear_arith)
                    requires
                        t0 <= t1,
                        b > 0,
                ;
            }
            lemma_count_by_order(
                results@,
                sorted_by_timestamp@,
                completes_before(b, total, i + 1),
                at as int,
            );
            assert(((i + 1) * total) / b <= total) by (nonlinear_arith)
                requires
                    0 <= i < b,
                    total > 0,
                    b > 0,
            ;
            assert(((i + 1) * total) / b >= 0) by (nonlinear_arith)
                requires
                    0 <= i < b,
                    total > 0,
                    b > 0,
            ;
        }
        let time_ns: u64 = (end / buckets as u128) as u64;
        let in_bucket: u64 = (at - before) as u64;
        assert(in_bucket * buckets <= 0xffff_ffff * 30) by (nonlinear_arith)
            requires
                in_bucket <= 0xffff_ffff,
                buckets <= 30,
        ;
        series.push(
            ThroughputDataPoint {
                time_ns,
                requests_completed: at as u32,
                rps: Rate { count: in_bucket * buckets as u64, window_ns: total_time_ns },
            },
        );
        i += 1;
    }
    proof {
        assert forall|i: int, j: int| 0 <= i <= j < series@.len() implies series@[i].requests_completed
            <= series@[j].requests_completed by {
            lemma_throughput_never_decreases(series@, results@, total_time_ns, i, j);
        }
    }
    series
}

/// Every how many places a series takes a point, to end up with about
/// `target` points of `n`.
pub open spec fn stride(n: int, target: int) -> int {
    if n / target > 1 {
        n / target
    } else {
        1
    }
}

/// Whether a series of `n` places takes the one at `i`: every `stride`-th
/// place is taken, and the last.
pub open spec fn is_sampled(i: int, n: int, stride: int) -> bool {
    i % stride == 0 || i == n - 1
}

/// The places below `upto` that a series of `n` places takes, ascending.
pub open spec fn sampled(n: int, stride: int, upto: int) -> Seq<int>
    decreases upto,
{
    if upto <= 0 {
        seq![]
    } else if is_sampled(upto - 1, n, stride) {
        sampled(n, stride, upto - 1).push(upto - 1)
    } else {
        sampled(n, stride, upto - 1)
    }
}

/// The point of the latency series for place `i` in the order of
/// completion: the place counted from 1, and the latency and completion time
/// of the result there.
pub open spec fn latency_point(results: Seq<RequestResult>, order: Seq<usize>, i: int) -> LatencyDataPoint {
    LatencyDataPoint {
        request_num: (i + 1) as u32,
        latency_ns: results[order[i] as int].duration_ns,
        timestamp_ns: results[order[i] as int].timestamp_ns,
    }
}

/// Whether `series` is the latency series of `results` listed in `order`:
/// empty for no results; else one point for each place taken.
pub open spec fn is_latency_series(
    series: Seq<LatencyDataPoint>,
    results: Seq<RequestResult>,
    order: Seq<usize>,
) -> bool {
    if results.len() == 0 {
        series.len() == 0
    } else {
        let n = order.len() as int;
        let picks = sampled(n, stride(n, LATENCY_SAMPLE_TARGET as int), n);
        &&& series.len() == picks.len()
        &&& forall|k: int|
            0 <= k < picks.len() ==> #[trigger] series[k] == latency_point(results, order, picks[k])
    }
}

fn stride_for(n: usize, target: usize) -> (r: usize)
    requires
        target > 0,
    ensures
        r == stride(n as int, target as int),
        r >= 1,
{
    let raw: usize = n / target;
    if raw > 1 {
        raw
    } else {
        1
    }
}

/// Computes the latency series from the results and their places in the
/// order of completion.
pub fn calculate_latency_over_time(results: &Vec<RequestResult>, sorted_by_timestamp: &Vec<usize>) -> (series:
    Vec<LatencyDataPoint>)
    requires
        sorted_by_timestamp.len() <= u32::MAX,
        forall|k: int|
            0 <= k < sorted_by_timestamp@.len() ==> sorted_by_timestamp@[k] < results@.len(),
    ensures
        is_latency_series(series@, results@, sorted_by_timestamp@),
{
    let mut series: Vec<LatencyDataPoint> = Vec::new();
    if results.len() == 0 {
        return series;
    }
    let n: usize = sorted_by_timestamp.len();
    let step: usize = stride_for(n, LATENCY_SAMPLE_TARGET);
    let mut i: usize = 0;
    while i < n
        invariant
            i <= n,
            n == sorted_by_timestamp.len(),
            n <= u32::MAX,
            step == stride(n as int, LATENCY_SAMPLE_TARGET as int),
            step >= 1,
            forall|k: int|
                0 <= k < sorted_by_timestamp@.len() ==> sorted_by_timestamp@[k] < results@.len(),
            series@.len() == sampled(n as int, step as int, i as int).len(),
            forall|k: int|
                0 <= k < series@.len() ==> #[trigger] series@[k] == latency_point(
                    results@,
                    sorted_by_timestamp@,
                    sampled(n as int, step as int, i as int)[k],
                ),
        decreases n - i,
    {
        if i % step == 0 || i == n - 1 {
            let result = &results[sorted_by_timestamp[i]];
            series.push(
                LatencyDataPoint {
                    request_num: i as u32 + 1,
                    latency_ns: result.duration_ns,
                    timestamp_ns: result.timestamp_ns,
                },
            );
        }
        i += 1;
    }
    series
}

/// The results that had started at the middle of sample `i` of `samples`.
pub open spec fn started_by(samples: int, total_ns: int, i: int) -> spec_fn(RequestResult) -> bool {
    |r: RequestResult| r.spec_start_ns() * (2 * samples) <= (2 * i + 1) * total_ns
}

/// The results that had completed at the middle of sample `i` of `samples`.
pub open spec fn finished_by(samples: int, total_ns: int, i: int) -> spec_fn(RequestResult) -> bool {
    |r: RequestResult| r.timestamp_ns * (2 * samples) <= (2 * i + 1) * total_ns
}

/// The results that were in flight at the middle of sample `i` of
/// `samples`: started, and not completed.
pub open spec fn in_flight(samples: int, total_ns: int, i: int) -> spec_fn(RequestResult) -> bool {
    |r: RequestResult|
        started_by(samples, total_ns, i)(r) && !finished_by(samples, total_ns, i)(r)
}

/// The point of the concurrency series for sample `i` of `samples`: the
/// middle of the sample, rounded down, and the number of results in flight
/// then.
pub open spec fn concurrency_point(
    results: Seq<RequestResult>,
    total_ns: u64,
    samples: int,
    i: int,
) -> ConcurrencyDataPoint {
    ConcurrencyDataPoint {
        time_ns: (((2 * i + 1) * total_ns) / (2 * samples)) as u64,
        concurrent_requests: count_where(results, in_flight(samples, total_ns as int, i)) as u32,
    }
}

/// Whether `series` is the concurrency series of `results` over a run of
/// `total_ns`: empty for no results or no time; else one point for each
/// sample.
pub open spec fn is_concurrency_series(
    series: Seq<ConcurrencyDataPoint>,
    results: Seq<RequestResult>,
    total_ns: u64,
) -> bool {
    if results.len() == 0 || total_ns == 0 {
        series.len() == 0
    } else {
        let samples = slots(
            total_ns,
            CONCURRENCY_MIN_SAMPLES as int,
            CONCURRENCY_SAMPLE_TARGET as int,
        );
        &&& series.len() == samples
        &&& forall|i: int|
            0 <= i < samples ==> #[trigger] series[i] == concurrency_point(
                results,
                total_ns,
                samples,
                i,
            )
    }
}

/// In a run of at least forty nanoseconds the samples of a concurrency
/// series stand at ascending times, after the start and before the end of
/// the run, and none counts more requests than there are results. In a
/// shorter run the rounded times can be 0 or coincide.
pub proof fn lemma_concurrency_samples_lie_within_the_run(
    series: Seq<ConcurrencyDataPoint>,
    results: Seq<RequestResult>,
    total_ns: u64,
    i: int,
    j: int,
)
    requires
        results.len() <= u32::MAX,
        is_concurrency_series(series, results, total_ns),
        total_ns >= 2 * CONCURRENCY_MIN_SAMPLES,
        0 <= i <= j < series.len(),
    ensures
        0 < series[i].time_ns <= series[j].time_ns < total_ns,
        i < j ==> series[i].time_ns < series[j].time_ns,
        series[i].concurrent_requests <= results.len(),
{
    let samples = slots(total_ns, CONCURRENCY_MIN_SAMPLES as int, CONCURRENCY_SAMPLE_TARGET as int);
    let total = total_ns as int;
    assert(series[i] == concurrency_point(results, total_ns, samples, i));
    assert(series[j] == concurrency_point(results, total_ns, samples, j));
    lemma_count_bound(results, in_flight(samples, total, i));
    let m = 2 * samples;
    assert(m <= total);
    let xi = (2 * i + 1) * total;
    let xj = (2 * j + 1) * total;
    assert(m <= xi <= xj < m * total && (i < j ==> xi + m <= xj)) by (nonlinear_arith)
        requires
            0 <= i <= j,
            2 * j + 1 < m,
            0 < m <= total,
            xi == (2 * i + 1) * total,
            xj == (2 * j + 1) * total,
    ;
    assert(1 <= xi / m <= xj / m < total && (i < j ==> xi / m < xj / m)) by (nonlinear_arith)
        requires
            m > 0,
            m <= xi <= xj < m * total,
            i < j ==> xi + m <= xj,
    ;
}

/// The start times of the results, in their order.
pub open spec fn start_times(results: Seq<RequestResult>) -> Seq<u64> {
    Seq::new(results.len(), |i: int| results[i].spec_start_ns())
}

/// The completion times of the results, in their order.
pub open spec fn end_times(results: Seq<RequestResult>) -> Seq<u64> {
    Seq::new(results.len(), |i: int| results[i].timestamp_ns)
}

fn collect_start_times(results: &Vec<RequestResult>) -> (out: Vec<u64>)
    ensures
        out@ == start_times(results@),
{
    let mut out: Vec<u64> = Vec::with_capacity(results.len());
    let mut i: usize = 0;
    while i < results.len()
        invariant
            i <= results.len(),
            out@.len() == i,
            forall|j: int| 0 <= j < i ==> out@[j] == results@[j].spec_start_ns(),
        decreases results.len() - i,
    {
        out.push(results[i].start_ns());
        i += 1;
    }
    assert(out@ =~= start_times(results@));
    out
}

fn collect_end_times(results: &Vec<RequestResult>) -> (out: Vec<u64>)
    ensures
        out@ == end_times(results@),
{
    let mut out: Vec<u64> = Vec::with_capacity(results.len());
    let mut i: usize = 0;
    while i < results.len()
        invariant
            i <= results.len(),
            out@.len() == i,
            forall|j: int| 0 <= j < i ==> out@[j] == results@[j].timestamp_ns,
        decreases results.len() - i,
    {
        out.push(results[i].timestamp_ns);
        i += 1;
    }
    assert(out@ =~= end_times(results@));
    out
}

/// Where exactly the first `upto` of the sorted times are within a limit,
/// `upto` results meet the condition that stands for the limit.
proof fn lemma_count_by_times(
    results: Seq<RequestResult>,
    times: Seq<u64>,
    sorted: Seq<u64>,
    within: spec_fn(u64) -> bool,
    p: spec_fn(RequestResult) -> bool,
    upto: int,
)
    requires
        times.len() == results.len(),
        sorted.to_multiset() == times.to_multiset(),
        forall|i: int| 0 <= i < results.len() ==> p(#[trigger] results[i]) == within(times[i]),
        0 <= upto <= sorted.len(),
        forall|k: int| 0 <= k < upto ==> within(#[trigger] sorted[k]),
        forall|k: int| upto <= k < sorted.len() ==> !within(#[trigger] sorted[k]),
    ensures
        count_where(results, p) == upto,
{
    lemma_count_pointwise(results, p, times, within);
    lemma_count_split(sorted, within, upto);
    lemma_count_rearranged(sorted, times, within);
}

spec fn within_limit(scale: int, limit: int) -> spec_fn(u64) -> bool {
    |t: u64| t * scale <= limit
}

/// Moves `at` behind the sorted times that are within the limit.
fn advance(sorted: &Vec<u64>, at: usize, scale: u64, limit: u128) -> (r: usize)
    requires
        ascending(sorted@),
        at <= sorted.len(),
        scale > 0,
        forall|k: int| 0 <= k < at ==> within_limit(scale as int, limit as int)(#[trigger] sorted@[k]),
    ensures
        at <= r <= sorted.len(),
        forall|k: int| 0 <= k < r ==> within_limit(scale as int, limit as int)(#[trigger] sorted@[k]),
        forall|k: int|
            r <= k < sorted.len() ==> !within_limit(scale as int, limit as int)(
                #[trigger] sorted@[k],
            ),
{
    let mut r: usize = at;
    while r < sorted.len() && scaled(sorted[r], scale) <= limit
        invariant
            at <= r <= sorted.len(),
            forall|k: int|
                0 <= k < r ==> within_limit(scale as int, limit as int)(#[trigger] sorted@[k]),
        decreases sorted.len() - r,
    {
        r += 1;
    }
    proof {
        assert forall|k: int| r <= k < sorted.len() implies !within_limit(
            scale as int,
            limit as int,
        )(#[trigger] sorted@[k]) by {
            let t0 = sorted@[r as int];
            let t1 = sorted@[k];
            assert(t0 * scale <= t1 * scale) by (nonlinear_arith)
                requires
                    t0 <= t1,
                    scale > 0,
            ;
        }
    }
    r
}

/// Computes the concurrency series: at the middle of each sample, how many
/// requests had started and not yet completed.
pub fn calculate_concurrency_over_time(results: &Vec<RequestResult>, total_time_ns: u64) -> (series:
    Vec<ConcurrencyDataPoint>)
    requires
        results.len() <= u32::MAX,
    ensures
        is_concurrency_series(series@, results@, total_time_ns),
{
    let mut series: Vec<ConcurrencyDataPoint> = Vec::new();
    if results.len() == 0 || total_time_ns == 0 {
        return series;
    }
    let n: usize = results.len();
    let start_list = collect_start_times(results);
    let end_list = collect_end_times(results);
    let starts = sorted_copy(&start_list);
    let ends = sorted_copy(&end_list);
    let samples: usize = slot_count(total_time_ns, CONCURRENCY_MIN_SAMPLES, CONCURRENCY_SAMPLE_TARGET);
    let scale: u64 = 2 * samples as u64;
    let ghost s = samples as int;
    let ghost total = total_time_ns as int;
    let mut started: usize = 0;
    let mut finished: usize = 0;
    let mut i: usize = 0;
    while i < samples
        invariant
            i <= samples,
            20 <= samples <= 200,
            s == samples,
            scale == 2 * s,
            total == total_time_ns,
            total > 0,
            n == results.len(),
            n <= u32::MAX,
            start_list@ == start_times(results@),
            end_list@ == end_times(results@),
            starts@.len() == n,
            ends@.len() == n,
            ascending(starts@),
            ascending(ends@),
            starts@.to_multiset() == start_list@.to_multiset(),
            ends@.to_multiset() == end_list@.to_multiset(),
            started <= n,
            finished <= n,
            forall|k: int|
                0 <= k < started ==> within_limit(scale as int, (2 * i + 1) * total)(
                    #[trigger] starts@[k],
                ),
            forall|k: int|
                0 <= k < finished ==> within_limit(scale as int, (2 * i + 1) * total)(
                    #[trigger] ends@[k],
                ),
            series@.len() == i,
            forall|j: int|
                0 <= j < i ==> #[trigger] series@[j] == concurrency_point(
                    results@,
                    total_time_ns,
                    s,
                    j,
                ),
        decreases samples - i,
    {
        let limit: u128 = scaled(2 * i as u64 + 1, total_time_ns);
        started = advance(&starts, started, scale, limit);
        finished = advance(&ends, finished, scale, limit);
        proof {
            let lim = (2 * i + 1) * total;
            let within = within_limit(scale as int, lim);
            let p_started = started_by(s, total, i as int);
            let p_finished = finished_by(s, total, i as int);
            let p_flight = in_flight(s, total, i as int);
            assert forall|j: int| 0 <= j < results@.len() implies p_started(
                #[trigger] results@[j],
            ) == within(start_list@[j]) by {}
            assert forall|j: int| 0 <= j < results@.len() implies p_finished(
                #[trigger] results@[j],
            ) == within(end_list@[j]) by {}
            lemma_count_by_times(results@, start_list@, starts@, within, p_started, started as int);
            lemma_count_by_times(results@, end_list@, ends@, within, p_finished, finished as int);
            assert forall|j: int| 0 <= j < results@.len() && p_finished(
                #[trigger] results@[j],
            ) implies p_started(results@[j]) by {
                let r = results@[j];
                let a = r.spec_start_ns();
                let z = r.timestamp_ns;
                assert(a * (2 * s) <= z * (2 * s)) by (nonlinear_arith)
                    requires
                        a <= z,
                        s > 0,
                ;
            }
            assert forall|j: int| 0 <= j < results@.len() implies p_flight(
                #[trigger] results@[j],
            ) == (p_started(results@[j]) && !p_finished(results@[j])) by {}
            lemma_count_difference(results@, p_finished, p_started, p_flight);
            lemma_count_bound(results@, p_flight);
            assert(lim / (2 * s) <= total) by (nonlinear_arith)
                requires
                    lim == (2 * i + 1) * total,
                    0 <= i < s,
                    total > 0,
            ;
            assert(lim / (2 * s) >= 0) by (nonlinear_arith)
                requires
                    lim == (2 * i + 1) * total,
                    0 <= i < s,
                    total > 0,
            ;
            assert((2 * i + 1) * total <= (2 * (i + 1) + 1) * total) by (nonlinear_arith)
                requires
                    total > 0,
                    i >= 0,
            ;
        }
        let time_ns: u64 = (limit / scale as u128) as u64;
        series.push(
            ConcurrencyDataPoint { time_ns, concurrent_requests: (started - finished) as u32 },
        );
        i += 1;
    }
    series
}

/// The point of the request timeline for place `i` in the order of
/// starting: the start time there, and the place counted from 1.
pub open spec fn timeline_point(sorted_starts: Seq<u64>, i: int) -> RequestTimelinePoint {
    RequestTimelinePoint { time_ns: sorted_starts[i], request_index: (i + 1) as u32 }
}

/// Whether `timeline` is the request timeline of `results`: empty for no
/// results; else one point for each place taken of the sorted start times.
pub open spec fn is_request_timeline(
    timeline: Seq<RequestTimelinePoint>,
    results: Seq<RequestResult>,
) -> bool {
    if results.len() == 0 {
        timeline.len() == 0
    } else {
        let n = results.len() as int;
        let sorted_starts = sorted_ascending(start_times(results));
        let picks = sampled(n, stride(n, TIMELINE_SAMPLE_TARGET as int), n);
        &&& timeline.len() == picks.len()
        &&& forall|k: int|
            0 <= k < picks.len() ==> #[trigger] timeline[k] == timeline_point(
                sorted_starts,
                picks[k],
            )
    }
}

/// Computes the request timeline: the start times in ascending order, a
/// point for every place taken.
pub fn calculate_request_timeline(results: &Vec<RequestResult>) -> (timeline: Vec<
    RequestTimelinePoint,
>)
    requires
        results.len() <= u32::MAX,
    ensures
        is_request_timeline(timeline@, results@),
        forall|i: int, j: int|
            0 <= i <= j < timeline@.len() ==> timeline@[i].time_ns <= timeline@[j].time_ns,
{
    let mut timeline: Vec<RequestTimelinePoint> = Vec::new();
    if results.len() == 0 {
        return timeline;
    }
    let start_list = collect_start_times(results);
    let starts = sorted_copy(&start_list);
    let n: usize = starts.len();
    let step: usize = stride_for(n, TIMELINE_SAMPLE_TARGET);
    let mut i: usize = 0;
    while i < n
        invariant
            i <= n,
            n == starts@.len(),
            n == results@.len(),
            n <= u32::MAX,
            ascending(starts@),
            starts@ == sorted_ascending(start_times(results@)),
            step == stride(n as int, TIMELINE_SAMPLE_TARGET as int),
            step >= 1,
            timeline@.len() == sampled(n as int, step as int, i as int).len(),
            forall|k: int|
                0 <= k < timeline@.len() ==> #[trigger] timeline@[k] == timeline_point(
                    starts@,
                    sampled(n as int, step as int, i as int)[k],
                ),
            forall|k: int|
                0 <= k < timeline@.len() ==> exists|at: int|
                    0 <= at < i && (#[trigger] timeline@[k]).time_ns == starts@[at],
            forall|k1: int, k2: int|
                0 <= k1 <= k2 < timeline@.len() ==> timeline@[k1].time_ns <= timeline@[k2].time_ns,
        decreases n - i,
    {
        if i % step == 0 || i == n - 1 {
            let ghost before = timeline@;
            timeline.push(RequestTimelinePoint { time_ns: starts[i], request_index: i as u32 + 1 });
            proof {
                assert forall|k1: int, k2: int| 0 <= k1 <= k2 < timeline@.len() implies timeline@[k1].time_ns
                    <= timeline@[k2].time_ns by {
                    if k2 == before.len() && k1 < k2 {
                        let at = choose|at: int| 0 <= at < i && before[k1].time_ns == starts@[at];
                        assert(starts@[at] <= starts@[i as int]);
                    }
                }
                assert forall|k: int| 0 <= k < timeline@.len() implies exists|at: int|
                    0 <= at < i + 1 && (#[trigger] timeline@[k]).time_ns == starts@[at] by {
                    if k < before.len() {
                        let at = choose|at: int| 0 <= at < i && before[k].time_ns == starts@[at];
                        assert(0 <= at < i + 1 && timeline@[k].time_ns == starts@[at]);
                    } else {
                        assert(0 <= i < i + 1 && timeline@[k].time_ns == starts@[i as int]);
                    }
                }
            }
        } else {
            proof {
                assert forall|k: int| 0 <= k < timeline@.len() implies exists|at: int|
                    0 <= at < i + 1 && (#[trigger] timeline@[k]).time_ns == starts@[at] by {
                    let at = choose|at: int| 0 <= at < i && timeline@[k].time_ns == starts@[at];
                    assert(0 <= at < i + 1 && timeline@[k].time_ns == starts@[at]);
                }
            }
        }
        i += 1;
    }
    timeline
}

} // verus!
