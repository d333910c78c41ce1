use loadgen::outcome::{response_result, RequestResult};
use loadgen::report::{
    ConcurrencyDataPoint, LatencyDataPoint, Rate, RequestTimelinePoint, ThroughputDataPoint,
};
use loadgen::series::{
    calculate_concurrency_over_time, calculate_latency_over_time, calculate_request_timeline,
    calculate_throughput_over_time, sort_by_timestamp, CONCURRENCY_MIN_SAMPLES,
    CONCURRENCY_SAMPLE_TARGET, LATENCY_SAMPLE_TARGET, THROUGHPUT_BUCKETS, THROUGHPUT_MIN_BUCKETS,
    TIMELINE_SAMPLE_TARGET,
};
use loadgen::stats::calculate_stats;

const MS: u64 = 1_000_000;
const SECOND: u64 = 1_000_000_000;

fn done(duration_ns: u64, timestamp_ns: u64) -> RequestResult {
    response_result(200, duration_ns, timestamp_ns)
}

fn at(timestamps_ms: &[u64]) -> Vec<RequestResult> {
    timestamps_ms.iter().map(|t| done(MS, t * MS)).collect()
}

fn many(n: u64) -> Vec<RequestResult> {
    (0..n).map(|i| done(i + 1, (n - i) * 10)).collect()
}

fn throughput(results: &Vec<RequestResult>, total_ns: u64) -> Vec<ThroughputDataPoint> {
    calculate_throughput_over_time(results, total_ns, &sort_by_timestamp(results))
}

#[test]
fn constants_of_the_series() {
    assert_eq!(THROUGHPUT_BUCKETS, 30);
    assert_eq!(THROUGHPUT_MIN_BUCKETS, 5);
    assert_eq!(LATENCY_SAMPLE_TARGET, 400);
    assert_eq!(CONCURRENCY_SAMPLE_TARGET, 200);
    assert_eq!(CONCURRENCY_MIN_SAMPLES, 20);
    assert_eq!(TIMELINE_SAMPLE_TARGET, 500);
}

#[test]
fn order_by_completion_time() {
    let results = at(&[30, 10, 20, 5]);
    assert_eq!(sort_by_timestamp(&results), vec![3, 1, 2, 0]);
}

#[test]
fn order_keeps_results_of_the_same_time_in_place() {
    let results = at(&[30, 10, 20, 10, 30, 10]);
    assert_eq!(sort_by_timestamp(&results), vec![1, 3, 5, 2, 0, 4]);
}

#[test]
fn order_of_nothing_is_empty() {
    assert_eq!(sort_by_timestamp(&Vec::new()), Vec::<usize>::new());
}

#[test]
fn throughput_over_one_second() {
    let mut results = at(&[50, 150, 150, 950, 1000]);
    results.push(done(MS, SECOND - 1));
    let series = throughput(&results, SECOND);
    let completed: Vec<u32> = series.iter().map(|p| p.requests_completed).collect();
    assert_eq!(completed, vec![1, 3, 3, 3, 3, 3, 3, 3, 3, 5]);
    let in_bucket: Vec<u64> = series.iter().map(|p| p.rps.count).collect();
    assert_eq!(in_bucket, vec![10, 20, 0, 0, 0, 0, 0, 0, 0, 20]);
    let times: Vec<u64> = series.iter().map(|p| p.time_ns).collect();
    assert_eq!(
        times,
        vec![
            100 * MS,
            200 * MS,
            300 * MS,
            400 * MS,
            500 * MS,
            600 * MS,
            700 * MS,
            800 * MS,
            900 * MS,
            1000 * MS
        ]
    );
    assert_eq!(
        series[1],
        ThroughputDataPoint {
            time_ns: 200 * MS,
            requests_completed: 3,
            rps: Rate { count: 20, window_ns: SECOND },
        }
    );
}

#[test]
fn throughput_counts_a_result_at_a_bound_in_the_later_interval() {
    let results = at(&[100, 200]);
    let series = throughput(&results, SECOND);
    let completed: Vec<u32> = series.iter().map(|p| p.requests_completed).collect();
    assert_eq!(completed, vec![0, 1, 2, 2, 2, 2, 2, 2, 2, 2]);
}

#[test]
fn throughput_has_at_least_five_intervals() {
    let results = at(&[10, 60, 110, 249]);
    let series = throughput(&results, 250 * MS);
    assert_eq!(series.len(), 5);
    let completed: Vec<u32> = series.iter().map(|p| p.requests_completed).collect();
    assert_eq!(completed, vec![1, 2, 3, 3, 4]);
    assert_eq!(series[0].time_ns, 50 * MS);
    assert_eq!(series[0].rps, Rate { count: 5, window_ns: 250 * MS });
}

#[test]
fn throughput_has_at_most_thirty_intervals() {
    let results = at(&[1, 5000, 9999]);
    let series = throughput(&results, 10 * SECOND);
    assert_eq!(series.len(), 30);
    assert_eq!(series[0].time_ns, 333_333_333);
    assert_eq!(series[1].time_ns, 666_666_666);
    assert_eq!(series[29].time_ns, 10 * SECOND);
    assert_eq!(series[0].requests_completed, 1);
    assert_eq!(series[14].requests_completed, 1);
    assert_eq!(series[15].requests_completed, 2);
    assert_eq!(series[29].requests_completed, 3);
    assert_eq!(series[15].rps, Rate { count: 30, window_ns: 10 * SECOND });
}

#[test]
fn throughput_has_one_interval_for_each_tenth_between() {
    assert_eq!(throughput(&at(&[1]), 499 * MS).len(), 5);
    assert_eq!(throughput(&at(&[1]), 600 * MS).len(), 6);
    assert_eq!(throughput(&at(&[1]), 2999 * MS).len(), 29);
    assert_eq!(throughput(&at(&[1]), 3000 * MS).len(), 30);
    assert_eq!(throughput(&at(&[1]), 3100 * MS).len(), 30);
}

#[test]
fn throughput_does_not_depend_on_the_order_of_ties() {
    let results = at(&[150, 50, 150, 50]);
    let by_place: Vec<usize> = vec![1, 3, 0, 2];
    let other: Vec<usize> = vec![3, 1, 2, 0];
    assert_eq!(sort_by_timestamp(&results), by_place);
    let series = calculate_throughput_over_time(&results, SECOND, &other);
    assert_eq!(series, calculate_throughput_over_time(&results, SECOND, &by_place));
    let completed: Vec<u32> = series.iter().map(|p| p.requests_completed).collect();
    assert_eq!(completed, vec![2, 4, 4, 4, 4, 4, 4, 4, 4, 4]);
}

#[test]
fn throughput_intervals_end_at_ascending_times() {
    let series = throughput(&at(&[1]), 7);
    let times: Vec<u64> = series.iter().map(|p| p.time_ns).collect();
    assert_eq!(times, vec![1, 2, 4, 5, 7]);
    let short = throughput(&at(&[1]), 3);
    let short_times: Vec<u64> = short.iter().map(|p| p.time_ns).collect();
    assert_eq!(short_times, vec![0, 1, 1, 2, 3]);
}

#[test]
fn throughput_of_nothing_is_empty() {
    assert_eq!(throughput(&Vec::new(), SECOND), Vec::new());
    assert_eq!(throughput(&at(&[1, 2]), 0), Vec::new());
}

#[test]
fn throughput_never_decreases() {
    let results = many(777);
    let series = throughput(&results, 5_000);
    let mut i = 1;
    while i < series.len() {
        assert!(series[i - 1].requests_completed <= series[i].requests_completed);
        i += 1;
    }
}

#[test]
fn throughput_leaves_out_what_completed_at_or_after_the_end() {
    let results = at(&[500, 1000, 1500]);
    let series = throughput(&results, SECOND);
    assert_eq!(series[9].requests_completed, 1);
}

#[test]
fn latency_series_of_few_results_holds_them_all() {
    let results = vec![done(7, 30), done(8, 10), done(9, 20)];
    let series = calculate_latency_over_time(&results, &sort_by_timestamp(&results));
    assert_eq!(
        series,
        vec![
            LatencyDataPoint { request_num: 1, latency_ns: 8, timestamp_ns: 10 },
            LatencyDataPoint { request_num: 2, latency_ns: 9, timestamp_ns: 20 },
            LatencyDataPoint { request_num: 3, latency_ns: 7, timestamp_ns: 30 },
        ]
    );
}

#[test]
fn latency_series_takes_every_second_of_a_thousand() {
    let results = many(1000);
    let series = calculate_latency_over_time(&results, &sort_by_timestamp(&results));
    assert_eq!(series.len(), 501);
    assert_eq!(series[0], LatencyDataPoint { request_num: 1, latency_ns: 1000, timestamp_ns: 10 });
    assert_eq!(series[1], LatencyDataPoint { request_num: 3, latency_ns: 998, timestamp_ns: 30 });
    assert_eq!(series[499].request_num, 999);
    assert_eq!(
        series[500],
        LatencyDataPoint { request_num: 1000, latency_ns: 1, timestamp_ns: 10_000 }
    );
}

#[test]
fn latency_series_does_not_double_the_last() {
    let results = many(801);
    let series = calculate_latency_over_time(&results, &sort_by_timestamp(&results));
    assert_eq!(series.len(), 401);
    assert_eq!(series[400].request_num, 801);
    assert_eq!(series[399].request_num, 799);
}

#[test]
fn latency_series_keeps_all_below_twice_the_target() {
    let results = many(799);
    let series = calculate_latency_over_time(&results, &sort_by_timestamp(&results));
    assert_eq!(series.len(), 799);
}

#[test]
fn latency_series_of_nothing_is_empty() {
    assert_eq!(calculate_latency_over_time(&Vec::new(), &Vec::new()), Vec::new());
}

#[test]
fn concurrency_over_two_seconds() {
    let results = vec![
        done(100 * MS, 100 * MS),
        done(400 * MS, 500 * MS),
        done(10 * MS, 460 * MS),
    ];
    let series = calculate_concurrency_over_time(&results, 2 * SECOND);
    assert_eq!(series.len(), 20);
    let in_flight: Vec<u32> = series.iter().map(|p| p.concurrent_requests).collect();
    assert_eq!(in_flight, vec![1, 1, 1, 1, 2, 0, 0, 0, 0, 0, 0, 0, 0, 0, 0, 0, 0, 0, 0, 0]);
    assert_eq!(series[0], ConcurrencyDataPoint { time_ns: 50 * MS, concurrent_requests: 1 });
    assert_eq!(series[4], ConcurrencyDataPoint { time_ns: 450 * MS, concurrent_requests: 2 });
    assert_eq!(series[19].time_ns, 1950 * MS);
}

#[test]
fn a_request_that_ends_at_the_sample_is_no_longer_in_flight() {
    let results = vec![done(50 * MS, 50 * MS), done(100 * MS, 150 * MS)];
    let series = calculate_concurrency_over_time(&results, 2 * SECOND);
    assert_eq!(series[0].concurrent_requests, 1);
    assert_eq!(series[1].concurrent_requests, 0);
}

#[test]
fn a_request_longer_than_its_completion_time_starts_at_zero() {
    let results = vec![done(900 * MS, 300 * MS)];
    let series = calculate_concurrency_over_time(&results, 2 * SECOND);
    let in_flight: Vec<u32> = series.iter().map(|p| p.concurrent_requests).collect();
    assert_eq!(in_flight[0], 1);
    assert_eq!(in_flight[1], 1);
    assert_eq!(in_flight[2], 1);
    assert_eq!(in_flight[3], 0);
}

#[test]
fn concurrency_has_between_twenty_and_two_hundred_samples() {
    let results = vec![done(MS, 2 * MS)];
    assert_eq!(calculate_concurrency_over_time(&results, 50 * MS).len(), 20);
    assert_eq!(calculate_concurrency_over_time(&results, 1999 * MS).len(), 20);
    assert_eq!(calculate_concurrency_over_time(&results, 2100 * MS).len(), 21);
    assert_eq!(calculate_concurrency_over_time(&results, 20 * SECOND).len(), 200);
    assert_eq!(calculate_concurrency_over_time(&results, 100 * SECOND).len(), 200);
}

#[test]
fn concurrency_samples_stand_in_the_middle_and_round_down() {
    let results = vec![done(1, 1)];
    let series = calculate_concurrency_over_time(&results, 50);
    let times: Vec<u64> = series.iter().map(|p| p.time_ns).collect();
    assert_eq!(
        times,
        vec![1, 3, 6, 8, 11, 13, 16, 18, 21, 23, 26, 28, 31, 33, 36, 38, 41, 43, 46, 48]
    );
}

#[test]
fn concurrency_samples_of_a_short_run_lie_within_it() {
    let results = vec![done(10, 20)];
    let series = calculate_concurrency_over_time(&results, 40);
    let times: Vec<u64> = series.iter().map(|p| p.time_ns).collect();
    assert_eq!(
        times,
        vec![1, 3, 5, 7, 9, 11, 13, 15, 17, 19, 21, 23, 25, 27, 29, 31, 33, 35, 37, 39]
    );
    for p in &series {
        assert!(p.concurrent_requests <= 1);
    }
}

#[test]
fn concurrency_of_nothing_is_empty() {
    assert_eq!(calculate_concurrency_over_time(&Vec::new(), SECOND), Vec::new());
    assert_eq!(calculate_concurrency_over_time(&vec![done(1, 1)], 0), Vec::new());
}

#[test]
fn concurrency_of_overlapping_requests() {
    let mut results = Vec::new();
    let mut i: u64 = 0;
    while i < 8 {
        results.push(done(1000 * MS, 1000 * MS + i));
        i += 1;
    }
    let series = calculate_concurrency_over_time(&results, 2 * SECOND);
    assert_eq!(series[0].concurrent_requests, 8);
    assert_eq!(series[9].concurrent_requests, 8);
    assert_eq!(series[10].concurrent_requests, 0);
}

#[test]
fn timeline_of_few_results_holds_them_all() {
    let results = vec![done(10, 100), done(90, 100), done(500, 100), done(5, 50)];
    assert_eq!(
        calculate_request_timeline(&results),
        vec![
            RequestTimelinePoint { time_ns: 0, request_index: 1 },
            RequestTimelinePoint { time_ns: 10, request_index: 2 },
            RequestTimelinePoint { time_ns: 45, request_index: 3 },
            RequestTimelinePoint { time_ns: 90, request_index: 4 },
        ]
    );
}

#[test]
fn timeline_takes_every_third_of_fifteen_hundred() {
    let results: Vec<RequestResult> = (0..1500u64).map(|i| done(0, 3000 - 2 * i)).collect();
    let timeline = calculate_request_timeline(&results);
    assert_eq!(timeline.len(), 501);
    assert_eq!(timeline[0], RequestTimelinePoint { time_ns: 2, request_index: 1 });
    assert_eq!(timeline[1], RequestTimelinePoint { time_ns: 8, request_index: 4 });
    assert_eq!(timeline[499], RequestTimelinePoint { time_ns: 2996, request_index: 1498 });
    assert_eq!(timeline[500], RequestTimelinePoint { time_ns: 3000, request_index: 1500 });
}

#[test]
fn timeline_of_nothing_is_empty() {
    assert_eq!(calculate_request_timeline(&Vec::new()), Vec::new());
}

#[test]
fn timeline_ascends() {
    let results = many(2345);
    let timeline = calculate_request_timeline(&results);
    let mut i = 1;
    while i < timeline.len() {
        assert!(timeline[i - 1].time_ns <= timeline[i].time_ns);
        assert!(timeline[i - 1].request_index < timeline[i].request_index);
        i += 1;
    }
}

#[test]
fn report_holds_the_series() {
    let results = vec![done(100 * MS, 100 * MS), done(400 * MS, 500 * MS), done(10 * MS, 460 * MS)];
    let stats = calculate_stats(results.clone(), 3, 2 * SECOND);
    let order = sort_by_timestamp(&results);
    assert_eq!(order, vec![0, 2, 1]);
    assert_eq!(
        stats.throughput_over_time,
        calculate_throughput_over_time(&results, 2 * SECOND, &order)
    );
    assert_eq!(stats.latency_over_time, calculate_latency_over_time(&results, &order));
    assert_eq!(
        stats.concurrency_over_time,
        calculate_concurrency_over_time(&results, 2 * SECOND)
    );
    assert_eq!(stats.request_timeline, calculate_request_timeline(&results));
    assert_eq!(stats.throughput_over_time.len(), 20);
    assert_eq!(
        stats.latency_over_time,
        vec![
            LatencyDataPoint { request_num: 1, latency_ns: 100 * MS, timestamp_ns: 100 * MS },
            LatencyDataPoint { request_num: 2, latency_ns: 10 * MS, timestamp_ns: 460 * MS },
            LatencyDataPoint { request_num: 3, latency_ns: 400 * MS, timestamp_ns: 500 * MS },
        ]
    );
    assert_eq!(
        stats.request_timeline,
        vec![
            RequestTimelinePoint { time_ns: 0, request_index: 1 },
            RequestTimelinePoint { time_ns: 100 * MS, request_index: 2 },
            RequestTimelinePoint { time_ns: 450 * MS, request_index: 3 },
        ]
    );
}

#[test]
fn no_reported_time_lies_behind_the_run() {
    let results = many(300);
    let total = 3_001;
    let stats = calculate_stats(results, 300, total);
    for p in &stats.throughput_over_time {
        assert!(p.time_ns <= total);
    }
    for p in &stats.concurrency_over_time {
        assert!(p.time_ns <= total);
    }
    for p in &stats.request_timeline {
        assert!(p.time_ns <= total);
    }
}
