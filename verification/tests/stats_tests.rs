use loadgen::histogram::{build_histogram, HistogramBucket, FLAT_BUCKET_NS, HISTOGRAM_BUCKETS};
use loadgen::outcome::{response_result, transport_error_result, ErrorType, RequestResult, TransportError};
use loadgen::percentile::{calculate_percentile, latency_percentiles, LatencyPercentiles};
use loadgen::report::{ErrorLogEntry, Rate, StatusCodeCount};
use loadgen::sorting::sorted_copy;
use loadgen::stats::{calculate_stats, count_status_codes, ERROR_LOGS_MAX, STATUS_MAP_CAPACITY};

const MS: u64 = 1_000_000;

fn ok(duration_ns: u64, timestamp_ns: u64) -> RequestResult {
    response_result(200, duration_ns, timestamp_ns)
}

fn with_status(status: u16) -> RequestResult {
    response_result(status, MS, MS)
}

fn bucket(min_ns: u64, max_ns: u64, count: u32) -> HistogramBucket {
    HistogramBucket { min_ns, max_ns, count }
}

fn counts(histogram: &Vec<HistogramBucket>) -> Vec<u32> {
    histogram.iter().map(|b| b.count).collect()
}

fn one_to_hundred() -> Vec<u64> {
    (1..=100).collect()
}

#[test]
fn constants_of_the_report() {
    assert_eq!(HISTOGRAM_BUCKETS, 10);
    assert_eq!(ERROR_LOGS_MAX, 1000);
    assert_eq!(STATUS_MAP_CAPACITY, 8);
    assert_eq!(FLAT_BUCKET_NS, 1_000_000);
}

#[test]
fn sorted_copy_sorts_and_keeps_every_item() {
    assert_eq!(sorted_copy(&vec![5, 1, 4, 1, 9, 0]), vec![0, 1, 1, 4, 5, 9]);
    assert_eq!(sorted_copy(&Vec::new()), Vec::<u64>::new());
    assert_eq!(sorted_copy(&vec![u64::MAX, 0]), vec![0, u64::MAX]);
}

#[test]
fn percentile_of_no_times_is_zero() {
    assert_eq!(calculate_percentile(&Vec::new(), 50), 0);
    assert_eq!(latency_percentiles(&Vec::new()), LatencyPercentiles::default());
}

#[test]
fn percentile_of_one_time_is_that_time() {
    assert_eq!(calculate_percentile(&vec![7], 0), 7);
    assert_eq!(calculate_percentile(&vec![7], 50), 7);
    assert_eq!(calculate_percentile(&vec![7], 99), 7);
}

#[test]
fn percentiles_of_one_to_hundred() {
    let times = one_to_hundred();
    assert_eq!(
        latency_percentiles(&times),
        LatencyPercentiles { p10: 11, p25: 26, p50: 51, p75: 75, p90: 90, p95: 95, p99: 99 }
    );
}

#[test]
fn percentile_index_rounds_half_up() {
    let six = vec![10, 20, 30, 40, 50, 60];
    assert_eq!(calculate_percentile(&six, 10), 20);
    assert_eq!(calculate_percentile(&six, 50), 40);
    assert_eq!(calculate_percentile(&six, 9), 10);
    let three = vec![1, 2, 3];
    assert_eq!(calculate_percentile(&three, 25), 2);
    assert_eq!(calculate_percentile(&three, 24), 1);
    assert_eq!(calculate_percentile(&three, 75), 3);
}

#[test]
fn percentile_does_not_go_behind_the_last_time() {
    let times = one_to_hundred();
    assert_eq!(calculate_percentile(&times, 100), 100);
    assert_eq!(calculate_percentile(&times, 250), 100);
    assert_eq!(calculate_percentile(&times, u32::MAX), 100);
}

#[test]
fn percentiles_ascend() {
    let times = sorted_copy(&vec![9, 3, 7, 3, 1, 8, 8, 2, 100, 4, 6, 5, 77]);
    let p = latency_percentiles(&times);
    assert!(p.p10 <= p.p25);
    assert!(p.p25 <= p.p50);
    assert!(p.p50 <= p.p75);
    assert!(p.p75 <= p.p90);
    assert!(p.p90 <= p.p95);
    assert!(p.p95 <= p.p99);
}

#[test]
fn histogram_of_evenly_spread_times() {
    let times: Vec<u64> = (0..=10).map(|i| i * 10).collect();
    let histogram = build_histogram(&times, 0, 100, 10);
    assert_eq!(
        histogram,
        vec![
            bucket(0, 10, 1),
            bucket(10, 20, 1),
            bucket(20, 30, 1),
            bucket(30, 40, 1),
            bucket(40, 50, 1),
            bucket(50, 60, 1),
            bucket(60, 70, 1),
            bucket(70, 80, 1),
            bucket(80, 90, 1),
            bucket(90, 100, 2),
        ]
    );
}

#[test]
fn histogram_bounds_round_down() {
    let times: Vec<u64> = (0..=7).collect();
    let histogram = build_histogram(&times, 0, 7, 10);
    let bounds: Vec<(u64, u64)> = histogram.iter().map(|b| (b.min_ns, b.max_ns)).collect();
    assert_eq!(
        bounds,
        vec![(0, 0), (0, 1), (1, 2), (2, 2), (2, 3), (3, 4), (4, 4), (4, 5), (5, 6), (6, 7)]
    );
    assert_eq!(counts(&histogram), vec![1, 1, 1, 0, 1, 1, 0, 1, 1, 1]);
}

#[test]
fn histogram_of_equal_times_fills_the_first_bucket() {
    let histogram = build_histogram(&vec![5, 5, 5], 5, 5, 10);
    assert_eq!(histogram.len(), 10);
    assert_eq!(histogram[0], bucket(5, 5 + MS, 3));
    assert_eq!(histogram[1], bucket(5 + MS, 5 + 2 * MS, 0));
    assert_eq!(histogram[9], bucket(5 + 9 * MS, 5 + 10 * MS, 0));
    assert_eq!(counts(&histogram), vec![3, 0, 0, 0, 0, 0, 0, 0, 0, 0]);
}

#[test]
fn histogram_bounds_stop_at_the_largest_number() {
    let min = u64::MAX - 1_500_000;
    let histogram = build_histogram(&vec![min], min, min, 3);
    assert_eq!(
        histogram,
        vec![
            bucket(min, u64::MAX - 500_000, 1),
            bucket(u64::MAX - 500_000, u64::MAX, 0),
            bucket(u64::MAX, u64::MAX, 0),
        ]
    );
}

#[test]
fn histogram_of_nothing_is_empty() {
    assert_eq!(build_histogram(&Vec::new(), 0, 10, 10), Vec::new());
    assert_eq!(build_histogram(&vec![1, 2], 1, 2, 0), Vec::new());
}

#[test]
fn histogram_keeps_times_outside_the_span_in_the_outer_buckets() {
    let histogram = build_histogram(&vec![1, 50, 500], 10, 110, 10);
    assert_eq!(counts(&histogram), vec![1, 0, 0, 0, 1, 0, 0, 0, 0, 1]);
}

#[test]
fn histogram_with_min_above_max_is_flat() {
    let histogram = build_histogram(&vec![3, 9], 9, 3, 2);
    assert_eq!(histogram, vec![bucket(9, 9 + MS, 2), bucket(9 + MS, 9 + 2 * MS, 0)]);
}

#[test]
fn every_time_lies_within_its_bucket() {
    let times = vec![13, 999, 250, 250, 251, 7, 640, 1000, 1, 500, 333, 100, 101];
    let histogram = build_histogram(&times, 1, 1000, 10);
    for t in &times {
        let holds = histogram.iter().filter(|b| b.min_ns <= *t && *t <= b.max_ns).count();
        assert!(holds >= 1);
    }
    let flat = build_histogram(&vec![4, 4], 4, 4, 10);
    assert!(flat[9].max_ns > 4);
}

#[test]
fn histogram_buckets_adjoin_and_count_every_time() {
    let times = vec![13, 999, 250, 250, 251, 7, 640, 1000, 1, 500, 333];
    let histogram = build_histogram(&times, 1, 1000, 10);
    assert_eq!(histogram.len(), 10);
    assert_eq!(histogram[0].min_ns, 1);
    assert_eq!(histogram[9].max_ns, 1000);
    let mut i = 0;
    while i < 9 {
        assert_eq!(histogram[i].max_ns, histogram[i + 1].min_ns);
        i += 1;
    }
    let total: u32 = counts(&histogram).iter().sum();
    assert_eq!(total, 11);
}

#[test]
fn status_table_descends_by_count() {
    let mut results = Vec::new();
    for status in [200, 404, 404, 500, 301, 404, 200, 301, 404, 200, 301, 404] {
        results.push(with_status(status));
    }
    assert_eq!(
        count_status_codes(&results),
        vec![
            StatusCodeCount { code: 404, count: 5 },
            StatusCodeCount { code: 200, count: 3 },
            StatusCodeCount { code: 301, count: 3 },
            StatusCodeCount { code: 500, count: 1 },
        ]
    );
}

#[test]
fn status_table_of_nothing_is_empty() {
    assert_eq!(count_status_codes(&Vec::new()), Vec::new());
}

#[test]
fn status_table_holds_the_outermost_codes() {
    let results = vec![with_status(0), with_status(u16::MAX), with_status(0)];
    assert_eq!(
        count_status_codes(&results),
        vec![
            StatusCodeCount { code: 0, count: 2 },
            StatusCodeCount { code: u16::MAX, count: 1 },
        ]
    );
}

#[test]
fn report_of_no_results() {
    let stats = calculate_stats(Vec::new(), 10, 2_000_000_000);
    assert_eq!(stats.total_requests, 10);
    assert_eq!(stats.successful_requests, 0);
    assert_eq!(stats.failed_requests, 0);
    assert_eq!(stats.total_time_ns, 2_000_000_000);
    assert_eq!(stats.avg_response_time_ns, 0);
    assert_eq!(stats.min_response_time_ns, 0);
    assert_eq!(stats.max_response_time_ns, 0);
    assert_eq!(stats.requests_per_second, Rate { count: 0, window_ns: 2_000_000_000 });
    assert_eq!(stats.histogram, Vec::new());
    assert_eq!(stats.percentiles, LatencyPercentiles::default());
    assert_eq!(stats.status_codes, Vec::new());
    assert_eq!(stats.results, Vec::new());
    assert_eq!(stats.throughput_over_time, Vec::new());
    assert_eq!(stats.latency_over_time, Vec::new());
    assert_eq!(stats.error_logs, Vec::new());
    assert_eq!(stats.concurrency_over_time, Vec::new());
    assert_eq!(stats.request_timeline, Vec::new());
}

#[test]
fn report_of_a_hundred_successes() {
    let mut results = Vec::new();
    let mut i: u64 = 1;
    while i <= 100 {
        results.push(ok(i * MS, i * 10 * MS - 1));
        i += 1;
    }
    let stats = calculate_stats(results.clone(), 100, 1_000_000_000);
    assert_eq!(stats.total_requests, 100);
    assert_eq!(stats.successful_requests, 100);
    assert_eq!(stats.failed_requests, 0);
    assert_eq!(stats.status_codes, vec![StatusCodeCount { code: 200, count: 100 }]);
    assert_eq!(stats.avg_response_time_ns, 50_500_000);
    assert_eq!(stats.min_response_time_ns, MS);
    assert_eq!(stats.max_response_time_ns, 100 * MS);
    assert_eq!(stats.requests_per_second, Rate { count: 100, window_ns: 1_000_000_000 });
    assert_eq!(
        stats.percentiles,
        LatencyPercentiles {
            p10: 11 * MS,
            p25: 26 * MS,
            p50: 51 * MS,
            p75: 75 * MS,
            p90: 90 * MS,
            p95: 95 * MS,
            p99: 99 * MS,
        }
    );
    assert!(stats.throughput_over_time.len() >= 5 && stats.throughput_over_time.len() <= 30);
    assert_eq!(stats.throughput_over_time.len(), 10);
    assert_eq!(stats.throughput_over_time[9].requests_completed, 100);
    assert_eq!(stats.error_logs, Vec::new());
    assert_eq!(stats.results, results);
    let total: u32 = counts(&stats.histogram).iter().sum();
    assert_eq!(total, 100);
}

#[test]
fn report_of_half_failures() {
    let mut results = Vec::new();
    let mut i: u64 = 0;
    while i < 200 {
        let status = if i % 2 == 0 { 500 } else { 200 };
        results.push(response_result(status, (i + 1) * MS, (i + 1) * MS));
        i += 1;
    }
    let stats = calculate_stats(results, 200, 1_000_000_000);
    assert_eq!(stats.successful_requests, 100);
    assert_eq!(stats.failed_requests, 100);
    assert_eq!(stats.error_logs.len(), 100);
    for entry in &stats.error_logs {
        assert_eq!(entry.error_type, ErrorType::Response);
        assert_eq!(entry.error, "HTTP 500");
        assert_eq!(entry.status, 500);
    }
    assert_eq!(
        stats.error_logs[0],
        ErrorLogEntry {
            timestamp_ns: MS,
            status: 500,
            error: String::from("HTTP 500"),
            error_type: ErrorType::Response,
            duration_ns: MS,
        }
    );
    assert_eq!(stats.error_logs[99].timestamp_ns, 199 * MS);
    assert_eq!(
        stats.status_codes,
        vec![
            StatusCodeCount { code: 200, count: 100 },
            StatusCodeCount { code: 500, count: 100 },
        ]
    );
}

#[test]
fn report_of_refused_connections() {
    let err = TransportError {
        is_timeout: false,
        is_connect: true,
        is_request: false,
        is_redirect: false,
        message: String::from("error sending request"),
        sources: vec![String::from("Connection refused (os error 111)")],
    };
    let mut results = Vec::new();
    let mut i: u64 = 0;
    while i < 10 {
        results.push(transport_error_result(&err, (i + 1) * 1_000, (i + 1) * 2_000, false));
        i += 1;
    }
    let stats = calculate_stats(results, 10, 50_000_000);
    assert_eq!(stats.successful_requests, 0);
    assert_eq!(stats.failed_requests, 10);
    for r in &stats.results {
        assert!(!r.success);
        assert_eq!(r.status, 0);
        assert!(r.error_type == ErrorType::Connection || r.error_type == ErrorType::Timeout);
    }
    let total: u32 = counts(&stats.histogram).iter().sum();
    assert_eq!(total, 10);
    assert_eq!(stats.status_codes, vec![StatusCodeCount { code: 0, count: 10 }]);
    assert_eq!(stats.error_logs.len(), 10);
    assert_eq!(stats.error_logs[0].error, "Connection refused by server");
    assert_eq!(stats.throughput_over_time.len(), 5);
    assert_eq!(stats.concurrency_over_time.len(), 20);
}

#[test]
fn error_log_stops_at_a_thousand_entries() {
    let mut results = Vec::new();
    let mut i: u64 = 0;
    while i < 1500 {
        results.push(response_result(503, MS, i + 1));
        i += 1;
    }
    let stats = calculate_stats(results, 1500, 1_000_000_000);
    assert_eq!(stats.failed_requests, 1500);
    assert_eq!(stats.error_logs.len(), 1000);
    assert_eq!(stats.error_logs[0].timestamp_ns, 1);
    assert_eq!(stats.error_logs[999].timestamp_ns, 1000);
    assert_eq!(stats.status_codes, vec![StatusCodeCount { code: 503, count: 1500 }]);
}

#[test]
fn error_log_skips_successes_and_keeps_the_order() {
    let results = vec![
        response_result(500, 1, 10),
        ok(2, 20),
        response_result(404, 3, 30),
        ok(4, 40),
        response_result(502, 5, 50),
    ];
    let stats = calculate_stats(results, 5, 1_000);
    let logged: Vec<(u64, u16)> = stats.error_logs.iter().map(|e| (e.timestamp_ns, e.status)).collect();
    assert_eq!(logged, vec![(10, 500), (30, 404), (50, 502)]);
}

#[test]
fn error_log_puts_the_status_where_no_error_is_given() {
    let odd = RequestResult {
        status: 418,
        duration_ns: 5,
        success: false,
        error: None,
        error_type: ErrorType::Other,
        timestamp_ns: 9,
    };
    let stats = calculate_stats(vec![odd], 1, 1_000);
    assert_eq!(
        stats.error_logs,
        vec![ErrorLogEntry {
            timestamp_ns: 9,
            status: 418,
            error: String::from("HTTP 418"),
            error_type: ErrorType::Other,
            duration_ns: 5,
        }]
    );
}

#[test]
fn mean_rounds_down() {
    let stats = calculate_stats(vec![ok(1, 1), ok(2, 2)], 2, 10);
    assert_eq!(stats.avg_response_time_ns, 1);
    let more = calculate_stats(vec![ok(1, 1), ok(2, 2), ok(6, 3)], 3, 10);
    assert_eq!(more.avg_response_time_ns, 3);
}

#[test]
fn mean_of_the_largest_durations_fits() {
    let stats = calculate_stats(vec![ok(u64::MAX, 1), ok(u64::MAX, 2), ok(u64::MAX - 3, 3)], 3, 10);
    assert_eq!(stats.avg_response_time_ns, u64::MAX - 1);
    assert_eq!(stats.min_response_time_ns, u64::MAX - 3);
    assert_eq!(stats.max_response_time_ns, u64::MAX);
}

#[test]
fn smallest_and_largest_duration() {
    let stats = calculate_stats(vec![ok(50, 1), ok(7, 2), ok(300, 3), ok(8, 4)], 4, 10);
    assert_eq!(stats.min_response_time_ns, 7);
    assert_eq!(stats.max_response_time_ns, 300);
    let zero = calculate_stats(vec![ok(0, 1), ok(9, 2)], 2, 10);
    assert_eq!(zero.min_response_time_ns, 0);
}

#[test]
fn rate_over_no_time_has_an_empty_window() {
    let stats = calculate_stats(vec![ok(1, 1)], 1, 0);
    assert_eq!(stats.requests_per_second, Rate { count: 1, window_ns: 0 });
    assert_eq!(stats.throughput_over_time, Vec::new());
    assert_eq!(stats.concurrency_over_time, Vec::new());
    assert_eq!(stats.latency_over_time.len(), 1);
    assert_eq!(stats.request_timeline.len(), 1);
}

#[test]
fn successes_and_failures_add_up_to_the_results() {
    let mut results = Vec::new();
    let mut i: u64 = 0;
    while i < 37 {
        let status = if i % 3 == 0 { 404 } else { 201 };
        results.push(response_result(status, i, i));
        i += 1;
    }
    let stats = calculate_stats(results, 50, 1_000);
    assert_eq!(stats.successful_requests + stats.failed_requests, 37);
    assert_eq!(stats.successful_requests, 24);
    assert_eq!(stats.failed_requests, 13);
    assert!(stats.successful_requests + stats.failed_requests <= stats.total_requests);
}

#[test]
fn report_histogram_spans_smallest_to_largest() {
    let stats = calculate_stats(vec![ok(100, 1), ok(200, 2), ok(150, 3)], 3, 10);
    assert_eq!(stats.histogram.len(), 10);
    assert_eq!(stats.histogram[0].min_ns, 100);
    assert_eq!(stats.histogram[9].max_ns, 200);
    assert_eq!(counts(&stats.histogram), vec![1, 0, 0, 0, 0, 1, 0, 0, 0, 1]);
}
