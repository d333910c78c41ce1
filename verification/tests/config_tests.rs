use loadgen::config::{
    available_cpus, check_parsed_url, default_timeout, default_true, needs_dedicated_executor,
    rate_limit_interval, resolve_concurrency, resolve_worker_threads, validate_config,
    CustomHeader, HttpMethod, LoadTestConfig,
};
use loadgen::errors::LoadTestError;

fn config(url: &str, num_requests: u32) -> LoadTestConfig {
    LoadTestConfig {
        url: String::from(url),
        num_requests,
        concurrency: 1,
        use_http2: false,
        method: HttpMethod::GET,
        headers: Vec::new(),
        follow_redirects: true,
        timeout_ms: 20_000,
        rate_limit_milli: 0,
        randomize_user_agent: false,
        randomize_headers: false,
        add_cache_buster: false,
        disable_keep_alive: false,
        worker_threads: 0,
        proxy_url: String::new(),
        body: None,
        payload_content_type: None,
        form_fields: None,
    }
}

fn invalid(message: &str) -> Result<(), LoadTestError> {
    Err(LoadTestError::InvalidConfig(String::from(message)))
}

#[test]
fn defaults() {
    assert!(default_true());
    assert_eq!(default_timeout(), 20_000);
    assert_eq!(HttpMethod::default(), HttpMethod::GET);
    assert_eq!(
        CustomHeader::default(),
        CustomHeader { key: String::new(), value: String::new() }
    );
}

#[test]
fn valid_http_and_https_urls_pass() {
    assert_eq!(validate_config(&config("http://localhost:1/", 10)), Ok(()));
    assert_eq!(validate_config(&config("https://example.com/a?b=c", 1)), Ok(()));
    assert_eq!(validate_config(&config("HTTP://EXAMPLE.COM", 1)), Ok(()));
}

#[test]
fn zero_requests_are_rejected() {
    assert_eq!(
        validate_config(&config("http://localhost/", 0)),
        invalid("num_requests must be greater than 0")
    );
}

#[test]
fn zero_requests_are_rejected_before_the_url_is_looked_at() {
    assert_eq!(
        validate_config(&config("", 0)),
        invalid("num_requests must be greater than 0")
    );
}

#[test]
fn empty_url_is_rejected() {
    assert_eq!(validate_config(&config("", 5)), invalid("URL cannot be empty"));
}

#[test]
fn unparseable_url_is_rejected() {
    assert_eq!(
        validate_config(&config("not a url", 5)),
        invalid("Invalid URL 'not a url': relative URL without a base")
    );
    assert_eq!(
        validate_config(&config("http://", 5)),
        invalid("Invalid URL 'http://': empty host")
    );
}

#[test]
fn other_schemes_are_rejected() {
    assert_eq!(
        validate_config(&config("ftp://example.com/file", 5)),
        invalid("URL must use http or https scheme, got: ftp")
    );
    assert_eq!(
        validate_config(&config("file:///tmp/x", 5)),
        invalid("URL must use http or https scheme, got: file")
    );
}

#[test]
fn check_parsed_url_accepts_only_http_and_https() {
    assert_eq!(check_parsed_url("u", &Ok(String::from("http"))), Ok(()));
    assert_eq!(check_parsed_url("u", &Ok(String::from("https"))), Ok(()));
    assert_eq!(
        check_parsed_url("u", &Ok(String::from("ws"))),
        invalid("URL must use http or https scheme, got: ws")
    );
    assert_eq!(
        check_parsed_url("u", &Ok(String::from("httpx"))),
        invalid("URL must use http or https scheme, got: httpx")
    );
}

#[test]
fn check_parsed_url_reports_the_parse_error() {
    assert_eq!(
        check_parsed_url("::", &Err(String::from("empty host"))),
        invalid("Invalid URL '::': empty host")
    );
}

#[test]
fn concurrency_within_the_requests_is_kept() {
    assert_eq!(resolve_concurrency(10, 4), 4);
    assert_eq!(resolve_concurrency(10, 10), 10);
    assert_eq!(resolve_concurrency(100, 1), 1);
}

#[test]
fn concurrency_of_zero_stands_for_all_requests() {
    assert_eq!(resolve_concurrency(10, 0), 10);
    assert_eq!(resolve_concurrency(1, 0), 1);
}

#[test]
fn concurrency_above_the_requests_stands_for_all_requests() {
    assert_eq!(resolve_concurrency(10, 11), 10);
    assert_eq!(resolve_concurrency(3, u32::MAX), 3);
}

#[test]
fn single_serial_request() {
    assert_eq!(resolve_concurrency(1, 1), 1);
}

#[test]
fn no_rate_limit_means_no_pause() {
    assert_eq!(rate_limit_interval(0), None);
}

#[test]
fn rate_limit_gives_the_inverse_as_pause() {
    assert_eq!(rate_limit_interval(1_000), Some(1_000_000_000));
    assert_eq!(rate_limit_interval(2_000), Some(500_000_000));
    assert_eq!(rate_limit_interval(500), Some(2_000_000_000));
    assert_eq!(rate_limit_interval(3_000), Some(333_333_333));
    assert_eq!(rate_limit_interval(1), Some(1_000_000_000_000));
    assert_eq!(rate_limit_interval(u64::MAX), Some(0));
}

#[test]
fn cpus_fall_back_to_four() {
    assert_eq!(available_cpus(Some(16)), 16);
    assert_eq!(available_cpus(Some(1)), 1);
    assert_eq!(available_cpus(None), 4);
}

#[test]
fn worker_threads_of_zero_stand_for_the_default() {
    assert_eq!(resolve_worker_threads(0, 8), 8);
    assert_eq!(resolve_worker_threads(3, 8), 3);
}

#[test]
fn a_dedicated_executor_is_needed_for_another_thread_count() {
    assert!(!needs_dedicated_executor(0, 8));
    assert!(!needs_dedicated_executor(8, 8));
    assert!(needs_dedicated_executor(4, 8));
    assert!(needs_dedicated_executor(16, 8));
}
