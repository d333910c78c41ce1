use loadgen::client::{
    build_http_client, client_from, invalid_proxy_error, normalize_proxy, plan_http_client,
    ClientPlan, HttpVersion, CONNECT_TIMEOUT_SECS, POOL_IDLE_TIMEOUT_MS, POOL_SIZE_CAP,
    TCP_KEEPALIVE_SECS,
};
use loadgen::config::{HttpMethod, LoadTestConfig};
use loadgen::errors::LoadTestError;

fn config() -> LoadTestConfig {
    LoadTestConfig {
        url: String::from("http://localhost:1/"),
        num_requests: 10,
        concurrency: 4,
        use_http2: false,
        method: HttpMethod::GET,
        headers: Vec::new(),
        follow_redirects: true,
        timeout_ms: 1_000,
        rate_limit_milli: 0,
        randomize_user_agent: false,
        randomize_headers: false,
        add_cache_buster: false,
        disable_keep_alive: false,
        worker_threads: 0,
        proxy_url: String::new(),
        body: None,
        payload_content_type: None,
        form_fields: None,
    }
}

#[test]
fn constants_of_the_client() {
    assert_eq!(TCP_KEEPALIVE_SECS, 15);
    assert_eq!(CONNECT_TIMEOUT_SECS, 30);
    assert_eq!(POOL_IDLE_TIMEOUT_MS, 100);
    assert_eq!(POOL_SIZE_CAP, 500);
}

#[test]
fn plan_with_keep_alive() {
    assert_eq!(
        plan_http_client(&config(), 4),
        ClientPlan {
            tcp_nodelay: true,
            tcp_keepalive_secs: 15,
            connect_timeout_secs: 30,
            pool_max_idle_per_host: 4,
            pool_idle_timeout_ms: Some(100),
            timeout_ms: Some(1_000),
            http_version: HttpVersion::Http1Only,
            follow_redirects: true,
            proxy_url: None,
        }
    );
}

#[test]
fn plan_without_keep_alive_keeps_no_idle_connection() {
    let mut c = config();
    c.disable_keep_alive = true;
    let plan = plan_http_client(&c, 4);
    assert_eq!(plan.pool_max_idle_per_host, 0);
    assert_eq!(plan.pool_idle_timeout_ms, None);
    assert_eq!(plan.http_version, HttpVersion::Http1Only);
}

#[test]
fn plan_with_http2() {
    let mut c = config();
    c.use_http2 = true;
    assert_eq!(plan_http_client(&c, 4).http_version, HttpVersion::Http2PriorKnowledge);
    c.disable_keep_alive = true;
    let plan = plan_http_client(&c, 4);
    assert_eq!(plan.http_version, HttpVersion::Http2PriorKnowledge);
    assert_eq!(plan.pool_max_idle_per_host, 0);
}

#[test]
fn pool_is_as_large_as_the_concurrency_up_to_the_cap() {
    assert_eq!(plan_http_client(&config(), 1).pool_max_idle_per_host, 1);
    assert_eq!(plan_http_client(&config(), 499).pool_max_idle_per_host, 499);
    assert_eq!(plan_http_client(&config(), 500).pool_max_idle_per_host, 500);
    assert_eq!(plan_http_client(&config(), 501).pool_max_idle_per_host, 500);
    assert_eq!(plan_http_client(&config(), u32::MAX).pool_max_idle_per_host, 500);
}

#[test]
fn timeout_of_zero_is_no_timeout() {
    let mut c = config();
    c.timeout_ms = 0;
    assert_eq!(plan_http_client(&c, 4).timeout_ms, None);
    c.timeout_ms = 1;
    assert_eq!(plan_http_client(&c, 4).timeout_ms, Some(1));
}

#[test]
fn redirects_follow_the_configuration() {
    let mut c = config();
    c.follow_redirects = false;
    assert!(!plan_http_client(&c, 4).follow_redirects);
}

#[test]
fn proxy_gets_a_scheme() {
    assert_eq!(normalize_proxy("127.0.0.1:8080"), "http://127.0.0.1:8080");
    assert_eq!(normalize_proxy("http://p:1"), "http://p:1");
    assert_eq!(normalize_proxy("https://p:1"), "https://p:1");
    assert_eq!(normalize_proxy("socks5://p:1"), "http://socks5://p:1");
    assert_eq!(normalize_proxy("HTTP://p:1"), "http://HTTP://p:1");
}

#[test]
fn plan_names_the_proxy_with_its_scheme() {
    let mut c = config();
    c.proxy_url = String::from("proxy.local:3128");
    assert_eq!(plan_http_client(&c, 4).proxy_url, Some(String::from("http://proxy.local:3128")));
}

#[test]
fn invalid_proxy_error_names_url_and_reason() {
    assert_eq!(
        invalid_proxy_error("http://[bad", "builder error"),
        LoadTestError::InvalidConfig(String::from("Invalid proxy URL 'http://[bad': builder error"))
    );
}

#[test]
fn client_is_built_without_proxy() {
    assert!(build_http_client(&config(), 4).is_ok());
}

#[test]
fn client_is_built_for_every_policy() {
    for http2 in [false, true] {
        for no_keep_alive in [false, true] {
            for redirects in [false, true] {
                let mut c = config();
                c.use_http2 = http2;
                c.disable_keep_alive = no_keep_alive;
                c.follow_redirects = redirects;
                c.timeout_ms = if redirects { 0 } else { 500 };
                assert!(build_http_client(&c, 600).is_ok());
            }
        }
    }
}

#[test]
fn client_is_built_with_a_proxy() {
    let mut c = config();
    c.proxy_url = String::from("127.0.0.1:8080");
    assert!(build_http_client(&c, 4).is_ok());
    c.proxy_url = String::from("https://proxy.example:443");
    assert!(build_http_client(&c, 4).is_ok());
}

#[test]
fn a_proxy_that_does_not_parse_fails_the_build() {
    let mut c = config();
    c.proxy_url = String::from("http://[bad");
    match build_http_client(&c, 4) {
        Err(LoadTestError::InvalidConfig(message)) => {
            assert!(message.starts_with("Invalid proxy URL 'http://[bad': "));
            assert!(message.len() > "Invalid proxy URL 'http://[bad': ".len());
        }
        _ => panic!("the proxy was not rejected"),
    }
}

#[test]
fn a_failed_build_is_a_client_build_error() {
    match client_from(Err(String::from("builder error"))) {
        Err(e) => assert_eq!(e, LoadTestError::ClientBuild(String::from("builder error"))),
        Ok(_) => panic!("a failed build gave a client"),
    }
}

#[test]
fn a_built_client_is_handed_on() {
    let built = reqwest::Client::builder().build().map_err(|e| e.to_string());
    assert!(built.is_ok());
    assert!(client_from(built).is_ok());
}
