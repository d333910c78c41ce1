//! The run configuration as the host hands it in, and the rules that accept
//! or reject it.

use vstd::prelude::*;
use vstd::string::*;
use crate::errors::LoadTestError;
use crate::text::joined;

verus! {

/// The HTTP method of every request of a run.
#[derive(Debug, Clone, Copy, PartialEq, Eq, Structural)]
pub enum HttpMethod {
    GET,
    POST,
    PUT,
    DELETE,
    PATCH,
    HEAD,
    OPTIONS,
}

impl Default for HttpMethod {
    fn default() -> (r: Self)
        ensures
            r == HttpMethod::GET,
    {
        HttpMethod::GET
    }
}

/// One request header.
#[derive(Debug, Clone, PartialEq, Eq)]
pub struct CustomHeader {
    pub key: String,
    pub value: String,
}

impl Default for CustomHeader {
    fn default() -> (r: Self)
        ensures
            r.key@.len() == 0,
            r.value@.len() == 0,
    {
        CustomHeader { key: String::new(), value: String::new() }
    }
}

impl View for CustomHeader {
    type V = (Seq<char>, Seq<char>);

    open spec fn view(&self) -> (Seq<char>, Seq<char>) {
        (self.key@, self.value@)
    }
}

/// The names and values of a list of headers, in order.
pub open spec fn header_views(headers: Seq<CustomHeader>) -> Seq<(Seq<char>, Seq<char>)> {
    headers.map_values(|h: CustomHeader| h@)
}

/// One field of a multipart form, as configured.
#[derive(Debug, Clone, PartialEq, Eq)]
pub struct FormFieldConfig {
    pub name: String,
    pub value: String,
    /// Set for a file field: where the file is read from.
    pub file_path: Option<String>,
    /// The file name to send; derived from the path when absent.
    pub file_name: Option<String>,
}

/// The configuration of one run.
#[derive(Debug, Clone, PartialEq, Eq)]
pub struct LoadTestConfig {
    pub url: String,
    /// How many requests to send; must be above 0.
    pub num_requests: u32,
    /// How many requests may be in flight; 0 or more than `num_requests`
    /// stands for `num_requests`.
    pub concurrency: u32,
    pub use_http2: bool,
    pub method: HttpMethod,
    pub headers: Vec<CustomHeader>,
    pub follow_redirects: bool,
    /// Timeout of each request in milliseconds; 0 stands for none.
    pub timeout_ms: u64,
    /// Requests per 1000 seconds and worker; 0 stands for no limit.
    pub rate_limit_milli: u64,
    pub randomize_user_agent: bool,
    pub randomize_headers: bool,
    pub add_cache_buster: bool,
    pub disable_keep_alive: bool,
    /// Worker threads to run on; 0 stands for the host's default.
    pub worker_threads: u32,
    /// Proxy as `host:port` or with a scheme; empty for none.
    pub proxy_url: String,
    pub body: Option<String>,
    pub payload_content_type: Option<String>,
    pub form_fields: Option<Vec<FormFieldConfig>>,
}

/// Default for `LoadTestConfig::follow_redirects`.
pub fn default_true() -> (r: bool)
    ensures
        r,
{
    true
}

/// Default for `LoadTestConfig::timeout_ms`: twenty seconds.
pub fn default_timeout() -> (r: u64)
    ensures
        r == 20_000,
{
    20_000
}

/// The concurrency a run works with.
pub open spec fn resolved_concurrency(num_requests: u32, concurrency: u32) -> u32 {
    if concurrency == 0 || concurrency > num_requests {
        num_requests
    } else {
        concurrency
    }
}

/// Resolves the configured concurrency: 0, or more than there are requests,
/// stands for one slot per request.
pub fn resolve_concurrency(num_requests: u32, concurrency: u32) -> (c: u32)
    ensures
        c == resolved_concurrency(num_requests, concurrency),
        c <= num_requests,
        num_requests > 0 ==> c > 0,
{
    if concurrency == 0 || concurrency > num_requests {
        num_requests
    } else {
        concurrency
    }
}

/// The pause before each request, in nanoseconds, for a rate limit given in
/// requests per 1000 seconds: none without a limit, else the inverse of the
/// rate, rounded down.
pub open spec fn rate_interval(rate_limit_milli: u64) -> Option<u64> {
    if rate_limit_milli > 0 {
        Some((1_000_000_000_000int / rate_limit_milli as int) as u64)
    } else {
        None
    }
}

/// Computes the pause that a rate limit asks for before each request.
pub fn rate_limit_interval(rate_limit_milli: u64) -> (r: Option<u64>)
    ensures
        r == rate_interval(rate_limit_milli),
        rate_limit_milli == 0 <==> r is None,
{
    if rate_limit_milli > 0 {
        Some(1_000_000_000_000u64 / rate_limit_milli)
    } else {
        None
    }
}

/// The number of CPUs to report: what the host detected, else 4.
pub fn available_cpus(detected: Option<u32>) -> (r: u32)
    ensures
        r == match detected {
            Some(n) => n,
            None => 4u32,
        },
{
    match detected {
        Some(n) => n,
        None => 4,
    }
}

/// The number of worker threads of a run: the configured number, or the
/// host's default where 0 is configured.
pub fn resolve_worker_threads(worker_threads: u32, default_threads: usize) -> (r: usize)
    ensures
        r == if worker_threads == 0 {
            default_threads
        } else {
            worker_threads as usize
        },
{
    if worker_threads == 0 {
        default_threads
    } else {
        worker_threads as usize
    }
}

/// Whether a run needs an executor of its own: a thread count is configured
/// and differs from the host's default.
pub fn needs_dedicated_executor(worker_threads: u32, default_threads: usize) -> (r: bool)
    ensures
        r == (worker_threads > 0 && worker_threads as usize != default_threads),
{
    worker_threads > 0 && worker_threads as usize != default_threads
}

/// What `url::Url::parse` makes of a text: the scheme of the parsed URL, or
/// the parse error in words.
pub uninterp spec fn parsed_scheme(url: Seq<char>) -> Result<Seq<char>, Seq<char>>;

/// Calls `url::Url::parse` and hands back the scheme of the URL (`Url::scheme`)
/// or the error's message (its `Display`). The contract only names the
/// outcome: the URL grammar is the `url` crate's and is not restated here.
#[verifier::external_body]
pub(crate) fn parse_scheme(url: &str) -> (r: Result<String, String>)
    ensures
        match r {
            Ok(scheme) => parsed_scheme(url@) == Ok::<Seq<char>, Seq<char>>(scheme@),
            Err(e) => parsed_scheme(url@) == Err::<Seq<char>, Seq<char>>(e@),
        },
{
    match url::Url::parse(url) {
        Ok(parsed) => Ok(parsed.scheme().to_string()),
        Err(e) => Err(e.to_string()),
    }
}

/// Why a URL is rejected, given what parsing it gave; `None` when it is
/// accepted. Only `http` and `https` URLs are accepted.
pub open spec fn url_rejection(url: Seq<char>, parsed: Result<Seq<char>, Seq<char>>) -> Option<
    Seq<char>,
> {
    match parsed {
        Ok(scheme) => if scheme == "http"@ || scheme == "https"@ {
            None
        } else {
            Some("URL must use http or https scheme, got: "@ + scheme)
        },
        Err(e) => Some("Invalid URL '"@ + url + "': "@ + e),
    }
}

/// Why a configuration is rejected, given what parsing its URL gave; `None`
/// when it is accepted.
pub open spec fn config_rejection(
    num_requests: u32,
    url: Seq<char>,
    parsed: Result<Seq<char>, Seq<char>>,
) -> Option<Seq<char>> {
    if num_requests == 0 {
        Some("num_requests must be greater than 0"@)
    } else if url.len() == 0 {
        Some("URL cannot be empty"@)
    } else {
        url_rejection(url, parsed)
    }
}

/// The view of a parse outcome.
pub open spec fn parsed_view(parsed: Result<String, String>) -> Result<Seq<char>, Seq<char>> {
    match parsed {
        Ok(s) => Ok(s@),
        Err(e) => Err(e@),
    }
}

/// Accepts or rejects a URL from what parsing it gave.
pub fn check_parsed_url(url: &str, parsed: &Result<String, String>) -> (r: Result<
    (),
    LoadTestError,
>)
    ensures
        r is Ok <==> url_rejection(url@, parsed_view(*parsed)) is None,
        r is Err ==> r->Err_0 is InvalidConfig && r->Err_0->InvalidConfig_0@ == url_rejection(
            url@,
            parsed_view(*parsed),
        )->0,
{
    match parsed {
        Ok(scheme) => {
            let http = String::from_str("http");
            let https = String::from_str("https");
            if *scheme == http || *scheme == https {
                Ok(())
            } else {
                Err(
                    LoadTestError::InvalidConfig(
                        joined("URL must use http or https scheme, got: ", scheme.as_str()),
                    ),
                )
            }
        },
        Err(e) => {
            let mut msg = joined("Invalid URL '", url);
            msg.append("': ");
            msg.append(e.as_str());
            Err(LoadTestError::InvalidConfig(msg))
        },
    }
}

/// Validates a configuration before a run: there is at least one request,
/// the URL is not empty, parses, and has the scheme `http` or `https`.
pub fn validate_config(config: &LoadTestConfig) -> (r: Result<(), LoadTestError>)
    ensures
        r is Ok <==> config_rejection(
            config.num_requests,
            config.url@,
            parsed_scheme(config.url@),
        ) is None,
        r is Err ==> r->Err_0 is InvalidConfig && r->Err_0->InvalidConfig_0@ == config_rejection(
            config.num_requests,
            config.url@,
            parsed_scheme(config.url@),
        )->0,
{
    if config.num_requests == 0 {
        return Err(
            LoadTestError::InvalidConfig(String::from_str("num_requests must be greater than 0")),
        );
    }
    if config.url.as_str().is_empty() {
        return Err(LoadTestError::InvalidConfig(String::from_str("URL cannot be empty")));
    }
    let parsed = parse_scheme(config.url.as_str());
    check_parsed_url(config.url.as_str(), &parsed)
}

} // verus!
