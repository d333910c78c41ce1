//! The HTTP client of a run: the policy that the configuration asks for,
//! and the client built to it.

use vstd::prelude::*;
use vstd::string::*;
use crate::config::LoadTestConfig;
use crate::errors::LoadTestError;
use crate::text::{has_prefix, joined};

verus! {

/// TCP keepalive probes go out every so many seconds.
pub const TCP_KEEPALIVE_SECS: u64 = 15;

/// A connection must be established within so many seconds.
pub const CONNECT_TIMEOUT_SECS: u64 = 30;

/// With keep-alive, an idle connection is closed after so many
/// milliseconds: sooner than servers close theirs.
pub const POOL_IDLE_TIMEOUT_MS: u64 = 100;

/// The pool keeps at most this many idle connections per host.
pub const POOL_SIZE_CAP: u32 = 500;

/// The HTTP version that a client speaks.
#[derive(Debug, Clone, Copy, PartialEq, Eq, Structural)]
pub enum HttpVersion {
    /// HTTP/1.1 only.
    Http1Only,
    /// HTTP/2 without negotiation.
    Http2PriorKnowledge,
}

/// The policy of a client.
#[derive(Debug, Clone, PartialEq, Eq)]
pub struct ClientPlan {
    /// Whether Nagle's algorithm is switched off.
    pub tcp_nodelay: bool,
    pub tcp_keepalive_secs: u64,
    pub connect_timeout_secs: u64,
    /// How many idle connections per host the pool keeps.
    pub pool_max_idle_per_host: usize,
    /// After how long an idle connection is closed; `None` leaves the
    /// transport's own setting.
    pub pool_idle_timeout_ms: Option<u64>,
    /// The timeout of a request; `None` for no timeout.
    pub timeout_ms: Option<u64>,
    pub http_version: HttpVersion,
    pub follow_redirects: bool,
    /// The proxy that all requests go through, with its scheme.
    pub proxy_url: Option<String>,
}

/// The proxy URL with a scheme: as given where it begins with `http://` or
/// `https://`, else behind `http://`.
pub open spec fn normalized_proxy(proxy: Seq<char>) -> Seq<char> {
    if "http://"@.is_prefix_of(proxy) || "https://"@.is_prefix_of(proxy) {
        proxy
    } else {
        "http://"@ + proxy
    }
}

/// How many idle connections per host the pool keeps: none without
/// keep-alive, else one for each request in flight, up to the cap.
pub open spec fn pool_size(disable_keep_alive: bool, concurrency: u32) -> usize {
    if disable_keep_alive {
        0
    } else if concurrency < POOL_SIZE_CAP {
        concurrency as usize
    } else {
        POOL_SIZE_CAP as usize
    }
}

/// Whether `plan` is the policy that `config` asks for with `concurrency`
/// requests in flight.
pub open spec fn is_client_plan(plan: &ClientPlan, config: &LoadTestConfig, concurrency: u32) -> bool {
    &&& plan.tcp_nodelay
    &&& plan.tcp_keepalive_secs == TCP_KEEPALIVE_SECS
    &&& plan.connect_timeout_secs == CONNECT_TIMEOUT_SECS
    &&& plan.pool_max_idle_per_host == pool_size(config.disable_keep_alive, concurrency)
    &&& plan.pool_idle_timeout_ms == if config.disable_keep_alive {
        None
    } else {
        Some(POOL_IDLE_TIMEOUT_MS)
    }
    &&& plan.timeout_ms == if config.timeout_ms > 0 {
        Some(config.timeout_ms)
    } else {
        None
    }
    &&& plan.http_version == if config.use_http2 {
        HttpVersion::Http2PriorKnowledge
    } else {
        HttpVersion::Http1Only
    }
    &&& plan.follow_redirects == config.follow_redirects
    &&& plan.proxy_url is Some <==> config.proxy_url@.len() > 0
    &&& plan.proxy_url is Some ==> plan.proxy_url->0@ == normalized_proxy(config.proxy_url@)
}

/// Gives a proxy URL its scheme.
pub fn normalize_proxy(proxy: &str) -> (out: String)
    ensures
        out@ == normalized_proxy(proxy@),
{
    if has_prefix(proxy, "http://") || has_prefix(proxy, "https://") {
        String::from_str(proxy)
    } else {
        joined("http://", proxy)
    }
}

/// Settles the policy of the client of a run.
pub fn plan_http_client(config: &LoadTestConfig, concurrency: u32) -> (plan: ClientPlan)
    ensures
        is_client_plan(&plan, config, concurrency),
{
    let pool_max_idle_per_host: usize = if config.disable_keep_alive {
        0
    } else if concurrency < POOL_SIZE_CAP {
        concurrency as usize
    } else {
        POOL_SIZE_CAP as usize
    };
    let pool_idle_timeout_ms = if config.disable_keep_alive {
        None
    } else {
        Some(POOL_IDLE_TIMEOUT_MS)
    };
    let timeout_ms = if config.timeout_ms > 0 {
        Some(config.timeout_ms)
    } else {
        None
    };
    let http_version = if config.use_http2 {
        HttpVersion::Http2PriorKnowledge
    } else {
        HttpVersion::Http1Only
    };
    let proxy_url = if !config.proxy_url.as_str().is_empty() {
        Some(normalize_proxy(config.proxy_url.as_str()))
    } else {
        None
    };
    ClientPlan {
        tcp_nodelay: true,
        tcp_keepalive_secs: TCP_KEEPALIVE_SECS,
        connect_timeout_secs: CONNECT_TIMEOUT_SECS,
        pool_max_idle_per_host,
        pool_idle_timeout_ms,
        timeout_ms,
        http_version,
        follow_redirects: config.follow_redirects,
        proxy_url,
    }
}

#[verifier::external_type_specification]
#[verifier::external_body]
pub struct ExClientBuilder(reqwest::ClientBuilder);

#[verifier::external_type_specification]
#[verifier::external_body]
pub struct ExClient(reqwest::Client);

#[verifier::external_type_specification]
#[verifier::external_body]
pub struct ExProxy(reqwest::Proxy);

/// Calls `reqwest::Client::builder`. Nothing is claimed of the builder.
#[verifier::external_body]
fn new_builder() -> reqwest::ClientBuilder {
    reqwest::Client::builder()
}

/// Calls `reqwest::ClientBuilder::tcp_nodelay`. Nothing is claimed of the
/// builder.
#[verifier::external_body]
fn with_tcp_nodelay(builder: reqwest::ClientBuilder, on: bool) -> reqwest::ClientBuilder {
    builder.tcp_nodelay(on)
}

/// Calls `reqwest::ClientBuilder::tcp_keepalive` with a duration of whole
/// seconds. Nothing is claimed of the builder.
#[verifier::external_body]
fn with_tcp_keepalive(builder: reqwest::ClientBuilder, secs: u64) -> reqwest::ClientBuilder {
    builder.tcp_keepalive(std::time::Duration::from_secs(secs))
}

/// Calls `reqwest::ClientBuilder::connect_timeout` with a duration of whole
/// seconds. Nothing is claimed of the builder.
#[verifier::external_body]
fn with_connect_timeout(builder: reqwest::ClientBuilder, secs: u64) -> reqwest::ClientBuilder {
    builder.connect_timeout(std::time::Duration::from_secs(secs))
}

/// Calls `reqwest::ClientBuilder::pool_max_idle_per_host`. Nothing is
/// claimed of the builder.
#[verifier::external_body]
fn with_pool_max_idle(builder: reqwest::ClientBuilder, max: usize) -> reqwest::ClientBuilder {
    builder.pool_max_idle_per_host(max)
}

/// Calls `reqwest::ClientBuilder::pool_idle_timeout` with a duration of
/// whole milliseconds. Nothing is claimed of the builder.
#[verifier::external_body]
fn with_pool_idle_timeout(builder: reqwest::ClientBuilder, millis: u64) -> reqwest::ClientBuilder {
    builder.pool_idle_timeout(std::time::Duration::from_millis(millis))
}

/// Calls `reqwest::ClientBuilder::timeout` with a duration of whole
/// milliseconds. Nothing is claimed of the builder.
#[verifier::external_body]
fn with_timeout(builder: reqwest::ClientBuilder, millis: u64) -> reqwest::ClientBuilder {
    builder.timeout(std::time::Duration::from_millis(millis))
}

/// Calls `reqwest::ClientBuilder::http1_only`. Nothing is claimed of the
/// builder.
#[verifier::external_body]
fn with_http1_only(builder: reqwest::ClientBuilder) -> reqwest::ClientBuilder {
    builder.http1_only()
}

/// Calls `reqwest::ClientBuilder::http2_prior_knowledge`. Nothing is claimed
/// of the builder.
#[verifier::external_body]
fn with_http2_prior_knowledge(builder: reqwest::ClientBuilder) -> reqwest::ClientBuilder {
    builder.http2_prior_knowledge()
}

/// Calls `reqwest::ClientBuilder::redirect` with the policy
/// `reqwest::redirect::Policy::none`. Nothing is claimed of the builder.
#[verifier::external_body]
fn without_redirects(builder: reqwest::ClientBuilder) -> reqwest::ClientBuilder {
    builder.redirect(reqwest::redirect::Policy::none())
}

/// Calls `reqwest::ClientBuilder::proxy`. Nothing is claimed of the
/// builder.
#[verifier::external_body]
fn with_proxy(builder: reqwest::ClientBuilder, proxy: reqwest::Proxy) -> reqwest::ClientBuilder {
    builder.proxy(proxy)
}

/// Why `reqwest::Proxy::all` rejects a proxy URL, in the words of its
/// error; `None` where it accepts the URL.
pub uninterp spec fn proxy_rejection(url: Seq<char>) -> Option<Seq<char>>;

/// Calls `reqwest::Proxy::all`, which parses the URL, and hands back the
/// proxy or the error's message (its `Display`). The contract only names
/// whether and why the URL is rejected: the grammar is the transport's.
#[verifier::external_body]
fn parse_proxy(url: &str) -> (r: Result<reqwest::Proxy, String>)
    ensures
        match r {
            Ok(_) => proxy_rejection(url@) is None,
            Err(e) => proxy_rejection(url@) == Some(e@),
        },
{
    match reqwest::Proxy::all(url) {
        Ok(proxy) => Ok(proxy),
        Err(e) => Err(e.to_string()),
    }
}

/// Calls `reqwest::ClientBuilder::build` and hands back the client or the
/// error's message (its `Display`). Whether the build succeeds depends on the
/// machine; nothing is claimed of the outcome.
#[verifier::external_body]
fn finish_builder(builder: reqwest::ClientBuilder) -> Result<reqwest::Client, String> {
    match builder.build() {
        Ok(client) => Ok(client),
        Err(e) => Err(e.to_string()),
    }
}

/// The words for a proxy URL that was rejected.
pub open spec fn invalid_proxy_text(url: Seq<char>, reason: Seq<char>) -> Seq<char> {
    "Invalid proxy URL '"@ + url + "': "@ + reason
}

/// The error for a proxy URL that was rejected for `reason`.
pub fn invalid_proxy_error(url: &str, reason: &str) -> (e: LoadTestError)
    ensures
        e is InvalidConfig,
        e->InvalidConfig_0@ == invalid_proxy_text(url@, reason@),
{
    let mut msg = joined("Invalid proxy URL '", url);
    msg.append("': ");
    msg.append(reason);
    LoadTestError::InvalidConfig(msg)
}

/// The outcome of building a client: the client, or the transport's message
/// as a `ClientBuild` error.
pub fn client_from(built: Result<reqwest::Client, String>) -> (r: Result<
    reqwest::Client,
    LoadTestError,
>)
    ensures
        r is Ok <==> built is Ok,
        built is Ok ==> r->Ok_0 == built->Ok_0,
        built is Err ==> r->Err_0 == LoadTestError::ClientBuild(built->Err_0),
{
    match built {
        Ok(client) => Ok(client),
        Err(message) => Err(LoadTestError::ClientBuild(message)),
    }
}

/// Whether the proxy that `config` names, if any, is accepted.
pub open spec fn proxy_accepted(config: &LoadTestConfig) -> bool {
    config.proxy_url@.len() == 0 || proxy_rejection(normalized_proxy(config.proxy_url@)) is None
}

/// Builds the client of a run to the policy of `plan_http_client`. A proxy
/// URL that is rejected, and nothing else, fails the build with
/// `InvalidConfig`; otherwise the build ends as the transport's build does,
/// a failure as `ClientBuild`.
pub fn build_http_client(config: &LoadTestConfig, concurrency: u32) -> (r: Result<
    reqwest::Client,
    LoadTestError,
>)
    ensures
        r is Ok ==> proxy_accepted(config),
        r is Err ==> (r->Err_0 is InvalidConfig || r->Err_0 is ClientBuild),
        r is Err && r->Err_0 is ClientBuild ==> proxy_accepted(config),
        r is Err && r->Err_0 is InvalidConfig ==> !proxy_accepted(config),
        !proxy_accepted(config) ==> r is Err && r->Err_0 is InvalidConfig
            && r->Err_0->InvalidConfig_0@ == invalid_proxy_text(
            normalized_proxy(config.proxy_url@),
            proxy_rejection(normalized_proxy(config.proxy_url@))->0,
        ),
{
    let plan = plan_http_client(config, concurrency);
    let mut builder = new_builder();
    builder = with_tcp_nodelay(builder, plan.tcp_nodelay);
    builder = with_tcp_keepalive(builder, plan.tcp_keepalive_secs);
    builder = with_connect_timeout(builder, plan.connect_timeout_secs);
    builder = with_pool_max_idle(builder, plan.pool_max_idle_per_host);
    match plan.pool_idle_timeout_ms {
        Some(millis) => {
            builder = with_pool_idle_timeout(builder, millis);
        },
        None => {},
    }
    match plan.timeout_ms {
        Some(millis) => {
            builder = with_timeout(builder, millis);
        },
        None => {},
    }
    match plan.http_version {
        HttpVersion::Http1Only => {
            builder = with_http1_only(builder);
        },
        HttpVersion::Http2PriorKnowledge => {
            builder = with_http2_prior_knowledge(builder);
        },
    }
    if !plan.follow_redirects {
        builder = without_redirects(builder);
    }
    match &plan.proxy_url {
        Some(url) => {
            match parse_proxy(url.as_str()) {
                Ok(proxy) => {
                    builder = with_proxy(builder, proxy);
                },
                Err(reason) => {
                    return Err(invalid_proxy_error(url.as_str(), reason.as_str()));
                },
            }
        },
        None => {},
    }
    client_from(finish_builder(builder))
}

} // verus!
