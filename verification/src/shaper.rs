//! Shapes one request: the URL with its cache buster, the headers in the
//! order they are set, and which body goes out.

use rand::seq::SliceRandom;
use rand::Rng;
use vstd::prelude::*;
use vstd::string::*;
use vstd::seq_lib::*;
use crate::client::{ClientPlan, HttpVersion, is_client_plan};
use crate::config::{CustomHeader, header_views, HttpMethod, LoadTestConfig};
use crate::counters::{fresh_connections_needed, TestCounters};
use crate::prepare::TestConfig;
use crate::text::{append_decimal, contains_char, decimal, eq_ignore_ascii_case, eq_ignoring_ascii_case};

verus! {

/// How many User-Agent texts a request may pick from.
pub const USER_AGENT_COUNT: usize = 15;

/// How many Accept-Language texts a request may pick from.
pub const ACCEPT_LANGUAGE_COUNT: usize = 9;

/// How many media types the Accept header lists.
pub const ACCEPT_TOKEN_COUNT: usize = 5;

/// The `i`-th User-Agent text of the pool.
pub open spec fn user_agent_text(i: int) -> Seq<char> {
    if i == 0 {
        "Mozilla/5.0 (Windows NT 10.0; Win64; x64) AppleWebKit/537.36 (KHTML, like Gecko) Chrome/120.0.0.0 Safari/537.36"@
    } else if i == 1 {
        "Mozilla/5.0 (Windows NT 10.0; Win64; x64) AppleWebKit/537.36 (KHTML, like Gecko) Chrome/119.0.0.0 Safari/537.36"@
    } else if i == 2 {
        "Mozilla/5.0 (Macintosh; Intel Mac OS X 10_15_7) AppleWebKit/537.36 (KHTML, like Gecko) Chrome/120.0.0.0 Safari/537.36"@
    } else if i == 3 {
        "Mozilla/5.0 (Macintosh; Intel Mac OS X 10_15_7) AppleWebKit/537.36 (KHTML, like Gecko) Chrome/119.0.0.0 Safari/537.36"@
    } else if i == 4 {
        "Mozilla/5.0 (Windows NT 10.0; Win64; x64; rv:121.0) Gecko/20100101 Firefox/121.0"@
    } else if i == 5 {
        "Mozilla/5.0 (Windows NT 10.0; Win64; x64; rv:120.0) Gecko/20100101 Firefox/120.0"@
    } else if i == 6 {
        "Mozilla/5.0 (Macintosh; Intel Mac OS X 10.15; rv:121.0) Gecko/20100101 Firefox/121.0"@
    } else if i == 7 {
        "Mozilla/5.0 (Macintosh; Intel Mac OS X 10.15; rv:120.0) Gecko/20100101 Firefox/120.0"@
    } else if i == 8 {
        "Mozilla/5.0 (Macintosh; Intel Mac OS X 10_15_7) AppleWebKit/605.1.15 (KHTML, like Gecko) Version/17.2 Safari/605.1.15"@
    } else if i == 9 {
        "Mozilla/5.0 (Macintosh; Intel Mac OS X 10_15_7) AppleWebKit/605.1.15 (KHTML, like Gecko) Version/17.1 Safari/605.1.15"@
    } else if i == 10 {
        "Mozilla/5.0 (Windows NT 10.0; Win64; x64) AppleWebKit/537.36 (KHTML, like Gecko) Chrome/120.0.0.0 Safari/537.36 Edg/120.0.0.0"@
    } else if i == 11 {
        "Mozilla/5.0 (Windows NT 10.0; Win64; x64) AppleWebKit/537.36 (KHTML, like Gecko) Chrome/119.0.0.0 Safari/537.36 Edg/119.0.0.0"@
    } else if i == 12 {
        "Mozilla/5.0 (X11; Linux x86_64) AppleWebKit/537.36 (KHTML, like Gecko) Chrome/120.0.0.0 Safari/537.36"@
    } else if i == 13 {
        "Mozilla/5.0 (X11; Linux x86_64) AppleWebKit/537.36 (KHTML, like Gecko) Chrome/119.0.0.0 Safari/537.36"@
    } else {
        "Mozilla/5.0 (X11; Linux x86_64; rv:121.0) Gecko/20100101 Firefox/121.0"@
    }
}

/// The `i`-th User-Agent text of the pool.
pub fn user_agent(i: usize) -> (s: &'static str)
    requires
        i < USER_AGENT_COUNT,
    ensures
        s@ == user_agent_text(i as int),
{
    if i == 0 {
        "Mozilla/5.0 (Windows NT 10.0; Win64; x64) AppleWebKit/537.36 (KHTML, like Gecko) Chrome/120.0.0.0 Safari/537.36"
    } else if i == 1 {
        "Mozilla/5.0 (Windows NT 10.0; Win64; x64) AppleWebKit/537.36 (KHTML, like Gecko) Chrome/119.0.0.0 Safari/537.36"
    } else if i == 2 {
        "Mozilla/5.0 (Macintosh; Intel Mac OS X 10_15_7) AppleWebKit/537.36 (KHTML, like Gecko) Chrome/120.0.0.0 Safari/537.36"
    } else if i == 3 {
        "Mozilla/5.0 (Macintosh; Intel Mac OS X 10_15_7) AppleWebKit/537.36 (KHTML, like Gecko) Chrome/119.0.0.0 Safari/537.36"
    } else if i == 4 {
        "Mozilla/5.0 (Windows NT 10.0; Win64; x64; rv:121.0) Gecko/20100101 Firefox/121.0"
    } else if i == 5 {
        "Mozilla/5.0 (Windows NT 10.0; Win64; x64; rv:120.0) Gecko/20100101 Firefox/120.0"
    } else if i == 6 {
        "Mozilla/5.0 (Macintosh; Intel Mac OS X 10.15; rv:121.0) Gecko/20100101 Firefox/121.0"
    } else if i == 7 {
        "Mozilla/5.0 (Macintosh; Intel Mac OS X 10.15; rv:120.0) Gecko/20100101 Firefox/120.0"
    } else if i == 8 {
        "Mozilla/5.0 (Macintosh; Intel Mac OS X 10_15_7) AppleWebKit/605.1.15 (KHTML, like Gecko) Version/17.2 Safari/605.1.15"
    } else if i == 9 {
        "Mozilla/5.0 (Macintosh; Intel Mac OS X 10_15_7) AppleWebKit/605.1.15 (KHTML, like Gecko) Version/17.1 Safari/605.1.15"
    } else if i == 10 {
        "Mozilla/5.0 (Windows NT 10.0; Win64; x64) AppleWebKit/537.36 (KHTML, like Gecko) Chrome/120.0.0.0 Safari/537.36 Edg/120.0.0.0"
    } else if i == 11 {
        "Mozilla/5.0 (Windows NT 10.0; Win64; x64) AppleWebKit/537.36 (KHTML, like Gecko) Chrome/119.0.0.0 Safari/537.36 Edg/119.0.0.0"
    } else if i == 12 {
        "Mozilla/5.0 (X11; Linux x86_64) AppleWebKit/537.36 (KHTML, like Gecko) Chrome/120.0.0.0 Safari/537.36"
    } else if i == 13 {
        "Mozilla/5.0 (X11; Linux x86_64) AppleWebKit/537.36 (KHTML, like Gecko) Chrome/119.0.0.0 Safari/537.36"
    } else {
        "Mozilla/5.0 (X11; Linux x86_64; rv:121.0) Gecko/20100101 Firefox/121.0"
    }
}

/// The `i`-th Accept-Language text of the pool.
pub open spec fn accept_language_text(i: int) -> Seq<char> {
    if i == 0 {
        "en-US,en;q=0.9"@
    } else if i == 1 {
        "en-GB,en;q=0.9"@
    } else if i == 2 {
        "en-US,en;q=0.9,es;q=0.8"@
    } else if i == 3 {
        "en-US,en;q=0.9,fr;q=0.8"@
    } else if i == 4 {
        "en-US,en;q=0.9,de;q=0.8"@
    } else if i == 5 {
        "de-DE,de;q=0.9,en;q=0.8"@
    } else if i == 6 {
        "fr-FR,fr;q=0.9,en;q=0.8"@
    } else if i == 7 {
        "es-ES,es;q=0.9,en;q=0.8"@
    } else {
        "en,*;q=0.5"@
    }
}

/// The `i`-th Accept-Language text of the pool.
pub fn accept_language(i: usize) -> (s: &'static str)
    requires
        i < ACCEPT_LANGUAGE_COUNT,
    ensures
        s@ == accept_language_text(i as int),
{
    if i == 0 {
        "en-US,en;q=0.9"
    } else if i == 1 {
        "en-GB,en;q=0.9"
    } else if i == 2 {
        "en-US,en;q=0.9,es;q=0.8"
    } else if i == 3 {
        "en-US,en;q=0.9,fr;q=0.8"
    } else if i == 4 {
        "en-US,en;q=0.9,de;q=0.8"
    } else if i == 5 {
        "de-DE,de;q=0.9,en;q=0.8"
    } else if i == 6 {
        "fr-FR,fr;q=0.9,en;q=0.8"
    } else if i == 7 {
        "es-ES,es;q=0.9,en;q=0.8"
    } else {
        "en,*;q=0.5"
    }
}

/// The `i`-th media type of the Accept header.
pub open spec fn accept_token_text(i: int) -> Seq<char> {
    if i == 0 {
        "application/json"@
    } else if i == 1 {
        "text/html"@
    } else if i == 2 {
        "application/xhtml+xml"@
    } else if i == 3 {
        "application/xml;q=0.9"@
    } else {
        "*/*;q=0.8"@
    }
}

/// The `i`-th media type of the Accept header.
pub fn accept_token(i: usize) -> (s: &'static str)
    requires
        i < ACCEPT_TOKEN_COUNT,
    ensures
        s@ == accept_token_text(i as int),
{
    if i == 0 {
        "application/json"
    } else if i == 1 {
        "text/html"
    } else if i == 2 {
        "application/xhtml+xml"
    } else if i == 3 {
        "application/xml;q=0.9"
    } else {
        "*/*;q=0.8"
    }
}

/// The media types of the Accept header in the order they are listed in.
pub open spec fn listed_order() -> Seq<usize> {
    seq![0usize, 1usize, 2usize, 3usize, 4usize]
}

/// What one request takes from the clock and from chance.
#[derive(Debug, Clone, PartialEq, Eq)]
pub struct RandomDraws {
    /// Nanoseconds since the epoch, for the cache buster.
    pub unix_nanos: u128,
    /// A random number, for the cache buster.
    pub suffix: u32,
    /// Which User-Agent text to send.
    pub user_agent: usize,
    /// Which Accept-Language text to send.
    pub accept_language: usize,
    /// Whether the platform hint names Windows; else it names macOS.
    pub windows: bool,
    /// The order in which the Accept header lists its media types.
    pub accept_order: Vec<usize>,
}

impl RandomDraws {
    /// The picks are within their pools, and the order lists each media
    /// type once.
    pub open spec fn wf(&self) -> bool {
        &&& self.user_agent < USER_AGENT_COUNT
        &&& self.accept_language < ACCEPT_LANGUAGE_COUNT
        &&& self.accept_order@.len() == ACCEPT_TOKEN_COUNT
        &&& forall|i: int|
            0 <= i < self.accept_order@.len() ==> self.accept_order@[i] < ACCEPT_TOKEN_COUNT
        &&& self.accept_order@.no_duplicates()
    }
}

/// Which body a request carries.
#[derive(Debug, Clone, Copy, PartialEq, Eq, Structural)]
pub enum BodyPlan {
    /// No body.
    Empty,
    /// The configured body.
    Raw,
    /// The multipart form, built from the form fields of the run.
    Multipart,
}

/// One request, ready to be handed to the transport.
#[derive(Debug, Clone, PartialEq, Eq)]
pub struct RequestPlan {
    pub url: String,
    pub method: HttpMethod,
    /// The headers, in the order they are set.
    pub headers: Vec<CustomHeader>,
    pub body: BodyPlan,
}

/// The query parameter that keeps caches from answering.
pub open spec fn cache_buster_text(unix_nanos: u128, suffix: u32) -> Seq<char> {
    "_cb="@ + decimal(unix_nanos as nat) + "_"@ + decimal(suffix as nat)
}

/// The URL a request goes to: with a cache buster, the configured URL
/// followed by `&` where it already holds a `?`, else by `?`, and the
/// parameter.
pub open spec fn shaped_url(url: Seq<char>, add_cache_buster: bool, unix_nanos: u128, suffix: u32) -> Seq<
    char,
> {
    if !add_cache_buster {
        url
    } else if url.contains('?') {
        url + "&"@ + cache_buster_text(unix_nanos, suffix)
    } else {
        url + "?"@ + cache_buster_text(unix_nanos, suffix)
    }
}

/// The header that asks for the connection to be closed, if it is set.
pub open spec fn connection_headers(close: bool) -> Seq<(Seq<char>, Seq<char>)> {
    if close {
        seq![("Connection"@, "close"@)]
    } else {
        seq![]
    }
}

/// The User-Agent header, if one is picked.
pub open spec fn user_agent_headers(randomize: bool, pick: int) -> Seq<(Seq<char>, Seq<char>)> {
    if randomize {
        seq![("User-Agent"@, user_agent_text(pick))]
    } else {
        seq![]
    }
}

/// The value of the Accept header: the media types in the given order,
/// joined by a comma and a space.
pub open spec fn accept_text(order: Seq<usize>) -> Seq<char> {
    accept_token_text(order[0] as int) + ", "@ + accept_token_text(order[1] as int) + ", "@
        + accept_token_text(order[2] as int) + ", "@ + accept_token_text(order[3] as int) + ", "@
        + accept_token_text(order[4] as int)
}

/// The value of the platform hint.
pub open spec fn platform_text(windows: bool) -> Seq<char> {
    if windows {
        "\"Windows\""@
    } else {
        "\"macOS\""@
    }
}

/// The headers that make a request look like a browser's, if they are set.
pub open spec fn browser_headers(randomize: bool, language: int, windows: bool, order: Seq<usize>) -> Seq<
    (Seq<char>, Seq<char>),
> {
    if randomize {
        seq![
            ("Accept-Language"@, accept_language_text(language)),
            ("Sec-Fetch-Dest"@, "empty"@),
            ("Sec-Fetch-Mode"@, "cors"@),
            ("Sec-Fetch-Site"@, "cross-site"@),
            ("Sec-Ch-Ua-Mobile"@, "?0"@),
            ("Sec-Ch-Ua-Platform"@, platform_text(windows)),
            ("Accept"@, accept_text(order)),
        ]
    } else {
        seq![]
    }
}

/// The first `upto` configured headers, without those whose name is empty.
pub open spec fn custom_headers(headers: Seq<CustomHeader>, upto: int) -> Seq<(Seq<char>, Seq<char>)>
    decreases upto,
{
    if upto <= 0 {
        seq![]
    } else if headers[upto - 1].key@.len() > 0 {
        custom_headers(headers, upto - 1).push(headers[upto - 1]@)
    } else {
        custom_headers(headers, upto - 1)
    }
}

/// Whether one of the first `upto` configured headers is a Content-Type
/// header, whatever the case of its name.
pub open spec fn names_content_type(headers: Seq<CustomHeader>, upto: int) -> bool {
    exists|i: int| 0 <= i < upto && eq_ignoring_ascii_case(headers[i].key@, "Content-Type"@)
}

/// Which body a request of this run carries: the form if there is one; else
/// the body if it is not empty; else none.
pub open spec fn planned_body(config: &TestConfig) -> BodyPlan {
    if config.form_fields is Some {
        BodyPlan::Multipart
    } else if config.body is Some && config.body->0@.len() > 0 {
        BodyPlan::Raw
    } else {
        BodyPlan::Empty
    }
}

/// The Content-Type header that goes with the configured body, if the
/// configuration names a type and no configured header sets one.
pub open spec fn content_type_headers(config: &TestConfig) -> Seq<(Seq<char>, Seq<char>)> {
    if planned_body(config) == BodyPlan::Raw && !names_content_type(
        config.headers@,
        config.headers@.len() as int,
    ) && config.payload_content_type is Some {
        seq![("Content-Type"@, config.payload_content_type->0@)]
    } else {
        seq![]
    }
}

/// The headers of a request, in the order they are set.
pub open spec fn shaped_headers(config: &TestConfig, force_fresh: bool, draws: &RandomDraws) -> Seq<
    (Seq<char>, Seq<char>),
> {
    connection_headers(config.disable_keep_alive || force_fresh) + user_agent_headers(
        config.randomize_user_agent,
        draws.user_agent as int,
    ) + browser_headers(
        config.randomize_headers,
        draws.accept_language as int,
        draws.windows,
        draws.accept_order@,
    ) + custom_headers(config.headers@, config.headers@.len() as int) + content_type_headers(
        config,
    )
}

/// Whether `plan` is the request that `config` asks for, given whether a
/// fresh connection is forced and what was drawn.
pub open spec fn plan_matches(
    plan: &RequestPlan,
    config: &TestConfig,
    force_fresh: bool,
    draws: &RandomDraws,
) -> bool {
    &&& plan.url@ == shaped_url(
        config.url@,
        config.add_cache_buster,
        draws.unix_nanos,
        draws.suffix,
    )
    &&& plan.method == config.method
    &&& header_views(plan.headers@) == shaped_headers(config, force_fresh, draws)
    &&& plan.body == planned_body(config)
}

/// Without keep-alive and without HTTP/2 the client speaks HTTP/1.1 only and
/// keeps no idle connection, and every request begins with the header that
/// asks for its connection to be closed.
pub proof fn lemma_no_keep_alive_closes_every_connection(
    client: &ClientPlan,
    run: &LoadTestConfig,
    concurrency: u32,
    request: &RequestPlan,
    config: &TestConfig,
    force_fresh: bool,
    draws: &RandomDraws,
)
    requires
        is_client_plan(client, run, concurrency),
        run.disable_keep_alive,
        !run.use_http2,
        config.disable_keep_alive,
        plan_matches(request, config, force_fresh, draws),
    ensures
        client.http_version == HttpVersion::Http1Only,
        client.pool_max_idle_per_host == 0,
        header_views(request.headers@).len() > 0,
        header_views(request.headers@)[0] == ("Connection"@, "close"@),
{
    let rest = user_agent_headers(config.randomize_user_agent, draws.user_agent as int)
        + browser_headers(
        config.randomize_headers,
        draws.accept_language as int,
        draws.windows,
        draws.accept_order@,
    ) + custom_headers(config.headers@, config.headers@.len() as int) + content_type_headers(
        config,
    );
    assert(shaped_headers(config, force_fresh, draws) =~= connection_headers(true) + rest);
}

fn push_header(headers: &mut Vec<CustomHeader>, key: &str, value: &str)
    ensures
        header_views(final(headers)@) == header_views(old(headers)@).push((key@, value@)),
{
    headers.push(CustomHeader { key: String::from_str(key), value: String::from_str(value) });
    assert(header_views(headers@) =~= header_views(old(headers)@).push((key@, value@)));
}

/// Builds the URL of a request.
pub fn shape_url(url: &str, add_cache_buster: bool, unix_nanos: u128, suffix: u32) -> (out: String)
    ensures
        out@ == shaped_url(url@, add_cache_buster, unix_nanos, suffix),
{
    let mut out = String::from_str(url);
    if add_cache_buster {
        if contains_char(url, '?') {
            out.append("&");
        } else {
            out.append("?");
        }
        out.append("_cb=");
        append_decimal(&mut out, unix_nanos);
        out.append("_");
        append_decimal(&mut out, suffix as u128);
        assert(out@ =~= shaped_url(url@, add_cache_buster, unix_nanos, suffix));
    }
    out
}

/// Builds the value of the Accept header.
pub fn accept_value(order: &Vec<usize>) -> (out: String)
    requires
        order@.len() == ACCEPT_TOKEN_COUNT,
        forall|i: int| 0 <= i < order@.len() ==> order@[i] < ACCEPT_TOKEN_COUNT,
    ensures
        out@ == accept_text(order@),
{
    let mut out = String::from_str(accept_token(order[0]));
    out.append(", ");
    out.append(accept_token(order[1]));
    out.append(", ");
    out.append(accept_token(order[2]));
    out.append(", ");
    out.append(accept_token(order[3]));
    out.append(", ");
    out.append(accept_token(order[4]));
    assert(out@ =~= accept_text(order@));
    out
}

/// Shapes one request from the settled configuration, from whether a fresh
/// connection is forced, and from what was drawn for it.
pub fn shape_request(config: &TestConfig, force_fresh: bool, draws: &RandomDraws) -> (plan:
    RequestPlan)
    requires
        draws.wf(),
    ensures
        plan_matches(&plan, config, force_fresh, draws),
{
    let url = shape_url(
        config.url.as_str(),
        config.add_cache_buster,
        draws.unix_nanos,
        draws.suffix,
    );
    let mut headers: Vec<CustomHeader> = Vec::new();
    assert(header_views(headers@) =~= seq![]);
    if config.disable_keep_alive || force_fresh {
        push_header(&mut headers, "Connection", "close");
    }
    assert(header_views(headers@) =~= connection_headers(config.disable_keep_alive || force_fresh));
    if config.randomize_user_agent {
        push_header(&mut headers, "User-Agent", user_agent(draws.user_agent));
    }
    let ghost after_agent = header_views(headers@);
    assert(after_agent =~= connection_headers(config.disable_keep_alive || force_fresh)
        + user_agent_headers(config.randomize_user_agent, draws.user_agent as int));
    if config.randomize_headers {
        push_header(&mut headers, "Accept-Language", accept_language(draws.accept_language));
        push_header(&mut headers, "Sec-Fetch-Dest", "empty");
        push_header(&mut headers, "Sec-Fetch-Mode", "cors");
        push_header(&mut headers, "Sec-Fetch-Site", "cross-site");
        push_header(&mut headers, "Sec-Ch-Ua-Mobile", "?0");
        let platform: &'static str = if draws.windows {
            "\"Windows\""
        } else {
            "\"macOS\""
        };
        push_header(&mut headers, "Sec-Ch-Ua-Platform", platform);
        let accept = accept_value(&draws.accept_order);
        push_header(&mut headers, "Accept", accept.as_str());
    }
    let ghost after_browser = header_views(headers@);
    assert(after_browser =~= after_agent + browser_headers(
        config.randomize_headers,
        draws.accept_language as int,
        draws.windows,
        draws.accept_order@,
    ));
    let mut has_content_type = false;
    let mut i: usize = 0;
    while i < config.headers.len()
        invariant
            i <= config.headers.len(),
            header_views(headers@) == after_browser + custom_headers(config.headers@, i as int),
            has_content_type == names_content_type(config.headers@, i as int),
        decreases config.headers.len() - i,
    {
        let header = &config.headers[i];
        let is_content_type = eq_ignore_ascii_case(header.key.as_str(), "Content-Type");
        if !header.key.as_str().is_empty() {
            push_header(&mut headers, header.key.as_str(), header.value.as_str());
        }
        if is_content_type {
            has_content_type = true;
        }
        i += 1;
        assert(header_views(headers@) =~= after_browser + custom_headers(
            config.headers@,
            i as int,
        ));
    }
    let ghost after_custom = header_views(headers@);
    let body = if config.form_fields.is_some() {
        BodyPlan::Multipart
    } else {
        match &config.body {
            Some(text) => if !text.as_str().is_empty() {
                BodyPlan::Raw
            } else {
                BodyPlan::Empty
            },
            None => BodyPlan::Empty,
        }
    };
    if body == BodyPlan::Raw && !has_content_type {
        match &config.payload_content_type {
            Some(content_type) => {
                push_header(&mut headers, "Content-Type", content_type.as_str());
            },
            None => {},
        }
    }
    assert(header_views(headers@) =~= after_custom + content_type_headers(config));
    assert(header_views(headers@) =~= shaped_headers(config, force_fresh, draws));
    RequestPlan { url, method: config.method, headers, body }
}

/// Calls `std::time::SystemTime::now` and counts the nanoseconds since the
/// epoch (`SystemTime::duration_since`, `Duration::as_nanos`); `None` where
/// the clock stands before the epoch. Nothing is claimed of the result.
#[verifier::external_body]
pub(crate) fn unix_nanos() -> Option<u128> {
    std::time::SystemTime::now().duration_since(std::time::UNIX_EPOCH).ok().map(|d| d.as_nanos())
}

/// Calls `rand::Rng::gen` on the thread's generator for a `u32`. Nothing is
/// claimed of the result.
#[verifier::external_body]
pub(crate) fn random_u32() -> u32 {
    rand::thread_rng().gen()
}

/// Calls `rand::Rng::gen_range` on the thread's generator for an index
/// below `len`. The call panics on an empty range, so `len` must be above 0;
/// the result lies in the range.
#[verifier::external_body]
pub(crate) fn random_index(len: usize) -> (i: usize)
    requires
        len > 0,
    ensures
        i < len,
{
    rand::thread_rng().gen_range(0..len)
}

/// Calls `rand::Rng::gen_ratio` on the thread's generator, which is true
/// with `numerator` chances in `denominator`. The call panics on a
/// denominator of 0 and on a numerator above the denominator, so both are
/// left out; nothing is claimed of the result.
#[verifier::external_body]
pub(crate) fn random_ratio(numerator: u32, denominator: u32) -> bool
    requires
        0 < denominator,
        numerator <= denominator,
{
    rand::thread_rng().gen_ratio(numerator, denominator)
}

/// Calls `rand::seq::SliceRandom::shuffle` on the thread's generator. The
/// shuffle swaps items in place, so the items are the same as before, each
/// as often as before.
#[verifier::external_body]
pub(crate) fn shuffle(order: &mut Vec<usize>)
    ensures
        final(order)@.to_multiset() == old(order)@.to_multiset(),
{
    order.shuffle(&mut rand::thread_rng());
}

proof fn lemma_rearranged_order(order: Seq<usize>)
    requires
        order.to_multiset() == listed_order().to_multiset(),
    ensures
        order.len() == ACCEPT_TOKEN_COUNT,
        forall|i: int| 0 <= i < order.len() ==> order[i] < ACCEPT_TOKEN_COUNT,
        order.no_duplicates(),
{
    broadcast use group_to_multiset_ensures;

    let listed = listed_order();
    assert(listed.len() == 5);
    assert(listed.no_duplicates());
    to_multiset_len(listed);
    to_multiset_len(order);
    listed.lemma_multiset_has_no_duplicates();
    order.lemma_multiset_has_no_duplicates_conv();
    assert forall|i: int| 0 <= i < order.len() implies order[i] < ACCEPT_TOKEN_COUNT by {
        assert(order.contains(order[i]));
        assert(listed.to_multiset().count(order[i]) > 0);
        assert(listed.contains(order[i]));
    }
}

/// Draws what one request of this run needs from the clock and from
/// chance. What the configuration does not ask for is not drawn.
pub fn draw_randoms(config: &TestConfig) -> (draws: RandomDraws)
    ensures
        draws.wf(),
        !config.add_cache_buster ==> draws.unix_nanos == 0 && draws.suffix == 0,
        !config.randomize_user_agent ==> draws.user_agent == 0,
        !config.randomize_headers ==> draws.accept_language == 0 && !draws.windows
            && draws.accept_order@ == listed_order(),
{
    let mut unix_nanos_now: u128 = 0;
    let mut suffix: u32 = 0;
    if config.add_cache_buster {
        unix_nanos_now = match unix_nanos() {
            Some(nanos) => nanos,
            None => 0,
        };
        suffix = random_u32();
    }
    let mut user_agent_pick: usize = 0;
    if config.randomize_user_agent {
        user_agent_pick = random_index(USER_AGENT_COUNT);
    }
    let mut accept_language_pick: usize = 0;
    let mut windows = false;
    let mut accept_order: Vec<usize> = Vec::new();
    accept_order.push(0);
    accept_order.push(1);
    accept_order.push(2);
    accept_order.push(3);
    accept_order.push(4);
    assert(accept_order@ =~= listed_order());
    if config.randomize_headers {
        accept_language_pick = random_index(ACCEPT_LANGUAGE_COUNT);
        windows = random_ratio(1, 2);
        shuffle(&mut accept_order);
    }
    proof {
        lemma_rearranged_order(accept_order@);
    }
    RandomDraws {
        unix_nanos: unix_nanos_now,
        suffix,
        user_agent: user_agent_pick,
        accept_language: accept_language_pick,
        windows,
        accept_order,
    }
}

/// Shapes the next request of a run: draws what it needs, asks the counters
/// whether a fresh connection is forced, and shapes. Whatever was drawn, the
/// request is the one that the configuration asks for with some valid draws.
pub fn make_request_plan(config: &TestConfig, counters: &TestCounters) -> (plan: RequestPlan)
    ensures
        exists|draws: RandomDraws|
            draws.wf() && #[trigger] plan_matches(
                &plan,
                config,
                fresh_connections_needed(counters.completed(), counters.connection_errors()),
                &draws,
            ),
        plan.method == config.method,
        plan.body == planned_body(config),
        !config.add_cache_buster ==> plan.url@ == config.url@,
{
    let draws = draw_randoms(config);
    let force_fresh = counters.needs_fresh_connections();
    let plan = shape_request(config, force_fresh, &draws);
    assert(plan_matches(&plan, config, force_fresh, &draws));
    plan
}

} // verus!
