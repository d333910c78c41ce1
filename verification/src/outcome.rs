//! What one request came to: the result record, and how a response or a
//! transport failure becomes one.

use vstd::prelude::*;
use vstd::string::*;
use crate::text::{append_decimal, contains_text, decimal, has_substring, joined, lowercase_of, to_lowercase};

verus! {

/// The class of a failed request.
#[derive(Debug, Clone, Copy, PartialEq, Eq, Structural)]
pub enum ErrorType {
    /// No error: the request succeeded.
    NoError,
    /// No response within the request timeout.
    Timeout,
    /// The connection could not be established or was lost.
    Connection,
    /// The request could not be built or sent.
    Request,
    /// The server answered with a status outside 200 to 299.
    Response,
    /// Redirects could not be followed.
    Redirect,
    /// Any other failure.
    Other,
}

impl Default for ErrorType {
    fn default() -> (r: Self)
        ensures
            r == ErrorType::NoError,
    {
        ErrorType::NoError
    }
}

/// The outcome of one request. Times are nanoseconds.
#[derive(Debug, Clone, PartialEq, Eq)]
pub struct RequestResult {
    /// HTTP status, 0 when no response arrived.
    pub status: u16,
    /// Wall time of sending the request and receiving the response.
    pub duration_ns: u64,
    /// Whether the status was in 200 to 299.
    pub success: bool,
    /// The failure in words, for a failed request.
    pub error: Option<String>,
    /// The class of the failure.
    pub error_type: ErrorType,
    /// Completion time, counted from the start of the run.
    pub timestamp_ns: u64,
}

/// Whether `status` is an HTTP success status.
pub open spec fn is_success_status(status: u16) -> bool {
    200 <= status < 300
}

impl RequestResult {
    /// The invariant of a result that this library made: success, the
    /// absence of an error class, the absence of an error text and a status in
    /// 200 to 299 all go together.
    pub open spec fn wf(&self) -> bool {
        &&& self.success <==> self.error_type == ErrorType::NoError
        &&& self.success <==> is_success_status(self.status)
        &&& self.success <==> self.error is None
    }

    /// When the request started: completion time less duration, not below 0.
    pub open spec fn spec_start_ns(&self) -> u64 {
        if self.timestamp_ns >= self.duration_ns {
            (self.timestamp_ns - self.duration_ns) as u64
        } else {
            0
        }
    }

    /// When the request started: completion time less duration, not below 0.
    #[verifier::when_used_as_spec(spec_start_ns)]
    pub fn start_ns(&self) -> (r: u64)
        ensures
            r == self.spec_start_ns(),
            r <= self.timestamp_ns,
    {
        if self.timestamp_ns >= self.duration_ns {
            self.timestamp_ns - self.duration_ns
        } else {
            0
        }
    }
}

/// The text `HTTP ` followed by the status in decimal.
pub open spec fn http_status_text(status: u16) -> Seq<char> {
    "HTTP "@ + decimal(status as nat)
}

/// Renders `HTTP ` followed by the status.
pub fn http_status_message(status: u16) -> (s: String)
    ensures
        s@ == http_status_text(status),
{
    let mut s = String::from_str("HTTP ");
    append_decimal(&mut s, status as u128);
    s
}

/// The result of a request that was answered with `status`.
pub fn response_result(status: u16, duration_ns: u64, timestamp_ns: u64) -> (r: RequestResult)
    ensures
        r.wf(),
        r.status == status,
        r.duration_ns == duration_ns,
        r.timestamp_ns == timestamp_ns,
        r.success == is_success_status(status),
        r.error_type == if is_success_status(status) {
            ErrorType::NoError
        } else {
            ErrorType::Response
        },
        !r.success ==> r.error->0@ == http_status_text(status),
{
    if 200 <= status && status < 300 {
        RequestResult {
            status,
            duration_ns,
            success: true,
            error: None,
            error_type: ErrorType::NoError,
            timestamp_ns,
        }
    } else {
        RequestResult {
            status,
            duration_ns,
            success: false,
            error: Some(http_status_message(status)),
            error_type: ErrorType::Response,
            timestamp_ns,
        }
    }
}

/// What the engine reads from a transport failure: the transport's own
/// classification, its message, and the messages of the causes behind it,
/// outermost first.
#[derive(Debug, Clone, PartialEq, Eq)]
pub struct TransportError {
    /// The request ran into its timeout.
    pub is_timeout: bool,
    /// The failure happened while connecting.
    pub is_connect: bool,
    /// The failure is tied to the request itself.
    pub is_request: bool,
    /// The failure came from following redirects.
    pub is_redirect: bool,
    /// The failure in the transport's words.
    pub message: String,
    /// The messages of the chain of causes.
    pub sources: Vec<String>,
}

/// The class of a transport failure: the first that applies of timeout,
/// connection, request, redirect; else other.
pub open spec fn error_class(
    is_timeout: bool,
    is_connect: bool,
    is_request: bool,
    is_redirect: bool,
) -> ErrorType {
    if is_timeout {
        ErrorType::Timeout
    } else if is_connect {
        ErrorType::Connection
    } else if is_request {
        ErrorType::Request
    } else if is_redirect {
        ErrorType::Redirect
    } else {
        ErrorType::Other
    }
}

/// The lowercase messages of the first `upto` causes, each after a space.
pub open spec fn sources_text(sources: Seq<String>, upto: int) -> Seq<char>
    decreases upto,
{
    if upto <= 0 {
        Seq::empty()
    } else {
        sources_text(sources, upto - 1) + " "@ + lowercase_of(sources[upto - 1]@)
    }
}

/// The text in which a connection failure is searched for known causes: the
/// lowercase message, then the lowercase message of each cause, joined by
/// single spaces.
pub open spec fn chain_text(message: Seq<char>, sources: Seq<String>) -> Seq<char> {
    lowercase_of(message) + sources_text(sources, sources.len() as int)
}

/// The words for a connection failure, by the first known cause that its
/// chain text names.
pub open spec fn connection_text(chain: Seq<char>, message: Seq<char>, keep_alive_disabled: bool) -> Seq<
    char,
> {
    if has_substring(chain, "dns"@) || has_substring(chain, "resolve"@) {
        "DNS resolution failed: "@ + message
    } else if has_substring(chain, "refused"@) {
        "Connection refused by server"@
    } else if has_substring(chain, "reset"@) {
        "Connection reset by server"@
    } else if has_substring(chain, "too many open files"@) || has_substring(chain, "emfile"@) {
        "Too many open connections (reduce concurrency)"@
    } else if has_substring(chain, "closed"@) || has_substring(chain, "broken pipe"@) {
        if keep_alive_disabled {
            "Connection closed by server (server may be overloaded)"@
        } else {
            "Connection closed (stale connection from pool)"@
        }
    } else {
        "Connection failed: "@ + message
    }
}

/// The words for a request that ran into its timeout after `duration_ns`.
pub open spec fn timeout_text(duration_ns: u64) -> Seq<char> {
    "Timeout after "@ + decimal((duration_ns / 1_000_000) as nat) + "ms"@
}

/// The words for a transport failure of class `class`.
pub open spec fn failure_text(
    class: ErrorType,
    chain: Seq<char>,
    message: Seq<char>,
    duration_ns: u64,
    keep_alive_disabled: bool,
) -> Seq<char> {
    match class {
        ErrorType::Timeout => timeout_text(duration_ns),
        ErrorType::Connection => connection_text(chain, message, keep_alive_disabled),
        ErrorType::Request => "Request error: "@ + message,
        ErrorType::Redirect => "Redirect error: "@ + message,
        _ => message,
    }
}

impl TransportError {
    /// The class of this failure.
    pub open spec fn class(&self) -> ErrorType {
        error_class(self.is_timeout, self.is_connect, self.is_request, self.is_redirect)
    }

    /// The words recorded for this failure.
    pub open spec fn text(&self, duration_ns: u64, keep_alive_disabled: bool) -> Seq<char> {
        failure_text(
            self.class(),
            chain_text(self.message@, self.sources@),
            self.message@,
            duration_ns,
            keep_alive_disabled,
        )
    }

    /// Classifies the failure.
    pub fn classify(&self) -> (r: ErrorType)
        ensures
            r == self.class(),
            r != ErrorType::NoError,
            r != ErrorType::Response,
    {
        if self.is_timeout {
            ErrorType::Timeout
        } else if self.is_connect {
            ErrorType::Connection
        } else if self.is_request {
            ErrorType::Request
        } else if self.is_redirect {
            ErrorType::Redirect
        } else {
            ErrorType::Other
        }
    }

    /// Builds the text that is searched for known causes.
    pub fn chain(&self) -> (s: String)
        ensures
            s@ == chain_text(self.message@, self.sources@),
    {
        let mut s = to_lowercase(self.message.as_str());
        let mut i: usize = 0;
        while i < self.sources.len()
            invariant
                i <= self.sources.len(),
                s@ == lowercase_of(self.message@) + sources_text(self.sources@, i as int),
            decreases self.sources.len() - i,
        {
            let lower = to_lowercase(self.sources[i].as_str());
            s.append(" ");
            s.append(lower.as_str());
            i += 1;
            assert(s@ =~= lowercase_of(self.message@) + sources_text(self.sources@, i as int));
        }
        s
    }

    /// Puts a connection failure in words.
    fn describe_connection(&self, keep_alive_disabled: bool) -> (s: String)
        ensures
            s@ == connection_text(
                chain_text(self.message@, self.sources@),
                self.message@,
                keep_alive_disabled,
            ),
    {
        let chain = self.chain();
        let c = chain.as_str();
        if contains_text(c, "dns") || contains_text(c, "resolve") {
            joined("DNS resolution failed: ", self.message.as_str())
        } else if contains_text(c, "refused") {
            String::from_str("Connection refused by server")
        } else if contains_text(c, "reset") {
            String::from_str("Connection reset by server")
        } else if contains_text(c, "too many open files") || contains_text(c, "emfile") {
            String::from_str("Too many open connections (reduce concurrency)")
        } else if contains_text(c, "closed") || contains_text(c, "broken pipe") {
            if keep_alive_disabled {
                String::from_str("Connection closed by server (server may be overloaded)")
            } else {
                String::from_str("Connection closed (stale connection from pool)")
            }
        } else {
            joined("Connection failed: ", self.message.as_str())
        }
    }

    /// Puts the failure in words.
    pub fn describe(&self, duration_ns: u64, keep_alive_disabled: bool) -> (s: String)
        ensures
            s@ == self.text(duration_ns, keep_alive_disabled),
    {
        match self.classify() {
            ErrorType::Timeout => {
                let mut s = String::from_str("Timeout after ");
                append_decimal(&mut s, (duration_ns / 1_000_000) as u128);
                s.append("ms");
                s
            },
            ErrorType::Connection => self.describe_connection(keep_alive_disabled),
            ErrorType::Request => joined("Request error: ", self.message.as_str()),
            ErrorType::Redirect => joined("Redirect error: ", self.message.as_str()),
            _ => self.message.clone(),
        }
    }
}

/// The result of a request that failed in the transport.
pub fn transport_error_result(
    err: &TransportError,
    duration_ns: u64,
    timestamp_ns: u64,
    keep_alive_disabled: bool,
) -> (r: RequestResult)
    ensures
        r.wf(),
        r.status == 0,
        !r.success,
        r.duration_ns == duration_ns,
        r.timestamp_ns == timestamp_ns,
        r.error_type == err.class(),
        r.error->0@ == err.text(duration_ns, keep_alive_disabled),
{
    let error_type = err.classify();
    let text = err.describe(duration_ns, keep_alive_disabled);
    RequestResult {
        status: 0,
        duration_ns,
        success: false,
        error: Some(text),
        error_type,
        timestamp_ns,
    }
}

} // verus!
