//! The errors that fail a run before any request is sent.

use vstd::prelude::*;
use vstd::string::*;
use crate::text::joined;

verus! {

/// Why a run could not start or finish.
#[derive(Debug, Clone, PartialEq, Eq)]
pub enum LoadTestError {
    /// The HTTP transport could not be built; holds the transport's message.
    ClientBuild(String),
    /// The run was cancelled by the user.
    Cancelled,
    /// The configuration was rejected; holds the reason.
    InvalidConfig(String),
    /// The engine itself failed; holds the reason.
    Internal(String),
}

impl LoadTestError {
    /// The single human-readable line that stands for this error.
    pub open spec fn message_text(self) -> Seq<char> {
        match self {
            LoadTestError::ClientBuild(m) => "HTTP client error: "@ + m@,
            LoadTestError::Cancelled => "Test cancelled by user"@,
            LoadTestError::InvalidConfig(m) => "Invalid configuration: "@ + m@,
            LoadTestError::Internal(m) => "Internal error: "@ + m@,
        }
    }

    /// Renders the error as the line shown to the host.
    pub fn message(&self) -> (s: String)
        ensures
            s@ == self.message_text(),
    {
        match self {
            LoadTestError::ClientBuild(m) => joined("HTTP client error: ", m.as_str()),
            LoadTestError::Cancelled => String::from_str("Test cancelled by user"),
            LoadTestError::InvalidConfig(m) => joined("Invalid configuration: ", m.as_str()),
            LoadTestError::Internal(m) => joined("Internal error: ", m.as_str()),
        }
    }
}

} // verus!
