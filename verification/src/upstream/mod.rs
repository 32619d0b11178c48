//! The upstream (Nutstore WebDAV) side: responses, errors and the headers
//! that are passed on to the client.
pub mod client;
pub mod types;

pub use client::filter_forward_headers;
pub use types::UpstreamResponse;

use vstd::prelude::*;

verus! {

/// What the relay keeps of a failed transport (`reqwest::Error`): whether it
/// was a timeout, and its message.
#[derive(Debug)]
pub struct TransportError {
    pub timeout: bool,
    pub message: String,
}

/// Failures of a request to the upstream.
#[derive(Debug)]
pub enum UpstreamError {
    /// The HTTP client could not be built.
    Build(String),
    /// The request failed before a response arrived.
    Transport(TransportError),
    /// The upstream answered with an unexpected status.
    Status(u16),
}

/// The status that the relay answers with for an upstream failure.
pub open spec fn upstream_error_status(e: UpstreamError) -> u16 {
    match e {
        UpstreamError::Status(s) => s,
        UpstreamError::Transport(t) => if t.timeout {
            504
        } else {
            502
        },
        UpstreamError::Build(_) => 500,
    }
}

impl UpstreamError {
    /// The HTTP status for this failure: the upstream's own for `Status`,
    /// 504 for a timeout, 502 for another transport failure, 500 otherwise.
    pub fn status_or_internal(&self) -> (s: u16)
        ensures
            s == upstream_error_status(*self),
    {
        match self {
            UpstreamError::Status(s) => *s,
            UpstreamError::Transport(t) => {
                if t.timeout {
                    504
                } else {
                    502
                }
            },
            UpstreamError::Build(_) => 500,
        }
    }
}

} // verus!
