//! A response of the upstream, as plain values.
use vstd::prelude::*;
use http::HeaderMap;

use crate::headers::{header_map_values, header_str, header_text, lemma_known_header_names};

verus! {

/// `status` is a success status (2xx), as `StatusCode::is_success` tests.
pub open spec fn is_success(status: u16) -> bool {
    200 <= status <= 299
}

/// Whether `status` is a success status (2xx).
pub fn status_is_success(status: u16) -> (b: bool)
    ensures
        b == is_success(status),
{
    200 <= status && status <= 299
}

/// Metadata and body of an upstream GET/HEAD/PUT response.
#[derive(Debug, Clone)]
pub struct UpstreamResponse {
    pub status: u16,
    pub headers: HeaderMap,
    pub body: Vec<u8>,
}

/// An upstream response as plain values.
pub struct UpstreamView {
    pub status: u16,
    pub headers: Map<Seq<char>, Seq<Seq<u8>>>,
    pub body: Seq<u8>,
}

impl View for UpstreamResponse {
    type V = UpstreamView;

    open spec fn view(&self) -> UpstreamView {
        UpstreamView { status: self.status, headers: header_map_values(self.headers), body: self.body@ }
    }
}

pub open spec fn opt_text(o: Option<String>) -> Option<Seq<char>> {
    match o {
        Some(s) => Some(s@),
        None => None,
    }
}

impl UpstreamResponse {
    /// The `ETag` header, when present and visible ASCII.
    pub fn etag(&self) -> (r: Option<String>)
        ensures
            opt_text(r) == header_text(self.headers, "etag"@),
    {
        proof {
            lemma_known_header_names();
        }
        let r = header_str(&self.headers, "etag");
        r
    }

    /// The `Last-Modified` header, when present and visible ASCII.
    pub fn last_modified(&self) -> (r: Option<String>)
        ensures
            opt_text(r) == header_text(self.headers, "last-modified"@),
    {
        proof {
            lemma_known_header_names();
        }
        header_str(&self.headers, "last-modified")
    }
}

} // verus!
