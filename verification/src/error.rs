//! Application errors and the responses they are answered with (the body
//! never carries internal details).
use vstd::prelude::*;

use crate::reply::{plain_text, text_reply, Reply, ReplyView};
use crate::upstream::{upstream_error_status, UpstreamError};
use crate::version_guard::VersionGuardError;

verus! {

/// An error that ends a request with an error response.
#[derive(Debug)]
pub enum AppError {
    Unauthorized,
    /// A PUT without `If-Match` / `X-Base-ETag` while a baseline is required.
    PreconditionRequired,
    BadRequest,
    Upstream(UpstreamError),
    VersionGuard(VersionGuardError),
}

/// The status and message of the response for `e`.
pub open spec fn error_reply(e: AppError) -> ReplyView {
    match e {
        AppError::Unauthorized => text_reply(401, "unauthorized"@),
        AppError::PreconditionRequired => text_reply(428, "precondition required"@),
        AppError::BadRequest => text_reply(400, "bad request"@),
        AppError::Upstream(u) => text_reply(upstream_error_status(u), "upstream error"@),
        AppError::VersionGuard(VersionGuardError::BaselineMismatch { .. }) => text_reply(
            412,
            "version mismatch"@,
        ),
        AppError::VersionGuard(VersionGuardError::UpstreamEtagMissing) => text_reply(
            502,
            "upstream etag missing"@,
        ),
        AppError::VersionGuard(VersionGuardError::UpstreamStatus(s)) => text_reply(
            s,
            "upstream status"@,
        ),
        AppError::VersionGuard(VersionGuardError::Upstream(u)) => text_reply(
            upstream_error_status(u),
            "upstream error"@,
        ),
    }
}

impl AppError {
    /// The response for this error: its status and a short plain-text message.
    pub fn into_response(self) -> (r: Reply)
        ensures
            r@ == error_reply(self),
    {
        match &self {
            AppError::Unauthorized => plain_text(401, "unauthorized"),
            AppError::PreconditionRequired => plain_text(428, "precondition required"),
            AppError::BadRequest => plain_text(400, "bad request"),
            AppError::Upstream(e) => plain_text(e.status_or_internal(), "upstream error"),
            AppError::VersionGuard(VersionGuardError::BaselineMismatch { .. }) => plain_text(
                412,
                "version mismatch",
            ),
            AppError::VersionGuard(VersionGuardError::UpstreamEtagMissing) => plain_text(
                502,
                "upstream etag missing",
            ),
            AppError::VersionGuard(VersionGuardError::UpstreamStatus(s)) => plain_text(
                *s,
                "upstream status",
            ),
            AppError::VersionGuard(VersionGuardError::Upstream(e)) => plain_text(
                e.status_or_internal(),
                "upstream error",
            ),
        }
    }
}

/// The messages that error responses may carry.
pub open spec fn is_fixed_error_message(m: Seq<char>) -> bool {
    ||| m == "unauthorized"@
    ||| m == "precondition required"@
    ||| m == "bad request"@
    ||| m == "upstream error"@
    ||| m == "version mismatch"@
    ||| m == "upstream etag missing"@
    ||| m == "upstream status"@
}

/// An error response never carries internal details: its body is one of the
/// fixed messages, sent as plain text.
pub proof fn lemma_error_body_reveals_nothing(e: AppError)
    ensures
        error_reply(e).body matches crate::reply::BodyView::Text(m) && is_fixed_error_message(m),
        error_reply(e).headers == seq![("content-type"@, crate::reply::FieldView::Text("text/plain; charset=utf-8"@))],
{
}

} // verus!
