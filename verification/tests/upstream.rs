use http::{HeaderMap, HeaderValue};
use jian_guo_yun_relay::error::AppError;
use jian_guo_yun_relay::reply::ReplyBody;
use jian_guo_yun_relay::upstream::{filter_forward_headers, TransportError, UpstreamError, UpstreamResponse};
use jian_guo_yun_relay::version_guard::VersionGuardError;

#[test]
fn status_or_internal_per_kind() {
    assert_eq!(UpstreamError::Status(418).status_or_internal(), 418);
    assert_eq!(UpstreamError::Build("b".into()).status_or_internal(), 500);
    let t = UpstreamError::Transport(TransportError { timeout: true, message: "m".into() });
    assert_eq!(t.status_or_internal(), 504);
    let c = UpstreamError::Transport(TransportError { timeout: false, message: "m".into() });
    assert_eq!(c.status_or_internal(), 502);
}

fn status_and_text(e: AppError) -> (u16, String) {
    let r = e.into_response();
    match r.body {
        ReplyBody::Text(s) => (r.status, s),
        _ => panic!("text expected"),
    }
}

#[test]
fn app_errors_map_to_responses() {
    assert_eq!(status_and_text(AppError::Unauthorized), (401, "unauthorized".into()));
    assert_eq!(status_and_text(AppError::PreconditionRequired), (428, "precondition required".into()));
    assert_eq!(status_and_text(AppError::BadRequest), (400, "bad request".into()));
    assert_eq!(status_and_text(AppError::Upstream(UpstreamError::Status(409))), (409, "upstream error".into()));
    assert_eq!(
        status_and_text(AppError::VersionGuard(VersionGuardError::BaselineMismatch { current: "a".into(), expected: vec![] })),
        (412, "version mismatch".into())
    );
    assert_eq!(
        status_and_text(AppError::VersionGuard(VersionGuardError::UpstreamEtagMissing)),
        (502, "upstream etag missing".into())
    );
    assert_eq!(
        status_and_text(AppError::VersionGuard(VersionGuardError::UpstreamStatus(404))),
        (404, "upstream status".into())
    );
    assert_eq!(
        status_and_text(AppError::VersionGuard(VersionGuardError::Upstream(UpstreamError::Build("x".into())))),
        (500, "upstream error".into())
    );
}

#[test]
fn forwarded_headers_are_the_four_metadata_headers() {
    let mut h = HeaderMap::new();
    h.append("etag", HeaderValue::from_static("\"1\""));
    h.append("etag", HeaderValue::from_static("\"2\""));
    h.append("content-type", HeaderValue::from_static("text/plain"));
    h.append("transfer-encoding", HeaderValue::from_static("chunked"));
    h.append("connection", HeaderValue::from_static("keep-alive"));
    let out = filter_forward_headers(&h);
    assert_eq!(out.len(), 2);
    assert_eq!(out.get("etag").unwrap(), "\"1\"");
    assert_eq!(out.get_all("etag").iter().count(), 1);
    assert_eq!(out.get("content-type").unwrap(), "text/plain");
    assert!(out.get("transfer-encoding").is_none());
    let again = filter_forward_headers(&out);
    assert_eq!(again, out);
}

#[test]
fn etag_and_last_modified_accessors() {
    let mut h = HeaderMap::new();
    h.insert("etag", HeaderValue::from_static("\"a\""));
    h.insert("last-modified", HeaderValue::from_bytes(b"caf\xc3\xa9").unwrap());
    let r = UpstreamResponse { status: 200, headers: h, body: Vec::new() };
    assert_eq!(r.etag().as_deref(), Some("\"a\""));
    assert_eq!(r.last_modified(), None);
}

#[test]
fn forwarded_values_are_kept_byte_for_byte() {
    let mut h = HeaderMap::new();
    let raw = HeaderValue::from_bytes(b"W/\"caf\xc3\xa9\"").unwrap();
    h.insert("etag", raw.clone());
    h.insert("last-modified", HeaderValue::from_static("Fri, 24 Apr 2026 06:00:50 GMT"));
    let out = filter_forward_headers(&h);
    assert_eq!(out.get("etag").unwrap().as_bytes(), raw.as_bytes());
    assert_eq!(out.get("last-modified").unwrap(), "Fri, 24 Apr 2026 06:00:50 GMT");
    assert!(out.get("content-length").is_none());
}
