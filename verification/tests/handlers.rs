use http::header::{CONTENT_LENGTH, CONTENT_TYPE, ETAG, LAST_MODIFIED};
use http::{HeaderMap, HeaderValue};
use jian_guo_yun_relay::reply::{FieldValue, Reply};
use jian_guo_yun_relay::webdav::handlers::{metadata_complete, metadata_only_response};

fn header<'a>(reply: &'a Reply, name: &str) -> Option<&'a [u8]> {
    reply.headers.iter().find(|(n, _)| *n == name).map(|(_, v)| match v {
        FieldValue::Raw(b) => b.as_bytes(),
        FieldValue::Text(s) => s.as_bytes(),
    })
}

#[test]
fn head_metadata_response_keeps_upstream_headers() {
    let mut headers = HeaderMap::new();
    headers.insert(CONTENT_LENGTH, HeaderValue::from_static("24439"));
    headers.insert(CONTENT_TYPE, HeaderValue::from_static("application/octet-stream"));
    headers.insert(ETAG, HeaderValue::from_static("\"etag-1\""));
    headers.insert(LAST_MODIFIED, HeaderValue::from_static("Fri, 24 Apr 2026 06:00:50 GMT"));

    let resp = metadata_only_response(200, &headers, vec![0_u8; 24439]);

    assert_eq!(resp.status, 200);
    assert_eq!(header(&resp, "content-length").unwrap(), b"24439");
    assert_eq!(header(&resp, "content-type").unwrap(), b"application/octet-stream");
    assert_eq!(header(&resp, "etag").unwrap(), b"\"etag-1\"");
    assert_eq!(
        header(&resp, "last-modified").unwrap(),
        b"Fri, 24 Apr 2026 06:00:50 GMT"
    );
}

#[test]
fn metadata_complete_requires_common_file_headers() {
    let mut headers = HeaderMap::new();
    headers.insert(CONTENT_LENGTH, HeaderValue::from_static("24439"));
    headers.insert(CONTENT_TYPE, HeaderValue::from_static("application/octet-stream"));
    headers.insert(LAST_MODIFIED, HeaderValue::from_static("Fri, 24 Apr 2026 06:00:50 GMT"));
    assert!(!metadata_complete(&headers));

    headers.insert(ETAG, HeaderValue::from_static("\"etag-1\""));
    assert!(metadata_complete(&headers));
}
