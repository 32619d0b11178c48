use http::{HeaderMap, HeaderValue};
use jian_guo_yun_relay::upstream::UpstreamResponse;
use jian_guo_yun_relay::version_guard::{normalize_etag, pick_baselines, pre_put_check, VersionGuardError};

fn headers(pairs: &[(&'static str, &'static str)]) -> HeaderMap {
    let mut h = HeaderMap::new();
    for (k, v) in pairs {
        h.append(*k, HeaderValue::from_static(v));
    }
    h
}

#[test]
fn weak_and_strong_tags_normalize_alike() {
    assert_eq!(normalize_etag(" W/\"abc\" "), normalize_etag("\"abc\""));
    assert_eq!(normalize_etag("  \"  x  \" "), "  x  ");
    assert_eq!(normalize_etag("\"\"\"q\"\""), "q");
    assert_eq!(normalize_etag(""), "");
}

#[test]
fn if_match_list_is_split_and_normalized() {
    let b = pick_baselines(&headers(&[("if-match", "\"a\", W/\"b\" , ,\"\"")])).unwrap();
    assert_eq!(b, vec!["a".to_string(), "b".to_string()]);
}

#[test]
fn if_match_star_names_no_baseline() {
    assert!(pick_baselines(&headers(&[("if-match", " * "), ("x-base-etag", "\"z\"")])).is_none());
}

#[test]
fn base_etag_used_when_if_match_empty() {
    let b = pick_baselines(&headers(&[("if-match", " , "), ("x-base-etag", "W/\"z\"")])).unwrap();
    assert_eq!(b, vec!["z".to_string()]);
    assert!(pick_baselines(&HeaderMap::new()).is_none());
}

#[test]
fn pre_put_check_outcomes() {
    let ok = UpstreamResponse { status: 200, headers: headers(&[("etag", "W/\"v\"")]), body: Vec::new() };
    assert!(pre_put_check(&vec!["v".to_string()], &ok).is_ok());
    assert!(pre_put_check(&Vec::new(), &ok).is_ok());
    match pre_put_check(&vec!["w".to_string()], &ok) {
        Err(VersionGuardError::BaselineMismatch { current, expected }) => {
            assert_eq!(current, "v");
            assert_eq!(expected, vec!["w".to_string()]);
        }
        _ => panic!("expected a mismatch"),
    }
    let missing = UpstreamResponse { status: 200, headers: HeaderMap::new(), body: Vec::new() };
    assert!(matches!(pre_put_check(&vec!["v".to_string()], &missing), Err(VersionGuardError::UpstreamEtagMissing)));
    let failed = UpstreamResponse { status: 503, headers: HeaderMap::new(), body: Vec::new() };
    assert!(matches!(pre_put_check(&vec!["v".to_string()], &failed), Err(VersionGuardError::UpstreamStatus(503))));
}

#[test]
fn tag_forms_normalize_to_the_tag() {
    for t in ["abc", "etag-1", "a b", ""] {
        assert_eq!(normalize_etag(t), t);
        assert_eq!(normalize_etag(&format!("\"{t}\"")), t);
        assert_eq!(normalize_etag(&format!(" W/\"{t}\" ")), t);
    }
}
