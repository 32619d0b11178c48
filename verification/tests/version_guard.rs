use jian_guo_yun_relay::version_guard::normalize_etag;

#[test]
fn normalize_strips_weak_and_quotes() {
    assert_eq!(normalize_etag(r#"W/"abc""#), "abc");
    assert_eq!(normalize_etag(r#""x""#), "x");
}
