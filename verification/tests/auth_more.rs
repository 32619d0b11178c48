use http::{HeaderMap, HeaderValue};
use jian_guo_yun_relay::auth::{decoded_credentials_match, validate_request, www_authenticate_challenge};
use jian_guo_yun_relay::config::{Config, WebUrl};

fn config(user: Option<&str>, pass: Option<&str>, token: Option<&str>) -> Config {
    Config {
        listen_addr: "0.0.0.0:0".into(),
        vault_path: "/vault.kdbx".into(),
        jgy_webdav_root: WebUrl::parse("https://example.invalid/").unwrap(),
        jgy_username: "u".into(),
        jgy_app_password: "p".into(),
        jgy_remote_path: "/r.kdbx".into(),
        jgy_resource_url: WebUrl::parse("https://example.invalid/r.kdbx").unwrap(),
        relay_auth_user: user.map(String::from),
        relay_auth_password: pass.map(String::from),
        relay_bearer_token: token.map(String::from),
        max_body_bytes: 1024,
        connect_timeout: 1,
        upstream_timeout: 1,
        require_put_baseline: false,
    }
}

fn auth(value: &'static str) -> HeaderMap {
    let mut h = HeaderMap::new();
    h.insert("authorization", HeaderValue::from_static(value));
    h
}

#[test]
fn bearer_token_accepted_and_trimmed() {
    let cfg = config(None, None, Some("secret"));
    assert!(validate_request(&cfg, &auth("Bearer secret")));
    assert!(validate_request(&cfg, &auth("Bearer   secret  ")));
    assert!(!validate_request(&cfg, &auth("Bearer secreT")));
    assert!(!validate_request(&cfg, &auth("bearer secret")));
    assert!(!validate_request(&cfg, &HeaderMap::new()));
}

#[test]
fn basic_credentials_accepted() {
    let cfg = config(Some("relay_user"), Some("123456"), None);
    // base64("relay_user:123456")
    assert!(validate_request(&cfg, &auth("Basic cmVsYXlfdXNlcjoxMjM0NTY=")));
    // base64(" relay_user : 123456\r")
    assert!(validate_request(&cfg, &auth("Basic IHJlbGF5X3VzZXIgOiAxMjM0NTYN")));
    // base64("relay_user:654321")
    assert!(!validate_request(&cfg, &auth("Basic cmVsYXlfdXNlcjo2NTQzMjE=")));
    // not base64
    assert!(!validate_request(&cfg, &auth("Basic %%%")));
    // base64("nocolon")
    assert!(!validate_request(&cfg, &auth("Basic bm9jb2xvbg==")));
}

#[test]
fn basic_ignored_when_only_bearer_configured() {
    let cfg = config(None, None, Some("t"));
    assert!(!validate_request(&cfg, &auth("Basic cmVsYXlfdXNlcjoxMjM0NTY=")));
}

#[test]
fn challenge_follows_configuration() {
    assert_eq!(
        www_authenticate_challenge(&config(None, None, Some("t"))),
        Some(r#"Bearer realm="JianGuoYunRelay""#)
    );
    assert_eq!(
        www_authenticate_challenge(&config(Some("u"), Some("p"), Some("t"))),
        Some(r#"Basic realm="JianGuoYunRelay", charset="UTF-8""#)
    );
    assert_eq!(www_authenticate_challenge(&config(Some("u"), None, None)), None);
}

#[test]
fn decoded_credentials_split_at_first_colon_and_trimmed() {
    assert!(decoded_credentials_match(b" relay_user :123456\r".to_vec(), "relay_user", "123456"));
    assert!(decoded_credentials_match(b"u:p:q".to_vec(), "u", "p:q"));
    assert!(!decoded_credentials_match(b"u:p:q".to_vec(), "u:p", "q"));
    assert!(!decoded_credentials_match(b"no-colon".to_vec(), "no-colon", ""));
    assert!(!decoded_credentials_match(vec![0xff, b':', b'p'], "", "p"));
}
