use jian_guo_yun_relay::auth::www_authenticate_challenge;
use jian_guo_yun_relay::config::{Config, WebUrl};

fn base_config() -> Config {
    Config {
        listen_addr: "0.0.0.0:0".into(),
        vault_path: "/vault.kdbx".into(),
        jgy_webdav_root: WebUrl::parse("https://example.invalid/").unwrap(),
        jgy_username: "u".into(),
        jgy_app_password: "p".into(),
        jgy_remote_path: "/r.kdbx".into(),
        jgy_resource_url: WebUrl::parse("https://example.invalid/r.kdbx").unwrap(),
        relay_auth_user: None,
        relay_auth_password: None,
        relay_bearer_token: None,
        max_body_bytes: 1024,
        connect_timeout: 1,
        upstream_timeout: 1,
        require_put_baseline: false,
    }
}

#[test]
fn prefers_basic_challenge_when_basic_auth_enabled() {
    let mut cfg = base_config();
    cfg.relay_auth_user = Some("relay_user".into());
    cfg.relay_auth_password = Some("123456".into());
    assert_eq!(
        www_authenticate_challenge(&cfg),
        Some(r#"Basic realm="JianGuoYunRelay", charset="UTF-8""#)
    );
}
