use jian_guo_yun_relay::config::validate::build_resource_url;
use jian_guo_yun_relay::config::{Config, WebUrl};

fn cfg_with_vault(vault_path: &str) -> Config {
    Config {
        listen_addr: "0.0.0.0:0".into(),
        vault_path: vault_path.into(),
        jgy_webdav_root: WebUrl::parse("https://example.invalid/").unwrap(),
        jgy_username: "u".into(),
        jgy_app_password: "p".into(),
        jgy_remote_path: "/r.kdbx".into(),
        jgy_resource_url: WebUrl::parse("https://example.invalid/r.kdbx").unwrap(),
        relay_auth_user: None,
        relay_auth_password: None,
        relay_bearer_token: Some("t".into()),
        max_body_bytes: 1024,
        connect_timeout: 1,
        upstream_timeout: 1,
        require_put_baseline: false,
    }
}

#[test]
fn vault_path_matches_percent_encoded_or_utf8_request() {
    let c = cfg_with_vault("/KeePass/数据库.kdbx");
    assert!(c.request_is_vault_path("/KeePass/%e6%95%b0%e6%8d%ae%e5%ba%93.kdbx"));
    assert!(c.request_is_vault_path("/KeePass/数据库.kdbx"));
    assert!(c.request_is_vault_path("/KeePass/%E6%95%B0%E6%8D%AE%E5%BA%93.kdbx"));
    assert!(!c.request_is_vault_path("/KeePass/other.kdbx"));
}

#[test]
fn build_resource_joins_paths() {
    let root = WebUrl::parse("https://dav.jianguoyun.com/dav/").unwrap();
    let u = build_resource_url(&root, "/a/b.kdbx").unwrap();
    assert_eq!(u.as_str(), "https://dav.jianguoyun.com/dav/a/b.kdbx");
}
