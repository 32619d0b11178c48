use jian_guo_yun_relay::config::validate::{build_resource_url, parse_duration_secs, parse_usize};
use jian_guo_yun_relay::config::{percent_decode_path, validate_host, Config, ConfigError, EnvVars, WebUrl};

fn env() -> EnvVars {
    EnvVars {
        listen_addr: None,
        vault_path: None,
        webdav_root: Some("https://dav.jianguoyun.com/dav/".into()),
        allowed_hosts: None,
        username: Some(" \"me@example.com\" ".into()),
        app_password: Some("'app pass'\r".into()),
        remote_path: Some("/KeePass/db.kdbx".into()),
        auth_user: Some("relay_user".into()),
        auth_password: Some("\"123456\"".into()),
        bearer_token: Some("  ".into()),
        max_body_bytes: Some(" 1048576 ".into()),
        connect_timeout_secs: None,
        upstream_timeout_secs: None,
        require_put_baseline: None,
    }
}

fn env_error(e: EnvVars) -> ConfigError {
    match Config::from_env(&e) {
        Err(err) => err,
        Ok(_) => panic!("expected an error"),
    }
}

#[test]
fn from_env_builds_configuration() {
    let c = Config::from_env(&env()).unwrap();
    assert_eq!(c.listen_addr, "0.0.0.0:8080");
    assert_eq!(c.vault_path, "/vault.kdbx");
    assert_eq!(c.jgy_username, "me@example.com");
    assert_eq!(c.jgy_app_password, "app pass");
    assert_eq!(c.jgy_resource_url.as_str(), "https://dav.jianguoyun.com/dav/KeePass/db.kdbx");
    assert_eq!(c.relay_auth_user.as_deref(), Some("relay_user"));
    assert_eq!(c.relay_auth_password.as_deref(), Some("123456"));
    assert_eq!(c.relay_bearer_token, None);
    assert_eq!(c.max_body_bytes, 1048576);
    assert_eq!(c.connect_timeout, 10);
    assert_eq!(c.upstream_timeout, 120);
    assert!(c.require_put_baseline);
}

#[test]
fn from_env_reads_put_baseline_switch() {
    for (v, expected) in [("0", false), ("FALSE", false), ("false", false), ("1", true), ("no", true)] {
        let mut e = env();
        e.require_put_baseline = Some(v.into());
        assert_eq!(Config::from_env(&e).unwrap().require_put_baseline, expected);
    }
}

#[test]
fn from_env_reports_each_problem() {
    let mut e = env();
    e.vault_path = Some("vault.kdbx".into());
    assert!(matches!(env_error(e), ConfigError::Env("RELAY_VAULT_PATH (must start with /)")));

    let mut e = env();
    e.webdav_root = Some(" \r".into());
    assert!(matches!(env_error(e), ConfigError::Env("JGY_WEBDAV_ROOT")));

    let mut e = env();
    e.webdav_root = Some("not a url".into());
    assert!(matches!(env_error(e), ConfigError::Url("JGY_WEBDAV_ROOT", _)));

    let mut e = env();
    e.webdav_root = Some("https://evil.example/dav/".into());
    assert!(matches!(env_error(e), ConfigError::HostNotAllowed(h) if h == "evil.example"));

    let mut e = env();
    e.username = None;
    assert!(matches!(env_error(e), ConfigError::Env("JGY_USERNAME")));

    let mut e = env();
    e.remote_path = Some("db.kdbx".into());
    assert!(matches!(env_error(e), ConfigError::Env("JGY_REMOTE_PATH (must start with /)")));

    let mut e = env();
    e.auth_password = None;
    assert!(matches!(env_error(e), ConfigError::RelayAuth));

    let mut e = env();
    e.auth_user = None;
    e.auth_password = None;
    assert!(matches!(env_error(e), ConfigError::RelayAuth));

    let mut e = env();
    e.max_body_bytes = Some("12x".into());
    assert!(matches!(env_error(e), ConfigError::Env("MAX_BODY_BYTES")));

    let mut e = env();
    e.max_body_bytes = Some("268435457".into());
    assert!(matches!(env_error(e), ConfigError::Env("MAX_BODY_BYTES (must be 1..=268435456)")));

    let mut e = env();
    e.connect_timeout_secs = Some("0".into());
    assert!(matches!(env_error(e), ConfigError::Env("CONNECT_TIMEOUT_SECS")));

    let mut e = env();
    e.upstream_timeout_secs = Some(" 5".into());
    assert!(matches!(env_error(e), ConfigError::Env("UPSTREAM_TIMEOUT_SECS")));
}

#[test]
fn bearer_only_configuration_is_valid() {
    let mut e = env();
    e.auth_user = None;
    e.auth_password = None;
    e.bearer_token = Some("'tok'".into());
    let c = Config::from_env(&e).unwrap();
    assert_eq!(c.relay_bearer_token.as_deref(), Some("tok"));
}

#[test]
fn allowed_hosts_list_is_case_insensitive() {
    let root = WebUrl::parse("https://Files.Example.com/dav/").unwrap();
    assert!(validate_host(&root, Some(" other.org , FILES.example.com ")).is_ok());
    assert!(matches!(validate_host(&root, None), Err(ConfigError::HostNotAllowed(_))));
    assert!(matches!(validate_host(&root, Some("   ")), Err(ConfigError::HostNotAllowed(_))));
    let no_host = WebUrl::parse("mailto:someone@example.com").unwrap();
    assert!(matches!(validate_host(&no_host, None), Err(ConfigError::Url("JGY_WEBDAV_ROOT", m)) if m == "missing host"));
}

#[test]
fn resource_url_joins_without_double_slash() {
    let root = WebUrl::parse("https://dav.jianguoyun.com/dav").unwrap();
    let u = build_resource_url(&root, "  //a b/c.kdbx ").unwrap();
    assert_eq!(u.as_str(), "https://dav.jianguoyun.com/dav/a%20b/c.kdbx");
    assert_eq!(build_resource_url(&root, "a.kdbx").err().unwrap(), "JGY_REMOTE_PATH must start with '/'");
}

#[test]
fn web_url_is_normalized_by_the_parser() {
    let u = WebUrl::parse("HTTPS://Dav.JianGuoYun.com/a/../b").unwrap();
    assert_eq!(u.as_str(), "https://dav.jianguoyun.com/b");
    assert_eq!(u.host_str(), Some("dav.jianguoyun.com"));
    assert_eq!(u.path(), "/b");
    assert!(WebUrl::parse("relative/path").is_err());
}

#[test]
fn unsigned_numbers_parse_like_std() {
    assert_eq!(parse_usize("+42", "K").unwrap(), 42);
    assert_eq!(parse_usize("0007", "K").unwrap(), 7);
    assert!(matches!(parse_usize("", "K"), Err(ConfigError::Env("K"))));
    assert!(parse_usize("+", "K").is_err());
    assert!(parse_usize("-1", "K").is_err());
    assert!(parse_usize(" 1", "K").is_err());
    assert!(parse_usize("99999999999999999999999", "K").is_err());
}

#[test]
fn durations_are_one_second_to_one_day() {
    assert_eq!(parse_duration_secs("1", "D").unwrap(), 1);
    assert_eq!(parse_duration_secs("86400", "D").unwrap(), 86400);
    assert!(matches!(parse_duration_secs("86401", "D"), Err(ConfigError::Env("D"))));
    assert!(parse_duration_secs("0", "D").is_err());
}

#[test]
fn percent_decoding_of_paths() {
    assert_eq!(percent_decode_path("/a%20b").as_deref(), Some("/a b"));
    assert_eq!(percent_decode_path("/plain/数据").as_deref(), Some("/plain/数据"));
    assert_eq!(percent_decode_path("/x%4"), None);
    assert_eq!(percent_decode_path("/x%"), None);
    assert_eq!(percent_decode_path("/x%zz"), None);
    assert_eq!(percent_decode_path("/x%ff"), None);
}

#[test]
fn vault_path_names_itself_and_encoded_forms() {
    let c = Config::from_env(&env()).unwrap();
    assert!(c.request_is_vault_path("/vault.kdbx"));
    assert!(c.request_is_vault_path("/vault%2Ekdbx"));
    assert!(!c.request_is_vault_path("/vault.kdb"));
    assert!(!c.request_is_vault_path("vault.kdbx"));
}

#[test]
fn percent_encoding_round_trips() {
    let path = "/KeePass/数据库.kdbx";
    let upper: String = path.bytes().map(|b| format!("%{:02X}", b)).collect();
    let lower: String = path.bytes().map(|b| format!("%{:02x}", b)).collect();
    assert_eq!(percent_decode_path(&upper).as_deref(), Some(path));
    assert_eq!(percent_decode_path(&lower).as_deref(), Some(path));
}

#[test]
fn web_url_clone_keeps_its_parts() {
    let u = WebUrl::parse("https://dav.jianguoyun.com/dav/a/b.kdbx").unwrap();
    let c = u.clone();
    assert_eq!(c.as_str(), u.as_str());
    assert_eq!(c.host_str(), Some("dav.jianguoyun.com"));
    assert_eq!(c.as_url().as_str(), u.as_str());
}
