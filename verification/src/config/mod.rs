//! Configuration of the relay, computed from the values of its environment
//! variables.
pub mod validate;
pub mod weburl;

pub use validate::validate_host;
pub use weburl::WebUrl;

use vstd::prelude::*;

use crate::text::{
    chars_of, eq_ignore_ascii_case, eq_ignore_ascii_case_vec, starts_with, string_from_utf8,
    string_of, sub_vec, trim, trim_cr, trim_cr_vec, trim_vec_by, CharClass,
};
use validate::{
    build_resource_url, duration_secs, host_check, parse_duration_secs, parse_unsigned,
    parse_usize, resource_url_outcome,
};
use weburl::{url_outcome_view, url_parse_outcome, UrlParts};

verus! {

/// Why the configuration cannot be built.
#[derive(Debug)]
pub enum ConfigError {
    /// A variable is missing or invalid; the text names it.
    Env(&'static str),
    /// A URL variable does not parse; the variable and the parser's message.
    Url(&'static str, String),
    /// Neither Basic nor Bearer credentials are fully configured.
    RelayAuth,
    /// The upstream host is not allowed.
    HostNotAllowed(String),
    /// The upstream resource URL cannot be built.
    ResourceUrl(String),
}

/// A `ConfigError` as plain values.
pub enum ConfigErrorView {
    Env(Seq<char>),
    Url(Seq<char>, Seq<char>),
    RelayAuth,
    HostNotAllowed(Seq<char>),
    ResourceUrl(Seq<char>),
}

impl View for ConfigError {
    type V = ConfigErrorView;

    open spec fn view(&self) -> ConfigErrorView {
        match self {
            ConfigError::Env(k) => ConfigErrorView::Env(k@),
            ConfigError::Url(k, m) => ConfigErrorView::Url(k@, m@),
            ConfigError::RelayAuth => ConfigErrorView::RelayAuth,
            ConfigError::HostNotAllowed(h) => ConfigErrorView::HostNotAllowed(h@),
            ConfigError::ResourceUrl(m) => ConfigErrorView::ResourceUrl(m@),
        }
    }
}

// ---------------------------------------------------------------------------
// Environment and configuration
// ---------------------------------------------------------------------------

/// The values of the environment variables that the configuration is read
/// from (`None` where a variable is unset or not Unicode).
pub struct EnvVars {
    /// `LISTEN_ADDR`
    pub listen_addr: Option<String>,
    /// `RELAY_VAULT_PATH`
    pub vault_path: Option<String>,
    /// `JGY_WEBDAV_ROOT`
    pub webdav_root: Option<String>,
    /// `JGY_ALLOWED_HOSTS`
    pub allowed_hosts: Option<String>,
    /// `JGY_USERNAME`
    pub username: Option<String>,
    /// `JGY_APP_PASSWORD`
    pub app_password: Option<String>,
    /// `JGY_REMOTE_PATH`
    pub remote_path: Option<String>,
    /// `RELAY_AUTH_USER`
    pub auth_user: Option<String>,
    /// `RELAY_AUTH_PASSWORD`
    pub auth_password: Option<String>,
    /// `RELAY_BEARER_TOKEN`
    pub bearer_token: Option<String>,
    /// `MAX_BODY_BYTES`
    pub max_body_bytes: Option<String>,
    /// `CONNECT_TIMEOUT_SECS`
    pub connect_timeout_secs: Option<String>,
    /// `UPSTREAM_TIMEOUT_SECS`
    pub upstream_timeout_secs: Option<String>,
    /// `RELAY_REQUIRE_PUT_BASELINE`
    pub require_put_baseline: Option<String>,
}

/// The runtime configuration (parsed, read-only).
#[derive(Debug, Clone)]
pub struct Config {
    pub listen_addr: String,
    /// The vault path exposed to clients (one fixed URL), such as `/vault.kdbx`.
    pub vault_path: String,
    pub jgy_webdav_root: WebUrl,
    pub jgy_username: String,
    pub jgy_app_password: String,
    pub jgy_remote_path: String,
    /// The upstream resource URL (the one object the relay controls).
    pub jgy_resource_url: WebUrl,
    pub relay_auth_user: Option<String>,
    pub relay_auth_password: Option<String>,
    pub relay_bearer_token: Option<String>,
    pub max_body_bytes: usize,
    /// Connect timeout, in whole seconds.
    pub connect_timeout: u64,
    /// Whole-request timeout towards the upstream, in whole seconds.
    pub upstream_timeout: u64,
    /// A PUT must carry `If-Match` or `X-Base-ETag` (no overwrite without a baseline).
    pub require_put_baseline: bool,
}

/// A `Config` as plain values.
pub struct ConfigView {
    pub listen_addr: Seq<char>,
    pub vault_path: Seq<char>,
    pub webdav_root: UrlParts,
    pub username: Seq<char>,
    pub app_password: Seq<char>,
    pub remote_path: Seq<char>,
    pub resource_url: UrlParts,
    pub auth_user: Option<Seq<char>>,
    pub auth_password: Option<Seq<char>>,
    pub bearer_token: Option<Seq<char>>,
    pub max_body_bytes: int,
    pub connect_timeout: int,
    pub upstream_timeout: int,
    pub require_put_baseline: bool,
}

pub open spec fn opt_view(o: Option<String>) -> Option<Seq<char>> {
    match o {
        Some(s) => Some(s@),
        None => None,
    }
}

impl View for Config {
    type V = ConfigView;

    open spec fn view(&self) -> ConfigView {
        ConfigView {
            listen_addr: self.listen_addr@,
            vault_path: self.vault_path@,
            webdav_root: self.jgy_webdav_root@,
            username: self.jgy_username@,
            app_password: self.jgy_app_password@,
            remote_path: self.jgy_remote_path@,
            resource_url: self.jgy_resource_url@,
            auth_user: opt_view(self.relay_auth_user),
            auth_password: opt_view(self.relay_auth_password),
            bearer_token: opt_view(self.relay_bearer_token),
            max_body_bytes: self.max_body_bytes as int,
            connect_timeout: self.connect_timeout as int,
            upstream_timeout: self.upstream_timeout as int,
            require_put_baseline: self.require_put_baseline,
        }
    }
}

/// The invariants of a configuration that `from_env` builds.
pub open spec fn config_wf(c: ConfigView) -> bool {
    &&& starts_with(c.vault_path, seq!['/'])
    &&& starts_with(c.remote_path, seq!['/'])
    &&& (c.auth_user is Some && c.auth_password is Some) || c.bearer_token is Some
    &&& (c.auth_user is Some <==> c.auth_password is Some)
    &&& 1 <= c.max_body_bytes <= 268435456
    &&& 1 <= c.connect_timeout <= 86400
    &&& 1 <= c.upstream_timeout <= 86400
}

/// A required variable: set, and not empty once trimmed; its trimmed value.
pub open spec fn required_value(v: Option<Seq<char>>, key: Seq<char>) -> Result<
    Seq<char>,
    ConfigErrorView,
> {
    match v {
        None => Err(ConfigErrorView::Env(key)),
        Some(s) => if trim_cr(s).len() == 0 {
            Err(ConfigErrorView::Env(key))
        } else {
            Ok(trim_cr(s))
        },
    }
}

/// `s` trimmed, without one pair of surrounding `"` or `'` (as `.env`
/// files often write `KEY="value"`), trimmed again.
pub open spec fn unquoted(s: Seq<char>) -> Seq<char> {
    let t = trim_cr(s);
    if t.len() >= 2 && ((t[0] == '"' && t.last() == '"') || (t[0] == '\'' && t.last() == '\'')) {
        trim_cr(t.subrange(1, t.len() - 1))
    } else {
        t
    }
}

/// An optional relay credential: absent when unset or empty after trimming
/// and unquoting.
pub open spec fn optional_credential(v: Option<Seq<char>>) -> Option<Seq<char>> {
    match v {
        None => None,
        Some(s) => if trim_cr(s).len() == 0 {
            None
        } else if unquoted(trim_cr(s)).len() == 0 {
            None
        } else {
            Some(unquoted(trim_cr(s)))
        },
    }
}

pub open spec fn or_default(v: Option<Seq<char>>, d: Seq<char>) -> Seq<char> {
    match v {
        Some(s) => s,
        None => d,
    }
}

/// Whether PUTs must name a baseline: unless the variable is `0` or `false`
/// (any case); when unset, they must.
pub open spec fn require_baseline(v: Option<Seq<char>>) -> bool {
    match v {
        Some(s) => s != "0"@ && !eq_ignore_ascii_case(s, "false"@),
        None => true,
    }
}

/// The relay credentials and the body limit, once the upstream part is known.
pub open spec fn config_rest(
    env: EnvVars,
    listen: Seq<char>,
    vault: Seq<char>,
    root: UrlParts,
    user: Seq<char>,
    pass: Seq<char>,
    remote: Seq<char>,
    resource: UrlParts,
) -> Result<ConfigView, ConfigErrorView> {
    let au = optional_credential(opt_view(env.auth_user));
    let ap = optional_credential(opt_view(env.auth_password));
    let bt = optional_credential(opt_view(env.bearer_token));
    if !(au is Some && ap is Some) && bt is None {
        Err(ConfigErrorView::RelayAuth)
    } else if (au is Some) != (ap is Some) {
        Err(ConfigErrorView::RelayAuth)
    } else {
        match required_value(opt_view(env.max_body_bytes), "MAX_BODY_BYTES"@) {
            Err(e) => Err(e),
            Ok(mb) => match parse_unsigned(mb, usize::MAX as int) {
                None => Err(ConfigErrorView::Env("MAX_BODY_BYTES"@)),
                Some(n) => if n == 0 || n > 268435456 {
                    Err(ConfigErrorView::Env("MAX_BODY_BYTES (must be 1..=268435456)"@))
                } else {
                    match duration_secs(or_default(opt_view(env.connect_timeout_secs), "10"@)) {
                        None => Err(ConfigErrorView::Env("CONNECT_TIMEOUT_SECS"@)),
                        Some(ct) => match duration_secs(
                            or_default(opt_view(env.upstream_timeout_secs), "120"@),
                        ) {
                            None => Err(ConfigErrorView::Env("UPSTREAM_TIMEOUT_SECS"@)),
                            Some(ut) => Ok(
                                ConfigView {
                                    listen_addr: listen,
                                    vault_path: vault,
                                    webdav_root: root,
                                    username: user,
                                    app_password: pass,
                                    remote_path: remote,
                                    resource_url: resource,
                                    auth_user: au,
                                    auth_password: ap,
                                    bearer_token: bt,
                                    max_body_bytes: n,
                                    connect_timeout: ct,
                                    upstream_timeout: ut,
                                    require_put_baseline: require_baseline(
                                        opt_view(env.require_put_baseline),
                                    ),
                                },
                            ),
                        },
                    }
                },
            },
        }
    }
}

/// The configuration that the environment `env` describes, or the first
/// problem found, in this order: vault path, WebDAV root (set, parses, on an
/// allowed host), upstream user name and password, remote path, resource URL,
/// relay credentials, body limit, timeouts.
pub open spec fn config_outcome(env: EnvVars) -> Result<ConfigView, ConfigErrorView> {
    let listen = trim_cr(or_default(opt_view(env.listen_addr), "0.0.0.0:8080"@));
    let vault = trim_cr(or_default(opt_view(env.vault_path), "/vault.kdbx"@));
    if !starts_with(vault, seq!['/']) {
        Err(ConfigErrorView::Env("RELAY_VAULT_PATH (must start with /)"@))
    } else {
        match required_value(opt_view(env.webdav_root), "JGY_WEBDAV_ROOT"@) {
            Err(e) => Err(e),
            Ok(root_str) => match url_parse_outcome(trim(root_str)) {
                Err(m) => Err(ConfigErrorView::Url("JGY_WEBDAV_ROOT"@, m)),
                Ok(root) => match host_check(root.host, opt_view(env.allowed_hosts)) {
                    Err(e) => Err(e),
                    Ok(_) => match required_value(opt_view(env.username), "JGY_USERNAME"@) {
                        Err(e) => Err(e),
                        Ok(u) => match required_value(
                            opt_view(env.app_password),
                            "JGY_APP_PASSWORD"@,
                        ) {
                            Err(e) => Err(e),
                            Ok(p) => match required_value(
                                opt_view(env.remote_path),
                                "JGY_REMOTE_PATH"@,
                            ) {
                                Err(e) => Err(e),
                                Ok(remote) => if !starts_with(remote, seq!['/']) {
                                    Err(
                                        ConfigErrorView::Env(
                                            "JGY_REMOTE_PATH (must start with /)"@,
                                        ),
                                    )
                                } else {
                                    match resource_url_outcome(root.text, remote) {
                                        Err(m) => Err(ConfigErrorView::ResourceUrl(m)),
                                        Ok(resource) => config_rest(
                                            env,
                                            listen,
                                            vault,
                                            root,
                                            unquoted(u),
                                            unquoted(p),
                                            remote,
                                            resource,
                                        ),
                                    }
                                },
                            },
                        },
                    },
                },
            },
        }
    }
}

pub open spec fn config_result_view(r: Result<Config, ConfigError>) -> Result<ConfigView, ConfigErrorView> {
    match r {
        Ok(c) => Ok(c@),
        Err(e) => Err(e@),
    }
}

/// The trimmed value of a required variable.
fn required(v: &Option<String>, key: &'static str) -> (r: Result<Vec<char>, ConfigError>)
    ensures
        match r {
            Ok(t) => required_value(opt_view(*v), key@) == Ok::<Seq<char>, ConfigErrorView>(t@),
            Err(e) => required_value(opt_view(*v), key@) == Err::<Seq<char>, ConfigErrorView>(e@),
        },
{
    match v {
        None => Err(ConfigError::Env(key)),
        Some(s) => {
            let sv = chars_of(s.as_str());
            let t = trim_cr_vec(&sv);
            if t.len() == 0 {
                Err(ConfigError::Env(key))
            } else {
                Ok(t)
            }
        },
    }
}

/// `unquoted`, for a vector.
fn unquote_vec(s: &Vec<char>) -> (r: Vec<char>)
    ensures
        r@ == unquoted(s@),
{
    let t = trim_cr_vec(s);
    let n = t.len();
    if n >= 2 && ((t[0] == '"' && t[n - 1] == '"') || (t[0] == '\'' && t[n - 1] == '\'')) {
        let inner = sub_vec(&t, 1, n - 1);
        trim_cr_vec(&inner)
    } else {
        t
    }
}

/// `optional_credential`, for a variable.
fn credential(v: &Option<String>) -> (r: Option<String>)
    ensures
        opt_view(r) == optional_credential(opt_view(*v)),
{
    match v {
        None => None,
        Some(s) => {
            let sv = chars_of(s.as_str());
            let t = trim_cr_vec(&sv);
            if t.len() == 0 {
                return None;
            }
            let u = unquote_vec(&t);
            if u.len() == 0 {
                None
            } else {
                Some(string_of(&u))
            }
        },
    }
}

/// The value of an optional variable, or `default`.
fn value_or(v: &Option<String>, default: &str) -> (r: Vec<char>)
    ensures
        r@ == or_default(opt_view(*v), default@),
{
    match v {
        Some(s) => chars_of(s.as_str()),
        None => chars_of(default),
    }
}

impl Config {
    /// Builds the configuration from the environment; invalid or missing
    /// values give an error (fail fast), as `config_outcome` states.
    pub fn from_env(env: &EnvVars) -> (r: Result<Config, ConfigError>)
        ensures
            config_result_view(r) == config_outcome(*env),
            r matches Ok(c) ==> config_wf(c@),
    {
        let listen = trim_cr_vec(&value_or(&env.listen_addr, "0.0.0.0:8080"));
        let vault = trim_cr_vec(&value_or(&env.vault_path, "/vault.kdbx"));
        if !(vault.len() > 0 && vault[0] == '/') {
            proof {
                if starts_with(vault@, seq!['/']) {
                    assert(vault@.take(1)[0] == vault@[0]);
                }
            }
            return Err(ConfigError::Env("RELAY_VAULT_PATH (must start with /)"));
        }
        assert(vault@.take(1) =~= seq!['/']);
        let root_str = match required(&env.webdav_root, "JGY_WEBDAV_ROOT") {
            Ok(t) => t,
            Err(e) => return Err(e),
        };
        let root_trimmed = string_of(&trim_vec_by(&root_str, CharClass::WhiteSpace));
        let root = match WebUrl::parse(root_trimmed.as_str()) {
            Ok(u) => u,
            Err(m) => return Err(ConfigError::Url("JGY_WEBDAV_ROOT", m)),
        };
        let allowed = match &env.allowed_hosts {
            Some(s) => Some(s.as_str()),
            None => None,
        };
        match validate_host(&root, allowed) {
            Ok(()) => {},
            Err(e) => return Err(e),
        }
        let u = match required(&env.username, "JGY_USERNAME") {
            Ok(t) => t,
            Err(e) => return Err(e),
        };
        let jgy_username = string_of(&unquote_vec(&u));
        let p = match required(&env.app_password, "JGY_APP_PASSWORD") {
            Ok(t) => t,
            Err(e) => return Err(e),
        };
        let jgy_app_password = string_of(&unquote_vec(&p));
        let remote = match required(&env.remote_path, "JGY_REMOTE_PATH") {
            Ok(t) => t,
            Err(e) => return Err(e),
        };
        if !(remote.len() > 0 && remote[0] == '/') {
            proof {
                if starts_with(remote@, seq!['/']) {
                    assert(remote@.take(1)[0] == remote@[0]);
                }
            }
            return Err(ConfigError::Env("JGY_REMOTE_PATH (must start with /)"));
        }
        assert(remote@.take(1) =~= seq!['/']);
        let jgy_remote_path = string_of(&remote);
        let jgy_resource_url = match build_resource_url(&root, jgy_remote_path.as_str()) {
            Ok(r) => r,
            Err(m) => return Err(ConfigError::ResourceUrl(m)),
        };
        let relay_auth_user = credential(&env.auth_user);
        let relay_auth_password = credential(&env.auth_password);
        let relay_bearer_token = credential(&env.bearer_token);
        let has_basic = relay_auth_user.is_some() && relay_auth_password.is_some();
        let has_bearer = relay_bearer_token.is_some();
        if !has_basic && !has_bearer {
            return Err(ConfigError::RelayAuth);
        }
        if relay_auth_user.is_some() != relay_auth_password.is_some() {
            return Err(ConfigError::RelayAuth);
        }
        let mb = match required(&env.max_body_bytes, "MAX_BODY_BYTES") {
            Ok(t) => t,
            Err(e) => return Err(e),
        };
        let mb_str = string_of(&mb);
        let max_body_bytes = match parse_usize(mb_str.as_str(), "MAX_BODY_BYTES") {
            Ok(n) => n,
            Err(e) => return Err(e),
        };
        if max_body_bytes == 0 || max_body_bytes > 256 * 1024 * 1024 {
            return Err(ConfigError::Env("MAX_BODY_BYTES (must be 1..=268435456)"));
        }
        let ct = string_of(&value_or(&env.connect_timeout_secs, "10"));
        let connect_timeout = match parse_duration_secs(ct.as_str(), "CONNECT_TIMEOUT_SECS") {
            Ok(n) => n,
            Err(e) => return Err(e),
        };
        let ut = string_of(&value_or(&env.upstream_timeout_secs, "120"));
        let upstream_timeout = match parse_duration_secs(ut.as_str(), "UPSTREAM_TIMEOUT_SECS") {
            Ok(n) => n,
            Err(e) => return Err(e),
        };
        let require_put_baseline = match &env.require_put_baseline {
            Some(v) => {
                let vv = chars_of(v.as_str());
                let zero = chars_of("0");
                let fal = chars_of("false");
                !crate::text::eq_vec(&vv, &zero) && !eq_ignore_ascii_case_vec(&vv, &fal)
            },
            None => true,
        };
        Ok(
            Config {
                listen_addr: string_of(&listen),
                vault_path: string_of(&vault),
                jgy_webdav_root: root,
                jgy_username,
                jgy_app_password,
                jgy_remote_path,
                jgy_resource_url,
                relay_auth_user,
                relay_auth_password,
                relay_bearer_token,
                max_body_bytes,
                connect_timeout,
                upstream_timeout,
                require_put_baseline,
            },
        )
    }
}

// ---------------------------------------------------------------------------
// Matching request paths against the vault path
// ---------------------------------------------------------------------------

/// The value of an ASCII hexadecimal digit (either case).
pub open spec fn hex_value(b: u8) -> Option<u8> {
    if 48 <= b <= 57 {
        Some((b - 48) as u8)
    } else if 97 <= b <= 102 {
        Some((b - 87) as u8)
    } else if 65 <= b <= 70 {
        Some((b - 55) as u8)
    } else {
        None
    }
}

/// The bytes `b` with each `%HH` replaced by the byte it encodes; `None`
/// when some `%` is not followed by two hex digits (an illegal sequence).
pub open spec fn percent_decoded(b: Seq<u8>) -> Option<Seq<u8>>
    decreases b.len(),
{
    if b.len() == 0 {
        Some(Seq::empty())
    } else if b[0] == 37 {
        if b.len() < 3 {
            None
        } else {
            match (hex_value(b[1]), hex_value(b[2])) {
                (Some(h), Some(l)) => match percent_decoded(b.skip(3)) {
                    Some(r) => Some(seq![(h * 16 + l) as u8] + r),
                    None => None,
                },
                _ => None,
            }
        }
    } else {
        match percent_decoded(b.skip(1)) {
            Some(r) => Some(seq![b[0]] + r),
            None => None,
        }
    }
}

/// The text `s` with its `%HH` escapes decoded, when that gives valid UTF-8.
pub open spec fn percent_decoded_text(s: Seq<char>) -> Option<Seq<char>> {
    match percent_decoded(vstd::utf8::encode_utf8(s)) {
        Some(b) => if vstd::utf8::valid_utf8(b) {
            Some(vstd::utf8::decode_utf8(b))
        } else {
            None
        },
        None => None,
    }
}

pub open spec fn prepend(out: Seq<u8>, rest: Option<Seq<u8>>) -> Option<Seq<u8>> {
    match rest {
        Some(r) => Some(out + r),
        None => None,
    }
}

fn hex_exec(b: u8) -> (r: Option<u8>)
    ensures
        r == hex_value(b),
{
    if 48 <= b && b <= 57 {
        Some(b - 48)
    } else if 97 <= b && b <= 102 {
        Some(b - 87)
    } else if 65 <= b && b <= 70 {
        Some(b - 55)
    } else {
        None
    }
}

/// Decodes the `%HH` escapes of a path (hex digits of either case); `None`
/// for a malformed escape or when the result is not UTF-8.
pub fn percent_decode_path(input: &str) -> (r: Option<String>)
    ensures
        opt_view(r) == percent_decoded_text(input@),
{
    let bytes = input.as_bytes();
    let ghost b = bytes@;
    assert(b == vstd::utf8::encode_utf8(input@));
    let mut out: Vec<u8> = Vec::new();
    let mut i: usize = 0;
    assert(b.skip(0) =~= b);
    while i < bytes.len()
        invariant
            b == bytes@,
            b == vstd::utf8::encode_utf8(input@),
            i <= bytes.len(),
            percent_decoded(b) == prepend(out@, percent_decoded(b.skip(i as int))),
        decreases bytes.len() - i,
    {
        let ghost rest = b.skip(i as int);
        if bytes[i] == 37 {
            if bytes.len() - i <= 2 {
                assert(rest[0] == 37 && rest.len() < 3);
                return None;
            }
            assert(rest[0] == 37 && rest[1] == b[i + 1] && rest[2] == b[i + 2]);
            let hi = match hex_exec(bytes[i + 1]) {
                Some(h) => h,
                None => {
                    assert(percent_decoded(rest) is None);
                    return None;
                },
            };
            let lo = match hex_exec(bytes[i + 2]) {
                Some(l) => l,
                None => {
                    assert(percent_decoded(rest) is None);
                    return None;
                },
            };
            let v = hi * 16 + lo;
            proof {
                assert(rest.skip(3) =~= b.skip(i + 3));
                match percent_decoded(rest.skip(3)) {
                    Some(r) => {
                        assert(out@.push(v) + r =~= out@ + (seq![v] + r));
                    },
                    None => {},
                }
            }
            out.push(v);
            i += 3;
        } else {
            let x = bytes[i];
            proof {
                assert(rest[0] == x);
                assert(rest.skip(1) =~= b.skip(i + 1));
                match percent_decoded(rest.skip(1)) {
                    Some(r) => {
                        assert(out@.push(x) + r =~= out@ + (seq![x] + r));
                    },
                    None => {},
                }
            }
            out.push(x);
            i += 1;
        }
    }
    assert(b.skip(i as int) =~= Seq::<u8>::empty());
    assert(out@ + Seq::<u8>::empty() =~= out@);
    string_from_utf8(out)
}

/// The form in which request paths are compared: the path of the URL
/// `http://relay.invalid` + `path`, percent-decoded; `None` when `path` does
/// not start with `/`, does not parse, or does not decode.
pub open spec fn match_form(path: Seq<char>) -> Option<Seq<char>> {
    if !starts_with(path, seq!['/']) {
        None
    } else {
        match url_parse_outcome("http://relay.invalid"@ + path) {
            Ok(u) => percent_decoded_text(u.path),
            Err(_) => None,
        }
    }
}

/// A request path names the vault when both have a match form and the two
/// agree, or else when the two are the same text.
pub open spec fn is_vault_path(vault: Seq<char>, uri_path: Seq<char>) -> bool {
    match (match_form(uri_path), match_form(vault)) {
        (Some(a), Some(b)) => a == b,
        _ => uri_path == vault,
    }
}

impl Config {
    /// Whether the request path (percent-encoded or literal UTF-8) names the
    /// vault path of the configuration (see `is_vault_path`).
    pub fn request_is_vault_path(&self, uri_path: &str) -> (b: bool)
        ensures
            b == is_vault_path(self.vault_path@, uri_path@),
    {
        match (Self::normalize_path_for_match(uri_path), Self::normalize_path_for_match(self.vault_path.as_str())) {
            (Some(a), Some(b)) => {
                let av = chars_of(a.as_str());
                let bv = chars_of(b.as_str());
                crate::text::eq_vec(&av, &bv)
            },
            _ => crate::text::str_eq(uri_path, self.vault_path.as_str()),
        }
    }

    /// The match form of a path (see `match_form`).
    fn normalize_path_for_match(path: &str) -> (r: Option<String>)
        ensures
            opt_view(r) == match_form(path@),
    {
        let pv = chars_of(path);
        if !(pv.len() > 0 && pv[0] == '/') {
            proof {
                if starts_with(pv@, seq!['/']) {
                    assert(pv@.take(1)[0] == pv@[0]);
                }
            }
            return None;
        }
        assert(pv@.take(1) =~= seq!['/']);
        let mut sv = chars_of("http://relay.invalid");
        let ghost prefix = sv@;
        let mut i: usize = 0;
        while i < pv.len()
            invariant
                i <= pv.len(),
                sv@ == prefix + pv@.take(i as int),
            decreases pv.len() - i,
        {
            sv.push(pv[i]);
            assert(prefix + pv@.take(i + 1) =~= (prefix + pv@.take(i as int)).push(pv@[i as int]));
            i += 1;
        }
        assert(pv@.take(pv@.len() as int) =~= pv@);
        let synthetic = string_of(&sv);
        match WebUrl::parse(synthetic.as_str()) {
            Ok(u) => percent_decode_path(u.path()),
            Err(_) => None,
        }
    }
}

// ---------------------------------------------------------------------------
// Laws
// ---------------------------------------------------------------------------

/// The configured vault path always names the vault itself.
pub proof fn lemma_vault_path_names_itself(vault: Seq<char>)
    ensures
        is_vault_path(vault, vault),
{
}

/// No byte of the UTF-8 encoding of a character other than `%` is `%`.
proof fn lemma_scalar_without_percent(v: u32)
    requires
        vstd::utf8::is_scalar(v),
        v != 37,
    ensures
        forall|i: int| 0 <= i < vstd::utf8::encode_scalar(v).len() ==> #[trigger] vstd::utf8::encode_scalar(v)[i] != 37,
{
    let e = vstd::utf8::encode_scalar(v);
    if vstd::utf8::has_width_1_encoding(v) {
        assert(((v & 0x7F) as u8) != 37u8) by (bit_vector)
            requires
                v <= 0x7f,
                v != 37,
        ;
    } else {
        assert(vstd::utf8::leading_byte_width_2(v) != 37u8) by (bit_vector);
        assert(vstd::utf8::leading_byte_width_3(v) != 37u8) by (bit_vector);
        assert(vstd::utf8::leading_byte_width_4(v) != 37u8) by (bit_vector);
        assert(vstd::utf8::last_continuation_byte(v) != 37u8) by (bit_vector);
        assert(vstd::utf8::second_last_continuation_byte(v) != 37u8) by (bit_vector);
        assert(vstd::utf8::third_last_continuation_byte(v) != 37u8) by (bit_vector);
    }
}

/// The UTF-8 encoding of a text without `%` holds no byte `%`.
proof fn lemma_encoding_without_percent(s: Seq<char>)
    requires
        forall|i: int| 0 <= i < s.len() ==> s[i] != '%',
    ensures
        forall|i: int| 0 <= i < vstd::utf8::encode_utf8(s).len() ==> #[trigger] vstd::utf8::encode_utf8(s)[i] != 37,
    decreases s.len(),
{
    if s.len() > 0 {
        let t = s.drop_first();
        assert forall|i: int| 0 <= i < t.len() implies t[i] != '%' by {
            assert(t[i] == s[i + 1]);
        }
        lemma_encoding_without_percent(t);
        vstd::utf8::char_is_scalar(s[0]);
        assert((s[0] as u32) != 37) by {
            vstd::utf8::char_u32_cast(s[0], s[0] as u32);
            assert(('%' as u32) == 37);
        }
        lemma_scalar_without_percent(s[0] as u32);
        let e = vstd::utf8::encode_scalar(s[0] as u32);
        let r = vstd::utf8::encode_utf8(t);
        assert(vstd::utf8::encode_utf8(s) == e + r);
        assert forall|i: int| 0 <= i < (e + r).len() implies #[trigger] (e + r)[i] != 37 by {
            if i < e.len() {
                assert((e + r)[i] == e[i]);
            } else {
                assert((e + r)[i] == r[i - e.len()]);
            }
        }
    }
}

/// Bytes without `%` decode to themselves.
proof fn lemma_decoded_without_percent(b: Seq<u8>)
    requires
        forall|i: int| 0 <= i < b.len() ==> b[i] != 37,
    ensures
        percent_decoded(b) == Some(b),
    decreases b.len(),
{
    if b.len() > 0 {
        let t = b.skip(1);
        assert forall|i: int| 0 <= i < t.len() implies t[i] != 37 by {
            assert(t[i] == b[i + 1]);
        }
        lemma_decoded_without_percent(t);
        assert(seq![b[0]] + t =~= b);
    }
}

/// A path without `%` is its own percent-decoding.
pub proof fn lemma_percent_free_path_decodes_to_itself(s: Seq<char>)
    requires
        forall|i: int| 0 <= i < s.len() ==> s[i] != '%',
    ensures
        percent_decoded_text(s) == Some(s),
{
    lemma_encoding_without_percent(s);
    lemma_decoded_without_percent(vstd::utf8::encode_utf8(s));
    vstd::utf8::encode_utf8_valid_utf8(s);
    vstd::utf8::encode_utf8_decode_utf8(s);
}

/// The ASCII code of the hex digit for `n` (below 16), upper or lower case.
pub open spec fn hex_digit(n: u8, upper: bool) -> u8 {
    if n < 10 {
        (48 + n) as u8
    } else if upper {
        (55 + n) as u8
    } else {
        (87 + n) as u8
    }
}

/// Every byte of `b` written as `%HH`.
pub open spec fn percent_encoded(b: Seq<u8>, upper: bool) -> Seq<u8>
    decreases b.len(),
{
    if b.len() == 0 {
        Seq::empty()
    } else {
        seq![37u8, hex_digit(b[0] / 16, upper), hex_digit(b[0] % 16, upper)] + percent_encoded(
            b.skip(1),
            upper,
        )
    }
}

/// The text `s` with every byte of its UTF-8 encoding written as `%HH`.
pub open spec fn percent_encoded_text(s: Seq<char>, upper: bool) -> Seq<char> {
    percent_encoded(vstd::utf8::encode_utf8(s), upper).map_values(|b: u8| b as char)
}

proof fn lemma_percent_encoded_decodes(b: Seq<u8>, upper: bool)
    ensures
        percent_decoded(percent_encoded(b, upper)) == Some(b),
        forall|i: int| 0 <= i < percent_encoded(b, upper).len() ==> #[trigger] percent_encoded(b, upper)[i] < 128,
    decreases b.len(),
{
    if b.len() > 0 {
        let e = percent_encoded(b, upper);
        let t = percent_encoded(b.skip(1), upper);
        lemma_percent_encoded_decodes(b.skip(1), upper);
        let x = b[0];
        let h = x / 16;
        let l = x % 16;
        assert(h < 16 && l < 16 && h * 16 + l == x);
        assert(e[0] == 37u8);
        assert(e[1] == hex_digit(h, upper));
        assert(e[2] == hex_digit(l, upper));
        assert(hex_value(hex_digit(h, upper)) == Some(h));
        assert(hex_value(hex_digit(l, upper)) == Some(l));
        assert(e.skip(3) =~= t);
        assert(seq![x] + b.skip(1) =~= b);
        assert forall|i: int| 0 <= i < e.len() implies #[trigger] e[i] < 128 by {
            if i >= 3 {
                assert(e[i] == t[i - 3]);
            }
        }
    }
}

/// Text of ASCII bytes encodes back to those bytes.
proof fn lemma_ascii_text_encodes(b: Seq<u8>)
    requires
        forall|i: int| 0 <= i < b.len() ==> #[trigger] b[i] < 128,
    ensures
        vstd::utf8::encode_utf8(b.map_values(|x: u8| x as char)) == b,
    decreases b.len(),
{
    if b.len() > 0 {
        let t = b.map_values(|x: u8| x as char);
        let rest = b.skip(1);
        assert forall|i: int| 0 <= i < rest.len() implies #[trigger] rest[i] < 128 by {
            assert(rest[i] == b[i + 1]);
        }
        lemma_ascii_text_encodes(rest);
        assert(t.drop_first() =~= rest.map_values(|x: u8| x as char));
        let v = b[0];
        assert(v < 128);
        assert(((v as char) as u32) == v as u32);
        let u = v as u32;
        assert(((u & 0x7F) as u8) == v) by (bit_vector)
            requires
                u == v as u32,
                v < 128,
        ;
        assert(vstd::utf8::encode_scalar(t[0] as u32) =~= seq![v]);
        assert(seq![v] + rest =~= b);
    }
}

/// Writing every byte of a path's UTF-8 encoding as `%HH` (hex digits of
/// either case) and decoding it gives the path back.
pub proof fn lemma_percent_encoding_round_trip(s: Seq<char>, upper: bool)
    ensures
        percent_decoded_text(percent_encoded_text(s, upper)) == Some(s),
{
    let b = vstd::utf8::encode_utf8(s);
    lemma_percent_encoded_decodes(b, upper);
    lemma_ascii_text_encodes(percent_encoded(b, upper));
    vstd::utf8::encode_utf8_valid_utf8(s);
    vstd::utf8::encode_utf8_decode_utf8(s);
}

/// Whether a request path names the vault does not depend on which of the
/// two is the configured one.
pub proof fn lemma_vault_match_symmetric(a: Seq<char>, b: Seq<char>)
    ensures
        is_vault_path(a, b) == is_vault_path(b, a),
{
}

/// A configuration keeps the paths it was given: the vault path is the
/// trimmed `RELAY_VAULT_PATH` (`/vault.kdbx` only when the variable is unset),
/// the listen address the trimmed `LISTEN_ADDR` (`0.0.0.0:8080` when unset),
/// and the remote path the trimmed `JGY_REMOTE_PATH`.
pub proof fn lemma_config_keeps_given_paths(env: EnvVars)
    requires
        config_outcome(env) is Ok,
    ensures
        ({
            let c = config_outcome(env)->Ok_0;
            &&& match env.vault_path {
                Some(v) => c.vault_path == trim_cr(v@),
                None => c.vault_path == trim_cr("/vault.kdbx"@),
            }
            &&& match env.listen_addr {
                Some(a) => c.listen_addr == trim_cr(a@),
                None => c.listen_addr == trim_cr("0.0.0.0:8080"@),
            }
            &&& env.remote_path matches Some(r) && c.remote_path == trim_cr(r@)
        }),
{
}

/// When both paths have a match form, a request path names the vault exactly
/// when the two match forms are equal.
pub proof fn lemma_vault_match_by_forms(vault: Seq<char>, uri_path: Seq<char>)
    requires
        match_form(uri_path) is Some,
        match_form(vault) is Some,
    ensures
        is_vault_path(vault, uri_path) <==> match_form(uri_path) == match_form(vault),
{
}

/// A request path whose match form differs in length from the vault's (such
/// as a folder above it, or `/`) never names the vault; without match forms,
/// only the very same text does.
pub proof fn lemma_other_forms_are_not_vault(vault: Seq<char>, uri_path: Seq<char>)
    ensures
        match_form(uri_path) is Some && match_form(vault) is Some && match_form(uri_path)->0.len()
            != match_form(vault)->0.len() ==> !is_vault_path(vault, uri_path),
        (match_form(uri_path) is None || match_form(vault) is None) ==> (is_vault_path(
            vault,
            uri_path,
        ) <==> uri_path == vault),
{
}

/// A configuration is only ever built for an upstream root on an allowed
/// host, and its resource URL is the one built from that root and the remote
/// path (no other upstream can be reached).
pub proof fn lemma_config_upstream_is_allowed(env: EnvVars)
    requires
        config_outcome(env) is Ok,
    ensures
        ({
            let c = config_outcome(env)->Ok_0;
            &&& c.webdav_root.host is Some
            &&& validate::allowed_hosts(opt_view(env.allowed_hosts)).contains(
                crate::text::to_ascii_lower(c.webdav_root.host->0),
            )
            &&& resource_url_outcome(c.webdav_root.text, c.remote_path) == Ok::<UrlParts, Seq<char>>(
                c.resource_url,
            )
        }),
{
}

} // verus!
