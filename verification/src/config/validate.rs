//! Checks and conversions for configuration values.
use vstd::prelude::*;

use super::weburl::{url_join_outcome, url_outcome_view, url_parse_outcome, UrlParts, WebUrl};
use super::ConfigError;
use crate::text::{
    chars_of, eq_vec, split_by, split_vec, starts_with, ends_with, string_of, to_ascii_lower,
    to_ascii_lower_vec, trim, trim_start_by, trim_start_vec, trim_vec_by, CharClass,
};

verus! {

// ---------------------------------------------------------------------------
// Decimal numbers
// ---------------------------------------------------------------------------

pub open spec fn is_digit(c: char) -> bool {
    '0' <= c && c <= '9'
}

pub open spec fn digit_value(c: char) -> int {
    (c as int) - ('0' as int)
}

/// The value of the decimal numeral `s` (most significant digit first).
pub open spec fn decimal_value(s: Seq<char>) -> int
    decreases s.len(),
{
    if s.len() == 0 {
        0
    } else {
        decimal_value(s.drop_last()) * 10 + digit_value(s.last())
    }
}

pub open spec fn all_digits(s: Seq<char>) -> bool {
    forall|i: int| 0 <= i < s.len() ==> is_digit(#[trigger] s[i])
}

/// What `str::parse` gives for an unsigned integer type whose largest value
/// is `max`: an optional `+`, then one or more decimal digits, whose value
/// must not exceed `max`.
pub open spec fn parse_unsigned(s: Seq<char>, max: int) -> Option<int> {
    let d = if s.len() > 0 && s[0] == '+' {
        s.drop_first()
    } else {
        s
    };
    if d.len() > 0 && all_digits(d) && decimal_value(d) <= max {
        Some(decimal_value(d))
    } else {
        None
    }
}

proof fn lemma_decimal_nonneg(s: Seq<char>)
    requires
        all_digits(s),
    ensures
        decimal_value(s) >= 0,
    decreases s.len(),
{
    if s.len() > 0 {
        assert(is_digit(s[s.len() - 1]));
        lemma_decimal_nonneg(s.drop_last());
    }
}

/// The value of a numeral is at least that of each of its prefixes.
proof fn lemma_decimal_prefix(s: Seq<char>, i: int)
    requires
        all_digits(s),
        0 <= i <= s.len(),
    ensures
        decimal_value(s.take(i)) <= decimal_value(s),
    decreases s.len() - i,
{
    if i < s.len() {
        let t = s.drop_last();
        assert forall|k: int| 0 <= k < t.len() implies is_digit(#[trigger] t[k]) by {
            assert(t[k] == s[k]);
        }
        lemma_decimal_prefix(t, i);
        assert(t.take(i) =~= s.take(i));
        lemma_decimal_nonneg(t);
        assert(is_digit(s[s.len() - 1]));
    } else {
        assert(s.take(i) =~= s);
    }
}

/// Parses an unsigned decimal numeral as `str::parse` does for an integer
/// type whose largest value is `max`.
fn parse_decimal(v: &Vec<char>, max: u64) -> (r: Option<u64>)
    ensures
        match r {
            Some(n) => parse_unsigned(v@, max as int) == Some(n as int),
            None => parse_unsigned(v@, max as int) is None,
        },
{
    let start: usize = if v.len() > 0 && v[0] == '+' {
        1
    } else {
        0
    };
    let ghost d = if v@.len() > 0 && v@[0] == '+' {
        v@.drop_first()
    } else {
        v@
    };
    assert(d =~= v@.skip(start as int));
    if start == v.len() {
        return None;
    }
    let mut acc: u64 = 0;
    let mut i: usize = start;
    while i < v.len()
        invariant
            start <= i <= v.len(),
            d == v@.skip(start as int),
            d == (if v@.len() > 0 && v@[0] == '+' {
                v@.drop_first()
            } else {
                v@
            }),
            d.len() > 0,
            acc as int == decimal_value(d.take(i - start)),
            acc <= max,
            all_digits(d.take(i - start)),
        decreases v.len() - i,
    {
        let c = v[i];
        if !('0' <= c && c <= '9') {
            assert(d[i - start] == c);
            assert(!all_digits(d));
            return None;
        }
        let dig: u64 = (c as u32 - '0' as u32) as u64;
        let next: u128 = (acc as u128) * 10 + (dig as u128);
        proof {
            let k = (i - start) as int;
            assert(d.take(k + 1).drop_last() =~= d.take(k));
            assert(d.take(k + 1).last() == c);
            assert(next == decimal_value(d.take(k + 1)));
            assert forall|j: int| 0 <= j < k + 1 implies is_digit(#[trigger] d.take(k + 1)[j]) by {
                if j < k {
                    assert(d.take(k + 1)[j] == d.take(k)[j]);
                }
            }
        }
        if next > max as u128 {
            proof {
                let k = (i - start) as int;
                if all_digits(d) {
                    lemma_decimal_prefix(d, k + 1);
                }
            }
            return None;
        }
        acc = next as u64;
        i += 1;
    }
    assert(d.take(v@.len() - start) =~= d);
    Some(acc)
}

/// Parses a `usize` as `str::parse` does; `key` names the variable in the error.
pub fn parse_usize(s: &str, key: &'static str) -> (r: Result<usize, ConfigError>)
    ensures
        match r {
            Ok(n) => parse_unsigned(s@, usize::MAX as int) == Some(n as int),
            Err(e) => parse_unsigned(s@, usize::MAX as int) is None && e@ == super::ConfigErrorView::Env(key@),
        },
{
    let v = chars_of(s);
    match parse_decimal(&v, usize::MAX as u64) {
        Some(n) => Ok(n as usize),
        None => Err(ConfigError::Env(key)),
    }
}

/// The number of seconds that a duration variable holds: a `u64` numeral
/// between 1 and 86400 (one day).
pub open spec fn duration_secs(s: Seq<char>) -> Option<int> {
    match parse_unsigned(s, u64::MAX as int) {
        Some(n) => if 1 <= n <= 86400 {
            Some(n)
        } else {
            None
        },
        None => None,
    }
}

/// Parses a duration in whole seconds (1..=86400); `key` names the variable
/// in the error.
pub fn parse_duration_secs(s: &str, key: &'static str) -> (r: Result<u64, ConfigError>)
    ensures
        match r {
            Ok(n) => duration_secs(s@) == Some(n as int),
            Err(e) => duration_secs(s@) is None && e@ == super::ConfigErrorView::Env(key@),
        },
{
    let v = chars_of(s);
    match parse_decimal(&v, u64::MAX) {
        Some(n) => {
            if n == 0 || n > 86400 {
                Err(ConfigError::Env(key))
            } else {
                Ok(n)
            }
        },
        None => Err(ConfigError::Env(key)),
    }
}

// ---------------------------------------------------------------------------
// Upstream host and resource URL
// ---------------------------------------------------------------------------

/// The hosts that the upstream may be on: those listed (comma separated,
/// trimmed, lower-cased) in `JGY_ALLOWED_HOSTS` when it holds more than white
/// space, else only `dav.jianguoyun.com`.
pub open spec fn allowed_hosts(env: Option<Seq<char>>) -> Seq<Seq<char>> {
    match env {
        Some(s) => if trim(s).len() > 0 {
            split_by(s, ',').map_values(|h: Seq<char>| to_ascii_lower(trim(h)))
        } else {
            seq!["dav.jianguoyun.com"@]
        },
        None => seq!["dav.jianguoyun.com"@],
    }
}

/// The outcome of the host check for a URL whose host is `host`.
pub open spec fn host_check(host: Option<Seq<char>>, env: Option<Seq<char>>) -> Result<
    (),
    super::ConfigErrorView,
> {
    match host {
        None => Err(super::ConfigErrorView::Url("JGY_WEBDAV_ROOT"@, "missing host"@)),
        Some(h) => if allowed_hosts(env).contains(to_ascii_lower(h)) {
            Ok(())
        } else {
            Err(super::ConfigErrorView::HostNotAllowed(h))
        },
    }
}

pub open spec fn unit_result_view(r: Result<(), ConfigError>) -> Result<(), super::ConfigErrorView> {
    match r {
        Ok(()) => Ok(()),
        Err(e) => Err(e@),
    }
}

/// Accepts the upstream root only on an allowed host (against SSRF and
/// misconfiguration); `allowed_hosts_env` is the value of `JGY_ALLOWED_HOSTS`.
pub fn validate_host(root: &WebUrl, allowed_hosts_env: Option<&str>) -> (r: Result<(), ConfigError>)
    ensures
        unit_result_view(r) == host_check(
            root@.host,
            match allowed_hosts_env {
                Some(s) => Some(s@),
                None => None,
            },
        ),
{
    let ghost env = match allowed_hosts_env {
        Some(s) => Some(s@),
        None => None,
    };
    let host = match root.host_str() {
        Some(h) => h,
        None => {
            return Err(ConfigError::Url("JGY_WEBDAV_ROOT", "missing host".to_owned()));
        },
    };
    let mut allowed: Vec<Vec<char>> = Vec::new();
    let mut use_default = true;
    if let Some(s) = allowed_hosts_env {
        let sv = chars_of(s);
        let st = trim_vec_by(&sv, CharClass::WhiteSpace);
        if st.len() > 0 {
            use_default = false;
            let parts = split_vec(&sv, ',');
            let ghost pv = parts@.map_values(|p: Vec<char>| p@);
            let mut i: usize = 0;
            while i < parts.len()
                invariant
                    i <= parts.len(),
                    pv == parts@.map_values(|p: Vec<char>| p@),
                    allowed@.map_values(|p: Vec<char>| p@) == pv.take(i as int).map_values(
                        |h: Seq<char>| to_ascii_lower(trim(h)),
                    ),
                decreases parts.len() - i,
            {
                let t = trim_vec_by(&parts[i], CharClass::WhiteSpace);
                let l = to_ascii_lower_vec(&t);
                let ghost before = allowed@.map_values(|p: Vec<char>| p@);
                allowed.push(l);
                assert(allowed@.map_values(|p: Vec<char>| p@) =~= before.push(l@));
                assert(pv.take(i + 1).map_values(|h: Seq<char>| to_ascii_lower(trim(h))) =~= pv.take(
                    i as int,
                ).map_values(|h: Seq<char>| to_ascii_lower(trim(h))).push(to_ascii_lower(trim(pv[i as int]))));
                i += 1;
            }
            assert(pv.take(parts@.len() as int) =~= pv);
        }
    }
    if use_default {
        allowed.push(chars_of("dav.jianguoyun.com"));
        assert(allowed@.map_values(|p: Vec<char>| p@) =~= seq!["dav.jianguoyun.com"@]);
    }
    let ghost al = allowed@.map_values(|p: Vec<char>| p@);
    assert(al == allowed_hosts(env));
    let hv = chars_of(host);
    let hl = to_ascii_lower_vec(&hv);
    let mut i: usize = 0;
    while i < allowed.len()
        invariant
            i <= allowed.len(),
            al == allowed@.map_values(|p: Vec<char>| p@),
            al == allowed_hosts(env),
            env == (match allowed_hosts_env {
                Some(s) => Some(s@),
                None => None,
            }),
            root@.host == Some(host@),
            hl@ == to_ascii_lower(host@),
            forall|k: int| 0 <= k < i ==> al[k] != hl@,
        decreases allowed.len() - i,
    {
        if eq_vec(&allowed[i], &hl) {
            assert(al[i as int] == hl@);
            assert(al.contains(hl@));
            return Ok(());
        }
        i += 1;
    }
    assert(!al.contains(hl@));
    Err(ConfigError::HostNotAllowed(host.to_owned()))
}

/// The upstream resource URL for the WebDAV root serialized as `root` and
/// the remote path `remote`: the path, trimmed, must start with `/`; it is
/// joined, without its leading slashes, to the root with a trailing slash.
pub open spec fn resource_url_outcome(root: Seq<char>, remote: Seq<char>) -> Result<
    UrlParts,
    Seq<char>,
> {
    let path = trim(remote);
    if !starts_with(path, seq!['/']) {
        Err("JGY_REMOTE_PATH must start with '/'"@)
    } else {
        let base = if ends_with(root, seq!['/']) {
            root
        } else {
            root.push('/')
        };
        match url_parse_outcome(base) {
            Err(m) => Err(m),
            Ok(b) => url_join_outcome(b.text, trim_start_by(path, CharClass::Exactly('/'))),
        }
    }
}

/// Builds the URL of the upstream resource from the WebDAV root and the
/// remote path (see `resource_url_outcome`).
pub fn build_resource_url(root: &WebUrl, remote_path: &str) -> (r: Result<WebUrl, String>)
    ensures
        url_outcome_view(r) == resource_url_outcome(root@.text, remote_path@),
{
    let rv = chars_of(remote_path);
    let path = trim_vec_by(&rv, CharClass::WhiteSpace);
    if !(path.len() > 0 && path[0] == '/') {
        proof {
            if starts_with(path@, seq!['/']) {
                assert(path@.take(1)[0] == path@[0]);
            }
        }
        return Err("JGY_REMOTE_PATH must start with '/'".to_owned());
    }
    assert(path@.take(1) =~= seq!['/']);
    let mut base = chars_of(root.as_str());
    if !(base.len() > 0 && base[base.len() - 1] == '/') {
        proof {
            if ends_with(base@, seq!['/']) {
                assert(base@.skip(base@.len() - 1)[0] == base@[base@.len() - 1]);
            }
        }
        base.push('/');
    } else {
        assert(base@.skip(base@.len() - 1) =~= seq!['/']);
    }
    let base_str = string_of(&base);
    let parsed = match WebUrl::parse(base_str.as_str()) {
        Ok(u) => u,
        Err(m) => return Err(m),
    };
    let rel = trim_start_vec(&path, CharClass::Exactly('/'));
    let rel_str = string_of(&rel);
    parsed.join(rel_str.as_str())
}

} // verus!
