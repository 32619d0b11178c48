//! Authentication of client requests to the relay: Basic and/or Bearer.
use vstd::prelude::*;
use base64::Engine;
use http::HeaderMap;
use subtle::ConstantTimeEq;

use crate::config::{Config, ConfigView};
use crate::headers::{header_str, header_text, lemma_known_header_names};
use crate::text::{
    chars_of, find_char, find_char_vec, starts_with, starts_with_vec, string_from_utf8, string_of,
    sub_vec, trim_cr, trim_cr_vec,
};

verus! {

#[verifier::external_type_specification]
#[verifier::external_body]
pub struct ExDecodeError(base64::DecodeError);

/// What the standard base64 engine (`base64::engine::general_purpose::STANDARD`,
/// padded, canonical) decodes `input` to, or `None` when it rejects it.
pub uninterp spec fn base64_standard_decode(input: Seq<u8>) -> Option<Seq<u8>>;

/// `Engine::decode` of the standard engine.
#[verifier::external_body]
fn base64_decode(input: &[u8]) -> (r: Result<Vec<u8>, base64::DecodeError>)
    ensures
        match r {
            Ok(v) => base64_standard_decode(input@) == Some(v@),
            Err(_) => base64_standard_decode(input@) is None,
        },
{
    base64::engine::general_purpose::STANDARD.decode(input)
}

/// `ConstantTimeEq::ct_eq` on byte slices, read as a `bool`: whether the two
/// slices are equal (same length, same bytes).
#[verifier::external_body]
fn ct_eq_bytes(a: &[u8], b: &[u8]) -> (r: bool)
    ensures
        r == (a@ == b@),
{
    a.ct_eq(b).into()
}

/// The bytes of a text made of ASCII characters.
pub open spec fn ascii_bytes(s: Seq<char>) -> Seq<u8> {
    s.map_values(|c: char| (c as u32) as u8)
}

/// A Bearer header value that carries `expected` (both compared trimmed).
pub open spec fn bearer_accepts(auth: Option<Seq<char>>, expected: Seq<char>) -> bool {
    match auth {
        None => false,
        Some(a) => starts_with(a, "Bearer "@) && trim_cr(a.skip(7)) == trim_cr(expected),
    }
}

/// Decoded Basic credentials `bytes` that are UTF-8 text `name:secret` (split
/// at the first `:`) with `name` and `secret`, trimmed, equal to `user` and
/// `pass`.
pub open spec fn credentials_match(bytes: Seq<u8>, user: Seq<char>, pass: Seq<char>) -> bool {
    vstd::utf8::valid_utf8(bytes) && {
        let creds = vstd::utf8::decode_utf8(bytes);
        let i = find_char(creds, ':');
        i >= 0 && trim_cr(creds.take(i)) == user && trim_cr(creds.skip(i + 1)) == pass
    }
}

/// A Basic header value whose base64 payload decodes to credentials that
/// match `user` and `pass`.
pub open spec fn basic_accepts(auth: Option<Seq<char>>, user: Seq<char>, pass: Seq<char>) -> bool {
    match auth {
        None => false,
        Some(a) => starts_with(a, "Basic "@) && match base64_standard_decode(ascii_bytes(a.skip(6))) {
            None => false,
            Some(bytes) => credentials_match(bytes, user, pass),
        },
    }
}

/// Whether a request with the `Authorization` value `auth` is let through:
/// by the Bearer token when one is configured, or by the Basic user and
/// password when both are.
pub open spec fn request_accepted(cfg: ConfigView, auth: Option<Seq<char>>) -> bool {
    ||| (match cfg.bearer_token {
        Some(t) => bearer_accepts(auth, t),
        None => false,
    })
    ||| (match (cfg.auth_user, cfg.auth_password) {
        (Some(u), Some(p)) => basic_accepts(auth, u, p),
        _ => false,
    })
}

/// Whether the request carries valid relay credentials (either kind).
pub fn validate_request(cfg: &Config, headers: &HeaderMap) -> (b: bool)
    ensures
        b == request_accepted(cfg@, header_text(*headers, "authorization"@)),
{
    if let Some(token) = &cfg.relay_bearer_token {
        if bearer_matches(headers, token.as_str()) {
            return true;
        }
    }
    if let (Some(u), Some(p)) = (&cfg.relay_auth_user, &cfg.relay_auth_password) {
        if basic_matches(headers, u.as_str(), p.as_str()) {
            return true;
        }
    }
    false
}

/// The challenge to send with a 401, so that desktop and WebDAV clients retry
/// with credentials: Basic when Basic is configured, else Bearer when a token
/// is, else none.
pub open spec fn challenge_for(cfg: ConfigView) -> Option<Seq<char>> {
    if cfg.auth_user is Some && cfg.auth_password is Some {
        Some("Basic realm=\"JianGuoYunRelay\", charset=\"UTF-8\""@)
    } else if cfg.bearer_token is Some {
        Some("Bearer realm=\"JianGuoYunRelay\""@)
    } else {
        None
    }
}

/// The `WWW-Authenticate` challenge for a 401 response (see `challenge_for`).
pub fn www_authenticate_challenge(cfg: &Config) -> (r: Option<&'static str>)
    ensures
        match r {
            Some(s) => challenge_for(cfg@) == Some(s@),
            None => challenge_for(cfg@) is None,
        },
{
    if cfg.relay_auth_user.is_some() && cfg.relay_auth_password.is_some() {
        return Some("Basic realm=\"JianGuoYunRelay\", charset=\"UTF-8\"");
    }
    if cfg.relay_bearer_token.is_some() {
        return Some("Bearer realm=\"JianGuoYunRelay\"");
    }
    None
}

fn bearer_matches(headers: &HeaderMap, expected: &str) -> (b: bool)
    ensures
        b == bearer_accepts(header_text(*headers, "authorization"@), expected@),
{
    proof {
        lemma_known_header_names();
    }
    let auth = match header_str(headers, "authorization") {
        Some(a) => a,
        None => return false,
    };
    let av = chars_of(auth.as_str());
    let prefix = chars_of("Bearer ");
    if !starts_with_vec(&av, &prefix) {
        return false;
    }
    proof {
        reveal_strlit("Bearer ");
    }
    let rest = sub_vec(&av, 7, av.len());
    assert(rest@ =~= av@.skip(7));
    let token = trim_cr_vec(&rest);
    let ev = chars_of(expected);
    let exp = trim_cr_vec(&ev);
    let ts = string_of(&token);
    let es = string_of(&exp);
    ct_eq_str(ts.as_str(), es.as_str())
}

fn basic_matches(headers: &HeaderMap, user: &str, pass: &str) -> (b: bool)
    ensures
        b == basic_accepts(header_text(*headers, "authorization"@), user@, pass@),
{
    proof {
        lemma_known_header_names();
    }
    let auth = match header_str(headers, "authorization") {
        Some(a) => a,
        None => return false,
    };
    let av = chars_of(auth.as_str());
    let prefix = chars_of("Basic ");
    if !starts_with_vec(&av, &prefix) {
        return false;
    }
    proof {
        reveal_strlit("Basic ");
    }
    let mut payload: Vec<u8> = Vec::new();
    let mut i: usize = 6;
    while i < av.len()
        invariant
            6 <= i <= av.len(),
            payload@ == ascii_bytes(av@.subrange(6, i as int)),
        decreases av.len() - i,
    {
        payload.push((av[i] as u32) as u8);
        assert(ascii_bytes(av@.subrange(6, i + 1)) =~= ascii_bytes(av@.subrange(6, i as int)).push(
            (av@[i as int] as u32) as u8,
        ));
        i += 1;
    }
    assert(av@.subrange(6, av@.len() as int) =~= av@.skip(6));
    match base64_decode(payload.as_slice()) {
        Ok(decoded) => decoded_credentials_match(decoded, user, pass),
        Err(_) => false,
    }
}

/// Whether decoded Basic credentials match `user` and `pass` (see
/// `credentials_match`); the two parts are compared in constant time.
pub fn decoded_credentials_match(decoded: Vec<u8>, user: &str, pass: &str) -> (b: bool)
    ensures
        b == credentials_match(decoded@, user@, pass@),
{
    let creds = match string_from_utf8(decoded) {
        Some(s) => s,
        None => return false,
    };
    let cv = chars_of(creds.as_str());
    let colon = match find_char_vec(&cv, ':') {
        Some(k) => k,
        None => return false,
    };
    proof {
        crate::text::lemma_find_char(cv@, ':');
    }
    let uv = sub_vec(&cv, 0, colon);
    let pv = sub_vec(&cv, colon + 1, cv.len());
    assert(uv@ =~= cv@.take(colon as int));
    assert(pv@ =~= cv@.skip(colon + 1));
    let u = string_of(&trim_cr_vec(&uv));
    let p = string_of(&trim_cr_vec(&pv));
    ct_eq_str(u.as_str(), user) && ct_eq_str(p.as_str(), pass)
}

/// Whether two strings are equal, comparing their bytes in constant time when
/// their lengths agree.
fn ct_eq_str(a: &str, b: &str) -> (r: bool)
    ensures
        r == (a@ == b@),
{
    let ab = a.as_bytes();
    let bb = b.as_bytes();
    proof {
        vstd::utf8::encode_utf8_decode_utf8(a@);
        vstd::utf8::encode_utf8_decode_utf8(b@);
    }
    if ab.len() != bb.len() {
        return false;
    }
    ct_eq_bytes(ab, bb)
}

// ---------------------------------------------------------------------------
// Laws
// ---------------------------------------------------------------------------

/// A request that carries no (readable) `Authorization` header is never
/// accepted, whatever the configuration.
pub proof fn lemma_no_credentials_rejected(cfg: ConfigView)
    ensures
        !request_accepted(cfg, None),
{
}

/// With a Bearer token configured, the header `Bearer <token>` is accepted.
pub proof fn lemma_configured_bearer_accepted(cfg: ConfigView, token: Seq<char>)
    requires
        cfg.bearer_token == Some(token),
    ensures
        request_accepted(cfg, Some("Bearer "@ + token)),
{
    reveal_strlit("Bearer ");
    let a = "Bearer "@ + token;
    assert(a.take(7) =~= "Bearer "@);
    assert(a.skip(7) =~= token);
}

/// With Basic credentials configured, a header `Basic <payload>` is accepted
/// when the payload decodes to the UTF-8 text `user:password` (the user name
/// holding no `:`, both without surrounding white space).
pub proof fn lemma_configured_basic_accepted(
    cfg: ConfigView,
    user: Seq<char>,
    pass: Seq<char>,
    payload: Seq<char>,
)
    requires
        cfg.auth_user == Some(user),
        cfg.auth_password == Some(pass),
        trim_cr(user) == user,
        trim_cr(pass) == pass,
        forall|i: int| 0 <= i < user.len() ==> user[i] != ':',
        base64_standard_decode(ascii_bytes(payload)) == Some(
            vstd::utf8::encode_utf8(user + seq![':'] + pass),
        ),
    ensures
        request_accepted(cfg, Some("Basic "@ + payload)),
{
    reveal_strlit("Basic ");
    let a = "Basic "@ + payload;
    assert(a.take(6) =~= "Basic "@);
    assert(a.skip(6) =~= payload);
    let creds = user + seq![':'] + pass;
    vstd::utf8::encode_utf8_valid_utf8(creds);
    vstd::utf8::encode_utf8_decode_utf8(creds);
    crate::text::lemma_find_char(creds, ':');
    assert(creds[user.len() as int] == ':');
    let i = find_char(creds, ':');
    if i < user.len() {
        assert(creds[i] == user[i]);
    }
    assert(i == user.len());
    assert(creds.take(i) =~= user);
    assert(creds.skip(i + 1) =~= pass);
}

/// Every configuration that offers credentials offers a challenge, and Basic
/// is offered whenever it is configured.
pub proof fn lemma_challenge_offered(cfg: ConfigView)
    requires
        (cfg.auth_user is Some && cfg.auth_password is Some) || cfg.bearer_token is Some,
    ensures
        challenge_for(cfg) is Some,
        cfg.auth_user is Some && cfg.auth_password is Some ==> challenge_for(cfg) == Some(
            "Basic realm=\"JianGuoYunRelay\", charset=\"UTF-8\""@,
        ),
{
}

} // verus!
