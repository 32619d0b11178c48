//! The decisions the HTTP server makes before the vault handlers: the
//! authentication layer and the choice of the vault path.
use vstd::prelude::*;
use http::HeaderMap;

use crate::auth::{challenge_for, request_accepted, validate_request, www_authenticate_challenge};
use crate::config::{is_vault_path, Config, ConfigView};
use crate::headers::{header_map_values, header_text};
use crate::reply::{
    status_only, status_reply, BodyView, FieldValue, FieldView, Reply, ReplyBody, ReplyView,
};
use crate::text::str_eq;
use crate::webdav::handlers::{dispatch_step, dispatch_vault, StateView, ActionView, VaultAction, VaultState};

verus! {

/// The 401 answer, with the `WWW-Authenticate` challenge when there is one.
pub open spec fn unauthorized_reply(challenge: Option<Seq<char>>) -> ReplyView {
    ReplyView {
        status: 401,
        headers: seq![("content-type"@, FieldView::Text("text/plain; charset=utf-8"@))] + match challenge {
            Some(c) => seq![("www-authenticate"@, FieldView::Text(c))],
            None => Seq::empty(),
        },
        body: BodyView::Text("unauthorized"@),
    }
}

/// What the authentication layer does with a request: `/health` and `OPTIONS` (sent without
/// credentials by WinHTTP/WebDAV clients before the real request) pass;
/// other requests pass with valid credentials and are otherwise answered 401.
pub open spec fn auth_outcome(
    cfg: ConfigView,
    path: Seq<char>,
    method: Seq<char>,
    auth: Option<Seq<char>>,
) -> Option<ReplyView> {
    if path == "/health"@ || method == "OPTIONS"@ {
        None
    } else if request_accepted(cfg, auth) {
        None
    } else {
        Some(unauthorized_reply(challenge_for(cfg)))
    }
}

/// The authentication layer (see `auth_outcome`): `None` lets the request
/// through, `Some` is the answer instead.
pub fn relay_auth_skip_health(cfg: &Config, path: &str, method: &str, headers: &HeaderMap) -> (r:
    Option<Reply>)
    ensures
        match r {
            None => auth_outcome(cfg@, path@, method@, header_text(*headers, "authorization"@)) is None,
            Some(reply) => auth_outcome(cfg@, path@, method@, header_text(*headers, "authorization"@))
                == Some(reply@),
        },
{
    if str_eq(path, "/health") {
        return None;
    }
    if str_eq(method, "OPTIONS") {
        return None;
    }
    if validate_request(cfg, headers) {
        return None;
    }
    let mut fields: Vec<(&'static str, FieldValue)> = Vec::new();
    fields.push(("content-type", FieldValue::Text("text/plain; charset=utf-8".to_owned())));
    if let Some(challenge) = www_authenticate_challenge(cfg) {
        fields.push(("www-authenticate", FieldValue::Text(challenge.to_owned())));
    }
    let reply = Reply { status: 401, headers: fields, body: ReplyBody::Text("unauthorized".to_owned()) };
    assert(reply@.headers =~= unauthorized_reply(challenge_for(cfg@)).headers);
    Some(reply)
}

/// The first step for a request that was let through: 404 unless its path
/// names the vault, else the vault handling (see `dispatch_step`).
pub open spec fn gateway_step(
    cfg: ConfigView,
    path: Seq<char>,
    method: Seq<char>,
    vals: Map<Seq<char>, Seq<Seq<u8>>>,
) -> (StateView, ActionView) {
    if !is_vault_path(cfg.vault_path, path) {
        (StateView::Finished, ActionView::Respond(status_reply(404)))
    } else {
        dispatch_step(cfg, method, vals)
    }
}

/// The first step for a request that was let through (see `gateway_step`).
pub fn vault_gateway(cfg: &Config, path: &str, method: &str, headers: &HeaderMap) -> (r: (
    VaultState,
    VaultAction,
))
    ensures
        (r.0@, r.1@) == gateway_step(cfg@, path@, method@, header_map_values(*headers)),
{
    if !cfg.request_is_vault_path(path) {
        return (VaultState::Finished, VaultAction::Respond(status_only(404)));
    }
    dispatch_vault(cfg, method, headers)
}

// ---------------------------------------------------------------------------
// Laws
// ---------------------------------------------------------------------------

/// `/health` and `OPTIONS` requests pass without credentials.
pub proof fn lemma_health_and_options_pass(
    cfg: ConfigView,
    path: Seq<char>,
    method: Seq<char>,
    auth: Option<Seq<char>>,
)
    requires
        path == "/health"@ || method == "OPTIONS"@,
    ensures
        auth_outcome(cfg, path, method, auth) is None,
{
}

/// For any configuration that `from_env` accepts, every other request
/// without credentials is answered 401 with a challenge.
pub proof fn lemma_missing_credentials_challenged(
    cfg: ConfigView,
    path: Seq<char>,
    method: Seq<char>,
)
    requires
        crate::config::config_wf(cfg),
        path != "/health"@,
        method != "OPTIONS"@,
    ensures
        auth_outcome(cfg, path, method, None) == Some(unauthorized_reply(challenge_for(cfg))),
        challenge_for(cfg) is Some,
{
    crate::auth::lemma_no_credentials_rejected(cfg);
    crate::auth::lemma_challenge_offered(cfg);
}

/// A request for any path other than the vault is answered 404.
pub proof fn lemma_other_paths_not_found(
    cfg: ConfigView,
    path: Seq<char>,
    method: Seq<char>,
    vals: Map<Seq<char>, Seq<Seq<u8>>>,
)
    requires
        !is_vault_path(cfg.vault_path, path),
    ensures
        gateway_step(cfg, path, method, vals) == (
            StateView::Finished,
            ActionView::Respond(status_reply(404)),
        ),
{
}

} // verus!
