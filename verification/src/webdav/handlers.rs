//! Handling of requests for the vault path, as a state machine: each step
//! takes what the last outside action gave (an upstream answer or the request
//! body) and names the next action, until a response is ready.
use vstd::prelude::*;
use http::HeaderMap;

use super::propfind::{multistatus_xml, propfind_multistatus};
use crate::config::{Config, ConfigView};
use crate::error::AppError;
use crate::headers::{
    first_value, header_map_get, header_map_get_value, header_map_values, header_value_bytes, header_str, lemma_known_header_names,
    text_value,
};
use crate::reply::{
    plain_text, status_only, status_reply, text_reply, BodyView, FieldValue, FieldView, Reply,
    ReplyBody, ReplyView,
};
use crate::text::{
    ascii_lower, chars_of, eq_ignore_ascii_case, eq_ignore_ascii_case_vec, to_ascii_lower, split_by, split_vec, str_eq,
    string_of, trim, trim_start_by, trim_start_vec, trim_vec_by, CharClass,
};
use crate::upstream::client::{filter_forward_headers, forwarded_of};
use crate::upstream::types::{is_success, status_is_success, UpstreamView};
use crate::upstream::{upstream_error_status, UpstreamError, UpstreamResponse};
use crate::version_guard::{
    baselines_of, pick_baselines, pre_put_check, pre_put_outcome, strings_view,
    VersionGuardErrorKind,
};

verus! {

// ---------------------------------------------------------------------------
// Methods
// ---------------------------------------------------------------------------

/// The request methods that the vault path distinguishes.
pub enum MethodKind {
    Options,
    Head,
    Get,
    Put,
    Propfind,
    Other,
}

/// The kind of a request method: the standard names exactly, `PROPFIND` in
/// any case.
pub open spec fn method_kind(m: Seq<char>) -> MethodKind {
    if m == "OPTIONS"@ {
        MethodKind::Options
    } else if m == "HEAD"@ {
        MethodKind::Head
    } else if m == "GET"@ {
        MethodKind::Get
    } else if m == "PUT"@ {
        MethodKind::Put
    } else if eq_ignore_ascii_case(m, "PROPFIND"@) {
        MethodKind::Propfind
    } else {
        MethodKind::Other
    }
}

fn classify_method(method: &str) -> (k: MethodKind)
    ensures
        k == method_kind(method@),
{
    if str_eq(method, "OPTIONS") {
        MethodKind::Options
    } else if str_eq(method, "HEAD") {
        MethodKind::Head
    } else if str_eq(method, "GET") {
        MethodKind::Get
    } else if str_eq(method, "PUT") {
        MethodKind::Put
    } else {
        let mv = chars_of(method);
        let pf = chars_of("PROPFIND");
        if eq_ignore_ascii_case_vec(&mv, &pf) {
            MethodKind::Propfind
        } else {
            MethodKind::Other
        }
    }
}

// ---------------------------------------------------------------------------
// Responses
// ---------------------------------------------------------------------------

/// The answer to `OPTIONS`: the methods offered and WebDAV class 1.
pub open spec fn options_reply() -> ReplyView {
    ReplyView {
        status: 200,
        headers: seq![
            ("allow"@, FieldView::Text("OPTIONS, GET, HEAD, PUT, PROPFIND"@)),
            ("dav"@, FieldView::Text("1"@)),
        ],
        body: BodyView::Empty,
    }
}

/// The answer to `OPTIONS`.
pub fn options_response() -> (r: Reply)
    ensures
        r@ == options_reply(),
{
    let mut headers: Vec<(&'static str, FieldValue)> = Vec::new();
    headers.push(("allow", FieldValue::Text("OPTIONS, GET, HEAD, PUT, PROPFIND".to_owned())));
    headers.push(("dav", FieldValue::Text("1".to_owned())));
    let r = Reply { status: 200, headers, body: ReplyBody::Empty };
    assert(r@.headers =~= options_reply().headers);
    r
}

/// The forwarded header `name`, if the upstream values `vals` give one.
pub open spec fn forwarded_entry(vals: Map<Seq<char>, Seq<Seq<u8>>>, name: Seq<char>) -> Seq<
    (Seq<char>, FieldView),
> {
    match forwarded_of(vals, name) {
        Some(v) => seq![(name, FieldView::Raw(v))],
        None => Seq::empty(),
    }
}

/// The response headers passed on from upstream values `vals`, in the order
/// `ETag`, `Content-Length`, `Content-Type`, `Last-Modified`.
pub open spec fn forwarded_headers(vals: Map<Seq<char>, Seq<Seq<u8>>>) -> Seq<(Seq<char>, FieldView)> {
    forwarded_entry(vals, "etag"@) + forwarded_entry(vals, "content-length"@) + forwarded_entry(
        vals,
        "content-type"@,
    ) + forwarded_entry(vals, "last-modified"@)
}

/// A response with the forwarded upstream headers and the given body.
pub open spec fn metadata_reply(status: u16, vals: Map<Seq<char>, Seq<Seq<u8>>>, body: Seq<u8>) -> ReplyView {
    ReplyView { status, headers: forwarded_headers(vals), body: BodyView::Bytes(body) }
}

pub open spec fn fields_view(v: Vec<(&'static str, FieldValue)>) -> Seq<(Seq<char>, FieldView)> {
    v@.map_values(|h: (&'static str, FieldValue)| (h.0@, crate::reply::field_view(h.1)))
}

/// Adds the header `name` of `fwd` to `out`, when present.
fn push_forwarded(out: &mut Vec<(&'static str, FieldValue)>, fwd: &HeaderMap, name: &'static str)
    requires
        crate::headers::is_header_name(name@),
    ensures
        fields_view(*final(out)) == fields_view(*old(out)) + match first_value(
            header_map_values(*fwd),
            name@,
        ) {
            Some(v) => seq![(name@, FieldView::Raw(v))],
            None => Seq::empty(),
        },
{
    match header_map_get_value(fwd, name) {
        Some(v) => {
            let ghost before = fields_view(*out);
            let ghost vv = header_value_bytes(v);
            out.push((name, FieldValue::Raw(v)));
            assert(fields_view(*out) =~= before + seq![(name@, FieldView::Raw(vv))]);
        },
        None => {
            assert(fields_view(*out) =~= fields_view(*out) + Seq::<(Seq<char>, FieldView)>::empty());
        },
    }
}

/// The forwarded headers of an upstream map, in order.
fn forwarded_fields(headers: &HeaderMap) -> (r: Vec<(&'static str, FieldValue)>)
    ensures
        fields_view(r) == forwarded_headers(header_map_values(*headers)),
{
    proof {
        lemma_known_header_names();
        reveal_strlit("etag");
        reveal_strlit("content-length");
        reveal_strlit("content-type");
        reveal_strlit("last-modified");
    }
    let fwd = filter_forward_headers(headers);
    let ghost vals = header_map_values(*headers);
    let ghost fv = header_map_values(fwd);
    assert forall|name: Seq<char>| #[trigger] first_value(fv, name) == forwarded_of(vals, name) by {
        if fv.contains_key(name) {
            assert(fv[name] == seq![forwarded_of(vals, name)->0]);
        }
    }
    let mut out: Vec<(&'static str, FieldValue)> = Vec::new();
    assert(fields_view(out) =~= Seq::<(Seq<char>, FieldView)>::empty());
    push_forwarded(&mut out, &fwd, "etag");
    push_forwarded(&mut out, &fwd, "content-length");
    push_forwarded(&mut out, &fwd, "content-type");
    push_forwarded(&mut out, &fwd, "last-modified");
    assert(first_value(fv, "etag"@) == forwarded_of(vals, "etag"@));
    assert(first_value(fv, "content-length"@) == forwarded_of(vals, "content-length"@));
    assert(first_value(fv, "content-type"@) == forwarded_of(vals, "content-type"@));
    assert(first_value(fv, "last-modified"@) == forwarded_of(vals, "last-modified"@));
    assert(fields_view(out) =~= forwarded_headers(vals));
    out
}

/// A response carrying only metadata: the status, the forwarded upstream
/// headers and the given body.
pub fn metadata_only_response(status: u16, headers: &HeaderMap, body: Vec<u8>) -> (r: Reply)
    ensures
        r@ == metadata_reply(status, header_map_values(*headers), body@),
{
    let fields = forwarded_fields(headers);
    Reply { status, headers: fields, body: ReplyBody::Bytes(body) }
}

/// The upstream values carry all of `Content-Length`, `Content-Type`, `ETag`
/// and `Last-Modified`.
pub open spec fn metadata_is_complete(vals: Map<Seq<char>, Seq<Seq<u8>>>) -> bool {
    &&& first_value(vals, "content-length"@) is Some
    &&& first_value(vals, "content-type"@) is Some
    &&& first_value(vals, "etag"@) is Some
    &&& first_value(vals, "last-modified"@) is Some
}

/// Whether the usual file metadata headers are all present.
pub fn metadata_complete(headers: &HeaderMap) -> (b: bool)
    ensures
        b == metadata_is_complete(header_map_values(*headers)),
{
    proof {
        lemma_known_header_names();
    }
    header_map_get(headers, "content-length").is_some() && header_map_get(headers, "content-type").is_some()
        && header_map_get(headers, "etag").is_some() && header_map_get(headers, "last-modified").is_some()
}

/// The `If-Match` passed on to the upstream PUT: the request's own `If-Match`
/// (trimmed) unless it is empty or `*`, else its `X-Base-ETag` (trimmed)
/// unless empty.
pub open spec fn upstream_if_match_of(vals: Map<Seq<char>, Seq<Seq<u8>>>) -> Option<Seq<char>> {
    let from_if_match = match text_value(vals, "if-match"@) {
        Some(v) => if trim(v).len() > 0 && trim(v) != seq!['*'] {
            Some(trim(v))
        } else {
            None
        },
        None => None,
    };
    match from_if_match {
        Some(t) => Some(t),
        None => match text_value(vals, "x-base-etag"@) {
            Some(x) => if trim(x).len() > 0 {
                Some(trim(x))
            } else {
                None
            },
            None => None,
        },
    }
}

pub open spec fn opt_string_view(o: Option<String>) -> Option<Seq<char>> {
    match o {
        Some(s) => Some(s@),
        None => None,
    }
}

/// The `If-Match` for the upstream PUT (see `upstream_if_match_of`).
pub fn upstream_if_match(headers: &HeaderMap) -> (r: Option<String>)
    ensures
        opt_string_view(r) == upstream_if_match_of(header_map_values(*headers)),
{
    proof {
        lemma_known_header_names();
    }
    if let Some(v) = header_str(headers, "if-match") {
        let vv = chars_of(v.as_str());
        let t = trim_vec_by(&vv, CharClass::WhiteSpace);
        let star = t.len() == 1 && t[0] == '*';
        proof {
            if t@ == seq!['*'] {
                assert(t@[0] == '*');
            }
            if star {
                assert(t@ =~= seq!['*']);
            }
        }
        if t.len() > 0 && !star {
            return Some(string_of(&t));
        }
    }
    if let Some(x) = header_str(headers, "x-base-etag") {
        let xv = chars_of(x.as_str());
        let t = trim_vec_by(&xv, CharClass::WhiteSpace);
        if t.len() > 0 {
            return Some(string_of(&t));
        }
    }
    None
}

/// The last non-empty piece of `segs`, if any.
pub open spec fn last_nonempty(segs: Seq<Seq<char>>) -> Option<Seq<char>>
    decreases segs.len(),
{
    if segs.len() == 0 {
        None
    } else if segs.last().len() > 0 {
        Some(segs.last())
    } else {
        last_nonempty(segs.drop_last())
    }
}

/// The display name of a path: its last non-empty segment, else the path
/// without leading slashes.
pub open spec fn display_name_of(href: Seq<char>) -> Seq<char> {
    match last_nonempty(split_by(href, '/')) {
        Some(s) => s,
        None => trim_start_by(href, CharClass::Exactly('/')),
    }
}

fn display_name(href: &str) -> (r: String)
    ensures
        r@ == display_name_of(href@),
{
    let hv = chars_of(href);
    let segs = split_vec(&hv, '/');
    let ghost sv = segs@.map_values(|p: Vec<char>| p@);
    let mut i: usize = segs.len();
    assert(sv.take(i as int) =~= sv);
    while i > 0 && segs[i - 1].len() == 0
        invariant
            i <= segs.len(),
            sv == segs@.map_values(|p: Vec<char>| p@),
            last_nonempty(sv) == last_nonempty(sv.take(i as int)),
        decreases i,
    {
        assert(sv.take(i as int).drop_last() =~= sv.take(i - 1));
        i -= 1;
    }
    if i > 0 {
        assert(sv.take(i as int).last() == sv[i - 1]);
        string_of(&segs[i - 1])
    } else {
        assert(sv.take(0) =~= Seq::<Seq<char>>::empty());
        let t = trim_start_vec(&hv, CharClass::Exactly('/'));
        string_of(&t)
    }
}

/// The answer to PROPFIND for the vault path `href`, from upstream values.
pub open spec fn propfind_reply(href: Seq<char>, vals: Map<Seq<char>, Seq<Seq<u8>>>) -> ReplyView {
    ReplyView {
        status: 207,
        headers: seq![("content-type"@, FieldView::Text("application/xml; charset=utf-8"@))],
        body: BodyView::Text(
            multistatus_xml(
                href,
                display_name_of(href),
                text_value(vals, "content-length"@),
                text_value(vals, "etag"@),
                text_value(vals, "last-modified"@),
            ),
        ),
    }
}

fn propfind_response(href: &str, res: &UpstreamResponse) -> (r: Reply)
    ensures
        r@ == propfind_reply(href@, header_map_values(res.headers)),
{
    proof {
        lemma_known_header_names();
    }
    let name = display_name(href);
    let cl = header_str(&res.headers, "content-length");
    let et = header_str(&res.headers, "etag");
    let lm = header_str(&res.headers, "last-modified");
    let xml = propfind_multistatus(
        href,
        name.as_str(),
        match &cl {
            Some(s) => Some(s.as_str()),
            None => None,
        },
        match &et {
            Some(s) => Some(s.as_str()),
            None => None,
        },
        match &lm {
            Some(s) => Some(s.as_str()),
            None => None,
        },
    );
    let mut headers: Vec<(&'static str, FieldValue)> = Vec::new();
    headers.push(("content-type", FieldValue::Text("application/xml; charset=utf-8".to_owned())));
    let r = Reply { status: 207, headers, body: ReplyBody::Text(xml) };
    assert(r@.headers =~= propfind_reply(href@, header_map_values(res.headers)).headers);
    r
}

/// What a metadata read (for HEAD or PROPFIND) is for.
pub enum MetaPurpose {
    Head,
    Propfind,
}

/// The answer once the metadata response `res` is chosen: its status alone
/// when it failed; else, for HEAD, 200 with the forwarded headers and its
/// body; for PROPFIND, the multistatus document.
pub open spec fn metadata_answer(href: Seq<char>, purpose: MetaPurpose, res: UpstreamView) -> ReplyView {
    if !is_success(res.status) {
        status_reply(res.status)
    } else {
        match purpose {
            MetaPurpose::Head => metadata_reply(200, res.headers, res.body),
            MetaPurpose::Propfind => propfind_reply(href, res.headers),
        }
    }
}

fn metadata_response(cfg: &Config, purpose: &MetaPurpose, res: UpstreamResponse) -> (r: Reply)
    ensures
        r@ == metadata_answer(cfg@.vault_path, *purpose, res@),
{
    if !status_is_success(res.status) {
        return status_only(res.status);
    }
    match purpose {
        MetaPurpose::Head => metadata_only_response(200, &res.headers, res.body),
        MetaPurpose::Propfind => propfind_response(cfg.vault_path.as_str(), &res),
    }
}

/// The answer to a client GET from the upstream GET response: its status and
/// body when it failed, else 200 with the forwarded headers and the body.
pub open spec fn get_answer(res: UpstreamView) -> ReplyView {
    if !is_success(res.status) {
        ReplyView { status: res.status, headers: Seq::empty(), body: BodyView::Bytes(res.body) }
    } else {
        metadata_reply(200, res.headers, res.body)
    }
}

fn get_response(res: UpstreamResponse) -> (r: Reply)
    ensures
        r@ == get_answer(res@),
{
    if !status_is_success(res.status) {
        let r = Reply { status: res.status, headers: Vec::new(), body: ReplyBody::Bytes(res.body) };
        assert(r@.headers =~= Seq::<(Seq<char>, FieldView)>::empty());
        return r;
    }
    metadata_only_response(200, &res.headers, res.body)
}

/// The upstream header `name`, taken over as it is, if present.
pub open spec fn raw_entry(vals: Map<Seq<char>, Seq<Seq<u8>>>, name: Seq<char>) -> Seq<
    (Seq<char>, FieldView),
> {
    match first_value(vals, name) {
        Some(v) => seq![(name, FieldView::Raw(v))],
        None => Seq::empty(),
    }
}

/// The answer to a client PUT from the upstream PUT response: its status and
/// body when it failed, else 204 with the new `ETag` and `Last-Modified`.
pub open spec fn put_answer(res: UpstreamView) -> ReplyView {
    if !is_success(res.status) {
        ReplyView { status: res.status, headers: Seq::empty(), body: BodyView::Bytes(res.body) }
    } else {
        ReplyView {
            status: 204,
            headers: raw_entry(res.headers, "etag"@) + raw_entry(res.headers, "last-modified"@),
            body: BodyView::Empty,
        }
    }
}

fn put_response(res: UpstreamResponse) -> (r: Reply)
    ensures
        r@ == put_answer(res@),
{
    proof {
        lemma_known_header_names();
    }
    if !status_is_success(res.status) {
        let r = Reply { status: res.status, headers: Vec::new(), body: ReplyBody::Bytes(res.body) };
        assert(r@.headers =~= Seq::<(Seq<char>, FieldView)>::empty());
        return r;
    }
    let mut headers: Vec<(&'static str, FieldValue)> = Vec::new();
    assert(fields_view(headers) =~= Seq::<(Seq<char>, FieldView)>::empty());
    push_forwarded(&mut headers, &res.headers, "etag");
    push_forwarded(&mut headers, &res.headers, "last-modified");
    let r = Reply { status: 204, headers, body: ReplyBody::Empty };
    assert(r@.headers =~= put_answer(res@).headers);
    r
}

/// The answer when the version check refuses the PUT.
pub open spec fn guard_answer(k: VersionGuardErrorKind) -> ReplyView {
    match k {
        VersionGuardErrorKind::BaselineMismatch(_, _) => text_reply(412, "version mismatch"@),
        VersionGuardErrorKind::UpstreamEtagMissing => text_reply(502, "upstream etag missing"@),
        VersionGuardErrorKind::UpstreamStatus(s) => text_reply(s, "upstream status"@),
        VersionGuardErrorKind::Upstream => text_reply(502, "upstream error"@),
    }
}

// ---------------------------------------------------------------------------
// The state machine
// ---------------------------------------------------------------------------

/// Where the handling of a vault request stands.
pub enum VaultState {
    /// Waiting for the upstream HEAD of a metadata read.
    MetaHead(MetaPurpose),
    /// The HEAD lacked metadata; waiting for the upstream GET.
    MetaGet(MetaPurpose, UpstreamResponse),
    /// Waiting for the upstream GET of a client GET.
    GetSent,
    /// PUT: waiting for the HEAD of the version check, with the baselines and
    /// the `If-Match` for the upstream PUT.
    GuardHead(Vec<String>, Option<String>),
    /// PUT: waiting for the request body, with the `If-Match` to send.
    PutBody(Option<String>),
    /// PUT: waiting for the upstream PUT.
    PutSent,
    /// PROPFIND: waiting for the request body.
    PropfindBody,
    /// A response has been given.
    Finished,
}

/// What to do next.
pub enum VaultAction {
    /// Send a HEAD for the resource upstream.
    UpstreamHead,
    /// Send a GET for the resource upstream.
    UpstreamGet,
    /// Read the whole request body.
    ReadBody,
    /// Send a PUT with this body and, if given, this `If-Match` upstream.
    UpstreamPut(Vec<u8>, Option<String>),
    /// Answer the client.
    Respond(Reply),
}

/// What the last action gave.
pub enum VaultEvent {
    /// The upstream answer, or the failure of the request.
    Upstream(Result<UpstreamResponse, UpstreamError>),
    /// The request body, or `None` when it could not be read.
    Body(Option<Vec<u8>>),
}

pub enum StateView {
    MetaHead(MetaPurpose),
    MetaGet(MetaPurpose, UpstreamView),
    GetSent,
    GuardHead(Seq<Seq<char>>, Option<Seq<char>>),
    PutBody(Option<Seq<char>>),
    PutSent,
    PropfindBody,
    Finished,
}

pub enum ActionView {
    UpstreamHead,
    UpstreamGet,
    ReadBody,
    UpstreamPut(Seq<u8>, Option<Seq<char>>),
    Respond(ReplyView),
}

pub enum EventView {
    /// An upstream answer, or the status that a failed request is answered with.
    Upstream(Result<UpstreamView, u16>),
    Body(Option<Seq<u8>>),
}

impl View for VaultState {
    type V = StateView;

    open spec fn view(&self) -> StateView {
        match self {
            VaultState::MetaHead(p) => StateView::MetaHead(*p),
            VaultState::MetaGet(p, h) => StateView::MetaGet(*p, h@),
            VaultState::GetSent => StateView::GetSent,
            VaultState::GuardHead(b, m) => StateView::GuardHead(strings_view(*b), opt_string_view(*m)),
            VaultState::PutBody(m) => StateView::PutBody(opt_string_view(*m)),
            VaultState::PutSent => StateView::PutSent,
            VaultState::PropfindBody => StateView::PropfindBody,
            VaultState::Finished => StateView::Finished,
        }
    }
}

impl View for VaultAction {
    type V = ActionView;

    open spec fn view(&self) -> ActionView {
        match self {
            VaultAction::UpstreamHead => ActionView::UpstreamHead,
            VaultAction::UpstreamGet => ActionView::UpstreamGet,
            VaultAction::ReadBody => ActionView::ReadBody,
            VaultAction::UpstreamPut(b, m) => ActionView::UpstreamPut(b@, opt_string_view(*m)),
            VaultAction::Respond(r) => ActionView::Respond(r@),
        }
    }
}

impl View for VaultEvent {
    type V = EventView;

    open spec fn view(&self) -> EventView {
        match self {
            VaultEvent::Upstream(Ok(r)) => EventView::Upstream(Ok(r@)),
            VaultEvent::Upstream(Err(e)) => EventView::Upstream(Err(upstream_error_status(*e))),
            VaultEvent::Body(Some(b)) => EventView::Body(Some(b@)),
            VaultEvent::Body(None) => EventView::Body(None),
        }
    }
}

/// The first step for a request to the vault path with method `method` and
/// header values `vals`: OPTIONS is answered at once; HEAD and PROPFIND read
/// metadata (PROPFIND after its body); GET fetches upstream; PUT without a
/// baseline is refused with 428 when one is required, with baselines starts
/// with the version check, else reads the body; other methods get 405.
pub open spec fn dispatch_step(
    cfg: ConfigView,
    method: Seq<char>,
    vals: Map<Seq<char>, Seq<Seq<u8>>>,
) -> (StateView, ActionView) {
    match method_kind(method) {
        MethodKind::Options => (StateView::Finished, ActionView::Respond(options_reply())),
        MethodKind::Head => (StateView::MetaHead(MetaPurpose::Head), ActionView::UpstreamHead),
        MethodKind::Get => (StateView::GetSent, ActionView::UpstreamGet),
        MethodKind::Put => {
            let im = upstream_if_match_of(vals);
            match baselines_of(text_value(vals, "if-match"@), text_value(vals, "x-base-etag"@)) {
                None => if cfg.require_put_baseline {
                    (
                        StateView::Finished,
                        ActionView::Respond(text_reply(428, "precondition required"@)),
                    )
                } else {
                    (StateView::PutBody(im), ActionView::ReadBody)
                },
                Some(list) => (StateView::GuardHead(list, im), ActionView::UpstreamHead),
            }
        },
        MethodKind::Propfind => (StateView::PropfindBody, ActionView::ReadBody),
        MethodKind::Other => (StateView::Finished, ActionView::Respond(status_reply(405))),
    }
}

/// The event fits the state: states that wait for the upstream get an
/// upstream event, those that wait for the body get the body.
pub open spec fn event_fits(s: StateView, e: EventView) -> bool {
    match s {
        StateView::MetaHead(_) | StateView::MetaGet(_, _) | StateView::GetSent
        | StateView::GuardHead(_, _) | StateView::PutSent => e is Upstream,
        StateView::PutBody(_) | StateView::PropfindBody => e is Body,
        StateView::Finished => false,
    }
}

pub open spec fn upstream_failure(status: u16) -> (StateView, ActionView) {
    (StateView::Finished, ActionView::Respond(text_reply(status, "upstream error"@)))
}

/// The next step from state `s` on event `e` (which fits `s`).
pub open spec fn next_step(cfg: ConfigView, s: StateView, e: EventView) -> (StateView, ActionView) {
    match (s, e) {
        (StateView::MetaHead(p), EventView::Upstream(Err(st))) => upstream_failure(st),
        (StateView::MetaHead(p), EventView::Upstream(Ok(h))) => if !is_success(h.status)
            || metadata_is_complete(h.headers) {
            (StateView::Finished, ActionView::Respond(metadata_answer(cfg.vault_path, p, h)))
        } else {
            (StateView::MetaGet(p, h), ActionView::UpstreamGet)
        },
        (StateView::MetaGet(p, h), EventView::Upstream(Err(st))) => upstream_failure(st),
        (StateView::MetaGet(p, h), EventView::Upstream(Ok(g))) => (
            StateView::Finished,
            ActionView::Respond(
                metadata_answer(
                    cfg.vault_path,
                    p,
                    if is_success(g.status) {
                        g
                    } else {
                        h
                    },
                ),
            ),
        ),
        (StateView::GetSent, EventView::Upstream(Err(st))) => upstream_failure(st),
        (StateView::GetSent, EventView::Upstream(Ok(r))) => (
            StateView::Finished,
            ActionView::Respond(get_answer(r)),
        ),
        (StateView::GuardHead(list, im), EventView::Upstream(Err(st))) => upstream_failure(st),
        (StateView::GuardHead(list, im), EventView::Upstream(Ok(h))) => match pre_put_outcome(
            list,
            h.status,
            text_value(h.headers, "etag"@),
        ) {
            Ok(()) => (StateView::PutBody(im), ActionView::ReadBody),
            Err(k) => (StateView::Finished, ActionView::Respond(guard_answer(k))),
        },
        (StateView::PutBody(im), EventView::Body(None)) => (
            StateView::Finished,
            ActionView::Respond(text_reply(400, "bad request"@)),
        ),
        (StateView::PutBody(im), EventView::Body(Some(b))) => (
            StateView::PutSent,
            ActionView::UpstreamPut(b, im),
        ),
        (StateView::PutSent, EventView::Upstream(Err(st))) => upstream_failure(st),
        (StateView::PutSent, EventView::Upstream(Ok(r))) => (
            StateView::Finished,
            ActionView::Respond(put_answer(r)),
        ),
        (StateView::PropfindBody, EventView::Body(None)) => (
            StateView::Finished,
            ActionView::Respond(text_reply(400, "bad request"@)),
        ),
        (StateView::PropfindBody, EventView::Body(Some(_))) => (
            StateView::MetaHead(MetaPurpose::Propfind),
            ActionView::UpstreamHead,
        ),
        _ => (StateView::Finished, ActionView::Respond(status_reply(500))),
    }
}

fn respond_error(e: AppError) -> (r: (VaultState, VaultAction))
    ensures
        r.0@ == StateView::Finished,
        r.1@ == ActionView::Respond(crate::error::error_reply(e)),
{
    (VaultState::Finished, VaultAction::Respond(e.into_response()))
}

/// The first step for a request to the vault path (see `dispatch_step`).
pub fn dispatch_vault(cfg: &Config, method: &str, headers: &HeaderMap) -> (r: (VaultState, VaultAction))
    ensures
        (r.0@, r.1@) == dispatch_step(cfg@, method@, header_map_values(*headers)),
{
    match classify_method(method) {
        MethodKind::Options => (VaultState::Finished, VaultAction::Respond(options_response())),
        MethodKind::Head => (VaultState::MetaHead(MetaPurpose::Head), VaultAction::UpstreamHead),
        MethodKind::Get => (VaultState::GetSent, VaultAction::UpstreamGet),
        MethodKind::Put => {
            let baselines = pick_baselines(headers);
            let if_match = upstream_if_match(headers);
            match baselines {
                None => {
                    if cfg.require_put_baseline {
                        respond_error(AppError::PreconditionRequired)
                    } else {
                        (VaultState::PutBody(if_match), VaultAction::ReadBody)
                    }
                },
                Some(list) => (VaultState::GuardHead(list, if_match), VaultAction::UpstreamHead),
            }
        },
        MethodKind::Propfind => (VaultState::PropfindBody, VaultAction::ReadBody),
        MethodKind::Other => (VaultState::Finished, VaultAction::Respond(status_only(405))),
    }
}

/// One step of the handling (see `next_step`).
pub fn vault_step(cfg: &Config, state: VaultState, event: VaultEvent) -> (r: (VaultState, VaultAction))
    requires
        event_fits(state@, event@),
    ensures
        (r.0@, r.1@) == next_step(cfg@, state@, event@),
{
    match state {
        VaultState::MetaHead(p) => match event {
            VaultEvent::Upstream(Err(e)) => respond_error(AppError::Upstream(e)),
            VaultEvent::Upstream(Ok(h)) => {
                if !status_is_success(h.status) || metadata_complete(&h.headers) {
                    let reply = metadata_response(cfg, &p, h);
                    (VaultState::Finished, VaultAction::Respond(reply))
                } else {
                    (VaultState::MetaGet(p, h), VaultAction::UpstreamGet)
                }
            },
            VaultEvent::Body(_) => (VaultState::Finished, VaultAction::Respond(status_only(500))),
        },
        VaultState::MetaGet(p, h) => match event {
            VaultEvent::Upstream(Err(e)) => respond_error(AppError::Upstream(e)),
            VaultEvent::Upstream(Ok(g)) => {
                let chosen = if status_is_success(g.status) {
                    g
                } else {
                    h
                };
                let reply = metadata_response(cfg, &p, chosen);
                (VaultState::Finished, VaultAction::Respond(reply))
            },
            VaultEvent::Body(_) => (VaultState::Finished, VaultAction::Respond(status_only(500))),
        },
        VaultState::GetSent => match event {
            VaultEvent::Upstream(Err(e)) => respond_error(AppError::Upstream(e)),
            VaultEvent::Upstream(Ok(res)) => (
                VaultState::Finished,
                VaultAction::Respond(get_response(res)),
            ),
            VaultEvent::Body(_) => (VaultState::Finished, VaultAction::Respond(status_only(500))),
        },
        VaultState::GuardHead(list, im) => match event {
            VaultEvent::Upstream(Err(e)) => respond_error(
                AppError::VersionGuard(crate::version_guard::VersionGuardError::Upstream(e)),
            ),
            VaultEvent::Upstream(Ok(h)) => {
                match pre_put_check(&list, &h) {
                    Ok(()) => (VaultState::PutBody(im), VaultAction::ReadBody),
                    Err(ve) => respond_error(AppError::VersionGuard(ve)),
                }
            },
            VaultEvent::Body(_) => (VaultState::Finished, VaultAction::Respond(status_only(500))),
        },
        VaultState::PutBody(im) => match event {
            VaultEvent::Body(None) => respond_error(AppError::BadRequest),
            VaultEvent::Body(Some(b)) => (VaultState::PutSent, VaultAction::UpstreamPut(b, im)),
            VaultEvent::Upstream(_) => (VaultState::Finished, VaultAction::Respond(status_only(500))),
        },
        VaultState::PutSent => match event {
            VaultEvent::Upstream(Err(e)) => respond_error(AppError::Upstream(e)),
            VaultEvent::Upstream(Ok(res)) => (
                VaultState::Finished,
                VaultAction::Respond(put_response(res)),
            ),
            VaultEvent::Body(_) => (VaultState::Finished, VaultAction::Respond(status_only(500))),
        },
        VaultState::PropfindBody => match event {
            VaultEvent::Body(None) => respond_error(AppError::BadRequest),
            VaultEvent::Body(Some(_)) => (
                VaultState::MetaHead(MetaPurpose::Propfind),
                VaultAction::UpstreamHead,
            ),
            VaultEvent::Upstream(_) => (VaultState::Finished, VaultAction::Respond(status_only(500))),
        },
        VaultState::Finished => (VaultState::Finished, VaultAction::Respond(status_only(500))),
    }
}

// ---------------------------------------------------------------------------
// Laws
// ---------------------------------------------------------------------------

/// How many more steps a state can take at most before its response.
pub open spec fn steps_left(s: StateView) -> nat {
    match s {
        StateView::Finished => 0,
        StateView::GetSent | StateView::MetaGet(_, _) | StateView::PutSent => 1,
        StateView::MetaHead(_) | StateView::PutBody(_) => 2,
        StateView::GuardHead(_, _) | StateView::PropfindBody => 3,
    }
}

/// Every request is answered: each step on a waiting state lowers the
/// number of steps left, and a step ends in `Finished` exactly when it
/// answers the client.
pub proof fn lemma_handling_terminates(cfg: ConfigView, s: StateView, e: EventView)
    requires
        event_fits(s, e),
    ensures
        steps_left(next_step(cfg, s, e).0) < steps_left(s),
        next_step(cfg, s, e).0 is Finished <==> next_step(cfg, s, e).1 is Respond,
{
}

/// The first step also ends in `Finished` exactly when it answers.
pub proof fn lemma_dispatch_answers_when_finished(
    cfg: ConfigView,
    method: Seq<char>,
    vals: Map<Seq<char>, Seq<Seq<u8>>>,
)
    ensures
        dispatch_step(cfg, method, vals).0 is Finished <==> dispatch_step(cfg, method, vals).1 is Respond,
        steps_left(dispatch_step(cfg, method, vals).0) <= 3,
{
}

/// The state that comes with an action waits for what that action gives: an
/// upstream action for an upstream answer, `ReadBody` for the body, and an
/// answer to the client ends the handling.
pub open spec fn action_fits(s: StateView, a: ActionView) -> bool {
    match a {
        ActionView::Respond(_) => s is Finished,
        ActionView::ReadBody => s is PutBody || s is PropfindBody,
        ActionView::UpstreamHead => s is MetaHead || s is GuardHead,
        ActionView::UpstreamGet => s is MetaGet || s is GetSent,
        ActionView::UpstreamPut(_, _) => s is PutSent,
    }
}

/// The kind of event that performing action `a` gives.
pub open spec fn event_of_action(a: ActionView, e: EventView) -> bool {
    match a {
        ActionView::Respond(_) => false,
        ActionView::ReadBody => e is Body,
        _ => e is Upstream,
    }
}

/// Whatever the request, the first step names an action that fits its state.
pub proof fn lemma_dispatch_action_fits(
    cfg: ConfigView,
    method: Seq<char>,
    vals: Map<Seq<char>, Seq<Seq<u8>>>,
)
    ensures
        action_fits(dispatch_step(cfg, method, vals).0, dispatch_step(cfg, method, vals).1),
{
}

/// Every step keeps the action fitting its state, and the event that an
/// action gives always fits the state that waits for it: running the actions
/// in turn never hands a step an event it cannot take.
pub proof fn lemma_step_action_fits(cfg: ConfigView, s: StateView, a: ActionView, e: EventView)
    requires
        action_fits(s, a),
        event_of_action(a, e),
    ensures
        event_fits(s, e),
        action_fits(next_step(cfg, s, e).0, next_step(cfg, s, e).1),
{
}

/// The client learns the true outcome of the upstream write: when the
/// upstream PUT answers with a status outside 200..=299, the client gets that
/// very status and the upstream body, with no header; only a 2xx upstream
/// answer is reported as saved, with 204 and no body.
pub proof fn lemma_put_reply_follows_upstream(cfg: ConfigView, res: UpstreamView)
    ensures
        !(200 <= res.status <= 299) ==> next_step(
            cfg,
            StateView::PutSent,
            EventView::Upstream(Ok(res)),
        ) == (
            StateView::Finished,
            ActionView::Respond(
                ReplyView { status: res.status, headers: Seq::empty(), body: BodyView::Bytes(res.body) },
            ),
        ),
        200 <= res.status <= 299 ==> (next_step(
            cfg,
            StateView::PutSent,
            EventView::Upstream(Ok(res)),
        ).1 matches ActionView::Respond(r) && r.status == 204 && r.body == BodyView::Empty),
{
}

/// `PROPFIND` is recognised in any mix of upper and lower case: a method of
/// eight letters, each the upper- or lower-case letter of `PROPFIND`, starts
/// the PROPFIND handling (read the body, then the metadata).
pub proof fn lemma_propfind_in_any_case(
    cfg: ConfigView,
    m: Seq<char>,
    vals: Map<Seq<char>, Seq<Seq<u8>>>,
)
    requires
        m.len() == 8,
        forall|i: int| 0 <= i < 8 ==> m[i] == #[trigger] "PROPFIND"@[i] || m[i] == "propfind"@[i],
    ensures
        dispatch_step(cfg, m, vals) == (StateView::PropfindBody, ActionView::ReadBody),
{
    reveal_strlit("PROPFIND");
    reveal_strlit("propfind");
    reveal_strlit("OPTIONS");
    reveal_strlit("HEAD");
    reveal_strlit("GET");
    reveal_strlit("PUT");
    let up = "PROPFIND"@;
    let lo = "propfind"@;
    assert forall|i: int| 0 <= i < 8 implies ascii_lower(#[trigger] m[i]) == ascii_lower(up[i]) by {
        assert(m[i] == up[i] || m[i] == lo[i]);
        assert(lo[i] as u32 == (up[i] as u32) + 32);
        assert(ascii_lower(up[i]) == ((up[i] as u32) + 32) as char);
        assert(ascii_lower(lo[i]) == lo[i]);
        vstd::utf8::char_u32_cast(lo[i], lo[i] as u32);
    }
    assert(to_ascii_lower(m) =~= to_ascii_lower(up));
    assert(m != "OPTIONS"@);
    assert(m != "HEAD"@);
    assert(m != "GET"@);
    assert(m != "PUT"@);
}

/// An upstream PUT is only ever sent from `PutBody`, with the body that was
/// read and the `If-Match` decided at the start.
pub proof fn lemma_put_only_after_body(cfg: ConfigView, s: StateView, e: EventView)
    requires
        event_fits(s, e),
        next_step(cfg, s, e).1 is UpstreamPut,
    ensures
        s matches StateView::PutBody(im) && e == EventView::Body(Some(next_step(cfg, s, e).1->UpstreamPut_0))
            && next_step(cfg, s, e).1->UpstreamPut_1 == im,
{
}

/// A PUT goes on to its body without a version check only when the request
/// names no baseline and none is required.
pub proof fn lemma_unchecked_put_only_when_allowed(
    cfg: ConfigView,
    method: Seq<char>,
    vals: Map<Seq<char>, Seq<Seq<u8>>>,
)
    requires
        dispatch_step(cfg, method, vals).0 is PutBody,
    ensures
        method_kind(method) is Put,
        baselines_of(text_value(vals, "if-match"@), text_value(vals, "x-base-etag"@)) is None,
        !cfg.require_put_baseline,
{
}

/// The version check lets a PUT go on only when the upstream HEAD succeeded
/// and its normalized ETag is one of the baselines; the baselines are never
/// empty.
pub proof fn lemma_checked_put_only_on_match(
    cfg: ConfigView,
    method: Seq<char>,
    vals: Map<Seq<char>, Seq<Seq<u8>>>,
    head: UpstreamView,
)
    requires
        dispatch_step(cfg, method, vals).0 is GuardHead,
        next_step(cfg, dispatch_step(cfg, method, vals).0, EventView::Upstream(Ok(head))).0 is PutBody,
    ensures
        is_success(head.status),
        text_value(head.headers, "etag"@) is Some,
        dispatch_step(cfg, method, vals).0->GuardHead_0.contains(
            crate::version_guard::normalized_etag(text_value(head.headers, "etag"@)->0),
        ),
{
    crate::version_guard::lemma_baselines_nonempty(
        text_value(vals, "if-match"@),
        text_value(vals, "x-base-etag"@),
    );
}

/// When the upstream version differs from every baseline, the PUT is
/// answered 412 and nothing is written.
pub proof fn lemma_mismatch_refused(
    cfg: ConfigView,
    list: Seq<Seq<char>>,
    im: Option<Seq<char>>,
    head: UpstreamView,
    etag: Seq<char>,
)
    requires
        list.len() > 0,
        is_success(head.status),
        text_value(head.headers, "etag"@) == Some(etag),
        !list.contains(crate::version_guard::normalized_etag(etag)),
    ensures
        next_step(cfg, StateView::GuardHead(list, im), EventView::Upstream(Ok(head))) == (
            StateView::Finished,
            ActionView::Respond(text_reply(412, "version mismatch"@)),
        ),
{
}

/// A PUT without baseline, when one is required, is answered 428 at once.
pub proof fn lemma_missing_baseline_refused(
    cfg: ConfigView,
    vals: Map<Seq<char>, Seq<Seq<u8>>>,
)
    requires
        cfg.require_put_baseline,
        baselines_of(text_value(vals, "if-match"@), text_value(vals, "x-base-etag"@)) is None,
    ensures
        dispatch_step(cfg, "PUT"@, vals) == (
            StateView::Finished,
            ActionView::Respond(text_reply(428, "precondition required"@)),
        ),
{
    reveal_strlit("PUT");
    reveal_strlit("OPTIONS");
    reveal_strlit("HEAD");
    reveal_strlit("GET");
    assert("PUT"@[0] != "OPTIONS"@[0]);
    assert("PUT"@[0] != "HEAD"@[0]);
    assert("PUT"@[0] != "GET"@[0]);
}

} // verus!
