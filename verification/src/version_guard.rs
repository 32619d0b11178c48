//! Version check before a PUT: the upstream's current ETag must be one of the
//! baselines that the client names (`If-Match` or `X-Base-ETag`).
use vstd::prelude::*;
use http::HeaderMap;

use crate::headers::{header_str, header_text, lemma_known_header_names};
use crate::text::{
    chars_of, in_class, is_white_space, lemma_trim_around, lemma_trim_end_keeps_prefix, lemma_trim_facts, split_by, split_vec,
    starts_with, string_of, trim, trim_by, trim_end_by, trim_start_by, trim_vec_by, CharClass,
};
use crate::upstream::types::{is_success, opt_text, status_is_success};
use crate::upstream::{UpstreamError, UpstreamResponse};

verus! {

/// Why a PUT is refused before it reaches the upstream.
#[derive(Debug)]
pub enum VersionGuardError {
    /// The HEAD request itself failed.
    Upstream(UpstreamError),
    /// The HEAD answered with a non-success status.
    UpstreamStatus(u16),
    /// The HEAD answer carries no usable `ETag`.
    UpstreamEtagMissing,
    /// The current ETag is none of the baselines.
    BaselineMismatch { current: String, expected: Vec<String> },
}

/// An ETag without surrounding white space, without a weak prefix `W/`, and
/// without surrounding double quotes.
pub open spec fn normalized_etag(raw: Seq<char>) -> Seq<char> {
    let s = trim(raw);
    let s = if starts_with(s, seq!['W', '/']) {
        s.skip(2)
    } else {
        s
    };
    trim_by(trim(s), CharClass::Exactly('"'))
}

/// Normalizes an ETag: trims it, drops a weak prefix `W/`, trims again and
/// removes the surrounding double quotes.
pub fn normalize_etag(raw: &str) -> (r: String)
    ensures
        r@ == normalized_etag(raw@),
{
    let v = chars_of(raw);
    let s = trim_vec_by(&v, CharClass::WhiteSpace);
    let s2 = if s.len() >= 2 && s[0] == 'W' && s[1] == '/' {
        let mut t: Vec<char> = Vec::new();
        let mut i: usize = 2;
        while i < s.len()
            invariant
                2 <= i <= s.len(),
                t@ == s@.subrange(2, i as int),
            decreases s.len() - i,
        {
            t.push(s[i]);
            assert(s@.subrange(2, i + 1) =~= s@.subrange(2, i as int).push(s@[i as int]));
            i += 1;
        }
        proof {
            assert(starts_with(s@, seq!['W', '/'])) by {
                assert(s@.take(2) =~= seq!['W', '/']);
            }
            assert(t@ =~= s@.skip(2));
        }
        t
    } else {
        proof {
            if starts_with(s@, seq!['W', '/']) {
                assert(s@.take(2)[0] == 'W');
                assert(s@.take(2)[1] == '/');
            }
        }
        s
    };
    let s3 = trim_vec_by(&s2, CharClass::WhiteSpace);
    let s4 = trim_vec_by(&s3, CharClass::Exactly('"'));
    string_of(&s4)
}

/// The non-empty normalized tags among `parts`, in order.
pub open spec fn baseline_list(parts: Seq<Seq<char>>) -> Seq<Seq<char>>
    decreases parts.len(),
{
    if parts.len() == 0 {
        Seq::empty()
    } else {
        let rest = baseline_list(parts.drop_last());
        let t = normalized_etag(parts.last());
        if t.len() > 0 {
            rest.push(t)
        } else {
            rest
        }
    }
}

/// The baselines a request names: the non-empty normalized tags of
/// `If-Match` (comma separated) when there are any, else the normalized
/// `X-Base-ETag` when it is non-empty; `If-Match: *` names none.
pub open spec fn baselines_of(if_match: Option<Seq<char>>, base_etag: Option<Seq<char>>) -> Option<
    Seq<Seq<char>>,
> {
    let from_if_match = match if_match {
        Some(im) => if trim(im) == seq!['*'] {
            Some(None)
        } else {
            let list = baseline_list(split_by(trim(im), ','));
            if list.len() > 0 {
                Some(Some(list))
            } else {
                None
            }
        },
        None => None,
    };
    match from_if_match {
        Some(decided) => decided,
        None => match base_etag {
            Some(x) => if normalized_etag(x).len() > 0 {
                Some(seq![normalized_etag(x)])
            } else {
                None
            },
            None => None,
        },
    }
}

pub open spec fn strings_view(v: Vec<String>) -> Seq<Seq<char>> {
    v@.map_values(|s: String| s@)
}

pub open spec fn opt_strings_view(o: Option<Vec<String>>) -> Option<Seq<Seq<char>>> {
    match o {
        Some(v) => Some(strings_view(v)),
        None => None,
    }
}

/// The baselines that the request headers name (see `baselines_of`).
pub fn pick_baselines(headers: &HeaderMap) -> (r: Option<Vec<String>>)
    ensures
        opt_strings_view(r) == baselines_of(
            header_text(*headers, "if-match"@),
            header_text(*headers, "x-base-etag"@),
        ),
        r matches Some(v) ==> v.len() > 0,
{
    proof {
        lemma_known_header_names();
    }
    let ghost im_view = header_text(*headers, "if-match"@);
    if let Some(im) = header_str(headers, "if-match") {
        let imv = chars_of(im.as_str());
        let t = trim_vec_by(&imv, CharClass::WhiteSpace);
        if t.len() == 1 && t[0] == '*' {
            assert(t@ =~= seq!['*']);
            return None;
        }
        assert(t@ != seq!['*']);
        let parts = split_vec(&t, ',');
        let ghost pv = parts@.map_values(|p: Vec<char>| p@);
        let mut list: Vec<String> = Vec::new();
        let mut i: usize = 0;
        while i < parts.len()
            invariant
                i <= parts.len(),
                pv == parts@.map_values(|p: Vec<char>| p@),
                strings_view(list) == baseline_list(pv.take(i as int)),
            decreases parts.len() - i,
        {
            let ps = string_of(&parts[i]);
            let n = normalize_etag(ps.as_str());
            proof {
                assert(pv.take(i + 1).drop_last() =~= pv.take(i as int));
                assert(pv.take(i + 1).last() == pv[i as int]);
            }
            let nv = chars_of(n.as_str());
            if nv.len() > 0 {
                let ghost before = strings_view(list);
                list.push(n);
                assert(strings_view(list) =~= before.push(nv@));
            }
            i += 1;
        }
        assert(pv.take(parts@.len() as int) =~= pv);
        if list.len() > 0 {
            return Some(list);
        }
        assert(strings_view(list).len() == 0);
    }
    if let Some(x) = header_str(headers, "x-base-etag") {
        let n = normalize_etag(x.as_str());
        let nv = chars_of(n.as_str());
        if nv.len() > 0 {
            let mut v: Vec<String> = Vec::new();
            v.push(n);
            assert(strings_view(v) =~= seq![normalized_etag(x@)]);
            return Some(v);
        }
    }
    None
}

/// The outcome of the check, from the baselines and the HEAD answer: no
/// baselines pass; otherwise the HEAD must succeed, carry an ETag, and the
/// normalized ETag must be one of the baselines.
pub open spec fn pre_put_outcome(
    baselines: Seq<Seq<char>>,
    status: u16,
    etag: Option<Seq<char>>,
) -> Result<(), VersionGuardErrorKind> {
    if baselines.len() == 0 {
        Ok(())
    } else if !is_success(status) {
        Err(VersionGuardErrorKind::UpstreamStatus(status))
    } else {
        match etag {
            None => Err(VersionGuardErrorKind::UpstreamEtagMissing),
            Some(e) => if baselines.contains(normalized_etag(e)) {
                Ok(())
            } else {
                Err(VersionGuardErrorKind::BaselineMismatch(normalized_etag(e), baselines))
            },
        }
    }
}

/// A `VersionGuardError` as plain values (without the transport failure).
pub enum VersionGuardErrorKind {
    Upstream,
    UpstreamStatus(u16),
    UpstreamEtagMissing,
    BaselineMismatch(Seq<char>, Seq<Seq<char>>),
}

pub open spec fn guard_error_kind(e: VersionGuardError) -> VersionGuardErrorKind {
    match e {
        VersionGuardError::Upstream(_) => VersionGuardErrorKind::Upstream,
        VersionGuardError::UpstreamStatus(s) => VersionGuardErrorKind::UpstreamStatus(s),
        VersionGuardError::UpstreamEtagMissing => VersionGuardErrorKind::UpstreamEtagMissing,
        VersionGuardError::BaselineMismatch { current, expected } =>
            VersionGuardErrorKind::BaselineMismatch(current@, strings_view(expected)),
    }
}

pub open spec fn guard_outcome_kind(r: Result<(), VersionGuardError>) -> Result<(), VersionGuardErrorKind> {
    match r {
        Ok(()) => Ok(()),
        Err(e) => Err(guard_error_kind(e)),
    }
}

/// Checks the current upstream version, given by the answer to a HEAD,
/// against the client's baselines (see `pre_put_outcome`).
pub fn pre_put_check(baselines: &Vec<String>, head: &UpstreamResponse) -> (r: Result<
    (),
    VersionGuardError,
>)
    ensures
        guard_outcome_kind(r) == pre_put_outcome(
            strings_view(*baselines),
            head.status,
            header_text(head.headers, "etag"@),
        ),
{
    if baselines.len() == 0 {
        return Ok(());
    }
    if !status_is_success(head.status) {
        return Err(VersionGuardError::UpstreamStatus(head.status));
    }
    let etag = match head.etag() {
        Some(e) => e,
        None => return Err(VersionGuardError::UpstreamEtagMissing),
    };
    let current = normalize_etag(etag.as_str());
    let cv = chars_of(current.as_str());
    let ghost bl = strings_view(*baselines);
    let mut i: usize = 0;
    while i < baselines.len()
        invariant
            i <= baselines.len(),
            bl == strings_view(*baselines),
            cv@ == current@,
            bl.len() > 0,
            is_success(head.status),
            header_text(head.headers, "etag"@) == Some(etag@),
            current@ == normalized_etag(etag@),
            forall|k: int| 0 <= k < i ==> bl[k] != current@,
        decreases baselines.len() - i,
    {
        let bv = chars_of(baselines[i].as_str());
        if crate::text::eq_vec(&bv, &cv) {
            assert(bl[i as int] == current@);
            assert(bl.contains(current@));
            return Ok(());
        }
        i += 1;
    }
    assert(!bl.contains(current@));
    let mut expected: Vec<String> = Vec::new();
    let mut j: usize = 0;
    while j < baselines.len()
        invariant
            j <= baselines.len(),
            bl == strings_view(*baselines),
            strings_view(expected) == bl.take(j as int),
        decreases baselines.len() - j,
    {
        let c = baselines[j].clone();
        assert(c@ == bl[j as int]);
        let ghost before = strings_view(expected);
        expected.push(c);
        assert(strings_view(expected) =~= before.push(c@));
        assert(bl.take(j + 1) =~= bl.take(j as int).push(bl[j as int]));
        j += 1;
    }
    assert(bl.take(baselines@.len() as int) =~= bl);
    Err(VersionGuardError::BaselineMismatch { current, expected })
}

// ---------------------------------------------------------------------------
// Laws
// ---------------------------------------------------------------------------

/// A weak tag `W/x` normalizes as the strong tag `x` does (weak comparison),
/// unless `x` itself, trimmed, starts with another `W/`.
pub proof fn lemma_weak_tag_normalizes_as_strong(s: Seq<char>)
    requires
        !starts_with(trim(s), seq!['W', '/']),
    ensures
        normalized_etag(seq!['W', '/'] + s) == normalized_etag(s),
{
    let ws = CharClass::WhiteSpace;
    let p = seq!['W', '/'];
    let x = p + s;
    assert(!in_class(ws, x[0]));
    assert(trim_start_by(x, ws) == x);
    lemma_trim_end_keeps_prefix(p, s, ws);
    assert(trim(x) == p + trim_end_by(s, ws));
    assert((p + trim_end_by(s, ws)).take(2) =~= p);
    assert((p + trim_end_by(s, ws)).skip(2) =~= trim_end_by(s, ws));
    lemma_trim_facts(s, ws);
    let te = trim_end_by(s, ws);
    lemma_trim_facts(te, ws);
    assert(trim(te) == trim_end_by(trim_start_by(te, ws), ws));
    assert(trim_start_by(te, ws) == trim_start_by(trim_end_by(s, ws), ws));
    assert(trim(te) == trim(s));
    lemma_trim_facts(trim(s), ws);
}

/// A normalized tag never starts or ends with a double quote.
pub proof fn lemma_normalized_etag_unquoted(raw: Seq<char>)
    ensures
        normalized_etag(raw).len() > 0 ==> normalized_etag(raw)[0] != '"' && normalized_etag(
            raw,
        ).last() != '"',
{
    let s = trim(raw);
    let s = if starts_with(s, seq!['W', '/']) {
        s.skip(2)
    } else {
        s
    };
    lemma_trim_facts(trim(s), CharClass::Exactly('"'));
}

/// A tag `t` (trimmed, without surrounding quotes, not starting with `W/`)
/// normalizes to itself in its plain form `t`, its quoted form `"t"` and its
/// weak quoted form `W/"t"`, surrounded by white space.
pub proof fn lemma_tag_forms_normalize_to_tag(t: Seq<char>)
    requires
        trim(t) == t,
        t.len() > 0 ==> t[0] != '"' && t.last() != '"',
        !starts_with(t, seq!['W', '/']),
    ensures
        normalized_etag(t) == t,
        normalized_etag(seq!['"'] + t + seq!['"']) == t,
        normalized_etag(seq![' ', 'W', '/', '"'] + t + seq!['"', ' ']) == t,
{
    let ws = CharClass::WhiteSpace;
    let qc = CharClass::Exactly('"');
    let e = Seq::<char>::empty();
    assert(!is_white_space('"')) by {
        assert(('"' as u32) == 34);
    }
    assert(!is_white_space('W')) by {
        assert(('W' as u32) == 87);
    }
    assert(is_white_space(' ')) by {
        assert((' ' as u32) == 32);
    }
    // plain form
    lemma_trim_around(e, t, e, qc);
    assert(e + t + e =~= t);
    // quoted form
    let q = seq!['"'] + t + seq!['"'];
    assert(q[0] == '"');
    assert(q.last() == '"');
    lemma_trim_around(e, q, e, ws);
    assert(e + q + e =~= q);
    assert(!starts_with(q, seq!['W', '/'])) by {
        assert(q.take(2)[0] == '"');
    }
    lemma_trim_around(seq!['"'], t, seq!['"'], qc);
    // weak quoted form
    let m = seq!['W', '/'] + q;
    let w = seq![' ', 'W', '/', '"'] + t + seq!['"', ' '];
    assert(w =~= seq![' '] + m + seq![' ']);
    assert(m[0] == 'W');
    assert(m.last() == '"');
    lemma_trim_around(seq![' '], m, seq![' '], ws);
    assert(m.take(2) =~= seq!['W', '/']);
    assert(m.skip(2) =~= q);
}

/// `If-Match: *` names no baseline, whatever `X-Base-ETag` says.
pub proof fn lemma_if_match_star_names_none(if_match: Seq<char>, base_etag: Option<Seq<char>>)
    requires
        trim(if_match) == seq!['*'],
    ensures
        baselines_of(Some(if_match), base_etag) is None,
{
}

/// Each tag in a baseline list is non-empty.
pub proof fn lemma_baseline_list_nonempty(parts: Seq<Seq<char>>)
    ensures
        forall|i: int| 0 <= i < baseline_list(parts).len() ==> #[trigger] baseline_list(parts)[i].len() > 0,
    decreases parts.len(),
{
    if parts.len() > 0 {
        let rest = baseline_list(parts.drop_last());
        lemma_baseline_list_nonempty(parts.drop_last());
        let t = normalized_etag(parts.last());
        if t.len() > 0 {
            assert forall|i: int| 0 <= i < rest.push(t).len() implies #[trigger] rest.push(t)[i].len()
                > 0 by {
                if i < rest.len() {
                    assert(rest.push(t)[i] == rest[i]);
                }
            }
        }
    }
}

/// The named baselines are never an empty list, and no baseline is empty.
pub proof fn lemma_baselines_nonempty(if_match: Option<Seq<char>>, base_etag: Option<Seq<char>>)
    ensures
        baselines_of(if_match, base_etag) matches Some(list) ==> list.len() > 0 && forall|i: int|
            0 <= i < list.len() ==> #[trigger] list[i].len() > 0,
{
    if let Some(im) = if_match {
        lemma_baseline_list_nonempty(split_by(trim(im), ','));
    }
}

/// The check passes exactly when there are no baselines, or the upstream
/// answered with success and an ETag whose normalized form is a baseline.
pub proof fn lemma_pre_put_passes_only_on_match(
    baselines: Seq<Seq<char>>,
    status: u16,
    etag: Option<Seq<char>>,
)
    ensures
        pre_put_outcome(baselines, status, etag) is Ok <==> (baselines.len() == 0 || (
        crate::upstream::types::is_success(status) && etag is Some && baselines.contains(
            normalized_etag(etag->0),
        ))),
{
}

} // verus!
