//! Selection of the upstream response headers that reach the client.
use vstd::prelude::*;
use http::HeaderMap;

use crate::headers::{
    first_value, header_first, header_map_get_value, header_map_insert_value, header_map_new,
    header_map_values, is_header_name, lemma_known_header_names,
};

verus! {

/// The headers passed on from an upstream response to the client.
pub open spec fn is_forwarded(name: Seq<char>) -> bool {
    name == "etag"@ || name == "content-length"@ || name == "content-type"@ || name
        == "last-modified"@
}

/// What the forwarded map holds under `name`, for an upstream map with
/// values `vals`: the first upstream value, unchanged, when the name is
/// forwarded.
pub open spec fn forwarded_of(vals: Map<Seq<char>, Seq<Seq<u8>>>, name: Seq<char>) -> Option<Seq<u8>> {
    if is_forwarded(name) {
        first_value(vals, name)
    } else {
        None
    }
}

/// What the forwarded map holds under `name` (see `forwarded_of`).
pub open spec fn forwarded_value(src: HeaderMap, name: Seq<char>) -> Option<Seq<u8>> {
    forwarded_of(header_map_values(src), name)
}

/// One forwarded header copied from `src` into `out`.
fn copy_header(src: &HeaderMap, out: &mut HeaderMap, name: &'static str)
    requires
        is_header_name(name@),
        header_map_values(*old(out)).dom().finite(),
        header_map_values(*old(out)).dom().len() < 8,
    ensures
        header_map_values(*final(out)).dom().finite(),
        header_map_values(*final(out)).dom().len() <= header_map_values(*old(out)).dom().len() + 1,
        header_map_values(*final(out)) == match header_first(*src, name@) {
            Some(v) => header_map_values(*old(out)).insert(name@, seq![v]),
            None => header_map_values(*old(out)),
        },
{
    if let Some(v) = header_map_get_value(src, name) {
        header_map_insert_value(out, name, v);
    }
}

/// The `ETag`, `Content-Length`, `Content-Type` and `Last-Modified` headers
/// of an upstream response, each with its first value as it is; nothing else
/// (no hop-by-hop headers).
pub fn filter_forward_headers(src: &HeaderMap) -> (out: HeaderMap)
    ensures
        header_map_values(out).dom().finite(),
        forall|name: Seq<char>| #[trigger] header_map_values(out).contains_key(name)
            <==> forwarded_value(*src, name) is Some,
        forall|name: Seq<char>| #[trigger] header_map_values(out).contains_key(name)
            ==> header_map_values(out)[name] == seq![forwarded_value(*src, name)->0],
{
    proof {
        lemma_known_header_names();
    }
    let mut out = header_map_new();
    proof {
        assert(header_map_values(out).dom() =~= Set::<Seq<char>>::empty());
    }
    copy_header(src, &mut out, "etag");
    copy_header(src, &mut out, "content-length");
    copy_header(src, &mut out, "content-type");
    copy_header(src, &mut out, "last-modified");
    proof {
        reveal_strlit("etag");
        reveal_strlit("content-length");
        reveal_strlit("content-type");
        reveal_strlit("last-modified");
    }
    out
}

/// Forwarding the forwarded headers again changes nothing: a map `out`
/// that `filter_forward_headers` gives for `vals` forwards the same values.
pub proof fn lemma_forwarding_idempotent(
    vals: Map<Seq<char>, Seq<Seq<u8>>>,
    out: Map<Seq<char>, Seq<Seq<u8>>>,
)
    requires
        forall|name: Seq<char>| #[trigger] out.contains_key(name) <==> forwarded_of(vals, name) is Some,
        forall|name: Seq<char>| #[trigger] out.contains_key(name) ==> out[name] == seq![
            forwarded_of(vals, name)->0,
        ],
    ensures
        forall|name: Seq<char>| #[trigger] forwarded_of(out, name) == forwarded_of(vals, name),
{
    assert forall|name: Seq<char>| #[trigger] forwarded_of(out, name) == forwarded_of(vals, name) by {
        if out.contains_key(name) {
            assert(out[name][0] == forwarded_of(vals, name)->0);
        }
    }
}

} // verus!
