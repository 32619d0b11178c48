//! HTTP header maps (`http::HeaderMap`) as the relay reads and fills them.
//!
//! A map is modelled by `header_map_values`: each (lower-case) header name is
//! mapped to the byte strings of its values, in insertion order.
use vstd::prelude::*;
use http::{HeaderMap, HeaderValue};

use crate::text::push_char;

verus! {

#[verifier::external_type_specification]
#[verifier::external_body]
#[verifier::reject_recursive_types(T)]
pub struct ExHeaderMap<T>(http::HeaderMap<T>);

/// The values of a `HeaderMap`; declared for the map's type argument.
#[verifier::external_type_specification]
#[verifier::external_body]
pub struct ExHeaderValue(http::HeaderValue);

/// `Clone` of `HeaderMap` (derived in `http`), so that types holding a map
/// can derive `Clone`. Nothing is stated of the copy: the library never
/// relies on a clone.
pub assume_specification<T: Clone>[<http::HeaderMap<T> as Clone>::clone](m: &http::HeaderMap<T>) -> http::HeaderMap<T>;

/// What a header map holds: each header name (in its lower-case form) to the
/// bytes of all its values, first inserted first.
pub uninterp spec fn header_map_values(m: HeaderMap) -> Map<Seq<char>, Seq<Seq<u8>>>;

/// What a header value holds: its bytes (`HeaderValue::as_bytes`).
pub uninterp spec fn header_value_bytes(v: HeaderValue) -> Seq<u8>;

/// A character that may stand in a lower-case header name (RFC 9110 `tchar`).
pub open spec fn is_name_char(c: char) -> bool {
    ||| 'a' <= c && c <= 'z'
    ||| '0' <= c && c <= '9'
    ||| c == '!' || c == '#' || c == '$' || c == '%' || c == '&' || c == '\''
    ||| c == '*' || c == '+' || c == '-' || c == '.' || c == '^' || c == '_'
    ||| c == '`' || c == '|' || c == '~'
}

/// A header name in the normalized lower-case form that `http` stores.
pub open spec fn is_header_name(s: Seq<char>) -> bool {
    &&& 1 <= s.len() <= 64
    &&& forall|i: int| 0 <= i < s.len() ==> is_name_char(#[trigger] s[i])
}

/// A byte that `HeaderValue::to_str` accepts (visible ASCII or tab).
pub open spec fn is_visible_ascii(b: u8) -> bool {
    (b >= 32 && b < 127) || b == 9
}

/// The first value stored under `name` in the values `vals` of a map.
pub open spec fn first_value(vals: Map<Seq<char>, Seq<Seq<u8>>>, name: Seq<char>) -> Option<Seq<u8>> {
    if vals.contains_key(name) && vals[name].len() > 0 {
        Some(vals[name][0])
    } else {
        None
    }
}

/// The first value stored under `name`, if any (what `HeaderMap::get` returns).
pub open spec fn header_first(m: HeaderMap, name: Seq<char>) -> Option<Seq<u8>> {
    first_value(header_map_values(m), name)
}

/// The characters of a byte string of ASCII bytes.
pub open spec fn ascii_chars(b: Seq<u8>) -> Seq<char> {
    b.map_values(|x: u8| x as char)
}

/// The first value under `name` in `vals` as text, if it is visible ASCII.
pub open spec fn text_value(vals: Map<Seq<char>, Seq<Seq<u8>>>, name: Seq<char>) -> Option<Seq<char>> {
    match first_value(vals, name) {
        Some(b) => if forall|i: int| 0 <= i < b.len() ==> is_visible_ascii(#[trigger] b[i]) {
            Some(ascii_chars(b))
        } else {
            None
        },
        None => None,
    }
}

/// The first value under `name` as text, if it is visible ASCII: what
/// `headers.get(name).and_then(|v| v.to_str().ok())` yields.
pub open spec fn header_text(m: HeaderMap, name: Seq<char>) -> Option<Seq<char>> {
    text_value(header_map_values(m), name)
}

/// `HeaderMap::new`: an empty map.
#[verifier::external_body]
pub(crate) fn header_map_new() -> (map: HeaderMap)
    ensures
        header_map_values(map).dom() == Set::<Seq<char>>::empty(),
{
    HeaderMap::new()
}

/// `HeaderMap::get`: the bytes of the first value stored under `name`.
#[verifier::external_body]
pub(crate) fn header_map_get(m: &HeaderMap, name: &str) -> (r: Option<Vec<u8>>)
    requires
        is_header_name(name@),
    ensures
        match r {
            Some(v) => header_first(*m, name@) == Some(v@),
            None => header_first(*m, name@) is None,
        },
{
    match m.get(name) {
        Some(v) => Some(v.as_bytes().to_vec()),
        None => None,
    }
}

/// `HeaderMap::get`: the first value stored under `name`, cloned as it is.
#[verifier::external_body]
pub(crate) fn header_map_get_value(m: &HeaderMap, name: &str) -> (r: Option<HeaderValue>)
    requires
        is_header_name(name@),
    ensures
        match r {
            Some(v) => header_first(*m, name@) == Some(header_value_bytes(v)),
            None => header_first(*m, name@) is None,
        },
{
    m.get(name).cloned()
}

/// `HeaderMap::insert`: `name` now holds exactly `value`. Panics of `insert`
/// (more than 2^15 names) are excluded by the bound on the map's size.
#[verifier::external_body]
pub(crate) fn header_map_insert_value(m: &mut HeaderMap, name: &'static str, value: HeaderValue)
    requires
        is_header_name(name@),
        header_map_values(*old(m)).dom().finite(),
        header_map_values(*old(m)).dom().len() < 1024,
    ensures
        header_map_values(*final(m)) == header_map_values(*old(m)).insert(
            name@,
            seq![header_value_bytes(value)],
        ),
{
    m.insert(name, value);
}

/// The first value under `name` as text, when it is visible ASCII.
pub fn header_str(m: &HeaderMap, name: &str) -> (r: Option<String>)
    requires
        is_header_name(name@),
    ensures
        match r {
            Some(s) => header_text(*m, name@) == Some(s@),
            None => header_text(*m, name@) is None,
        },
{
    match header_map_get(m, name) {
        None => None,
        Some(b) => {
            let mut s = String::new();
            let mut i: usize = 0;
            while i < b.len()
                invariant
                    header_first(*m, name@) == Some(b@),
                    i <= b.len(),
                    forall|k: int| 0 <= k < i ==> is_visible_ascii(#[trigger] b@[k]),
                    s@ == ascii_chars(b@.take(i as int)),
                decreases b.len() - i,
            {
                let x = b[i];
                if !((x >= 32 && x < 127) || x == 9) {
                    assert(!is_visible_ascii(b@[i as int]));
                    return None;
                }
                push_ascii(&mut s, x);
                assert(ascii_chars(b@.take(i + 1)) =~= ascii_chars(b@.take(i as int)).push(
                    x as char,
                ));
                i += 1;
            }
            assert(b@.take(b@.len() as int) =~= b@);
            Some(s)
        },
    }
}

/// Appends the character of an ASCII byte.
fn push_ascii(s: &mut String, b: u8)
    requires
        b < 128,
    ensures
        final(s)@ == old(s)@.push(b as char),
{
    let c = b as char;
    push_char(s, c);
}

/// The header names that the relay reads or writes are valid lower-case names.
pub proof fn lemma_known_header_names()
    ensures
        is_header_name("etag"@),
        is_header_name("content-length"@),
        is_header_name("content-type"@),
        is_header_name("last-modified"@),
        is_header_name("if-match"@),
        is_header_name("x-base-etag"@),
        is_header_name("authorization"@),
{
    reveal_strlit("etag");
    reveal_strlit("content-length");
    reveal_strlit("content-type");
    reveal_strlit("last-modified");
    reveal_strlit("if-match");
    reveal_strlit("x-base-etag");
    reveal_strlit("authorization");
}

} // verus!
