//! Absolute URLs (`url::Url`) together with the parts of them that the relay
//! reads, as plain values.
use vstd::prelude::*;

verus! {

#[verifier::external_type_specification]
#[verifier::external_body]
pub struct ExUrl(url::Url);

/// `Clone` of `url::Url` (derived in `url`), so that `WebUrl` can derive
/// `Clone`. Nothing is stated of the copy: the library never relies on a
/// clone.
pub assume_specification[<::url::Url as Clone>::clone](u: &::url::Url) -> ::url::Url;

/// The parts of a parsed URL that the relay reads: its serialization, its
/// host (if any) and its path, as the `url` crate gives them.
pub struct UrlParts {
    pub text: Seq<char>,
    pub host: Option<Seq<char>>,
    pub path: Seq<char>,
}

/// What `Url::parse` gives for `input`: the parts of the URL, or the message
/// of the parse error.
pub uninterp spec fn url_parse_outcome(input: Seq<char>) -> Result<UrlParts, Seq<char>>;

/// What `Url::join` gives for the URL serialized as `base` and the reference
/// `input`: the parts of the joined URL, or the message of the parse error.
pub uninterp spec fn url_join_outcome(base: Seq<char>, input: Seq<char>) -> Result<
    UrlParts,
    Seq<char>,
>;

/// An absolute URL. Its plain parts are those that the `url` crate gave when
/// the URL was parsed or joined; nothing else builds a `WebUrl`.
#[derive(Debug, Clone)]
pub struct WebUrl {
    parsed: url::Url,
    text: String,
    host: Option<String>,
    path: String,
}

pub open spec fn opt_chars(o: Option<String>) -> Option<Seq<char>> {
    match o {
        Some(s) => Some(s@),
        None => None,
    }
}

impl WebUrl {
    /// The `url::Url` that this value holds, whose serialization, host and
    /// path are the parts of its view.
    pub closed spec fn inner_url(&self) -> url::Url {
        self.parsed
    }
}

impl View for WebUrl {
    type V = UrlParts;

    closed spec fn view(&self) -> UrlParts {
        UrlParts { text: self.text@, host: opt_chars(self.host), path: self.path@ }
    }
}

/// The outcome of a parse or join, with the URL taken by its parts.
pub open spec fn url_outcome_view(r: Result<WebUrl, String>) -> Result<UrlParts, Seq<char>> {
    match r {
        Ok(u) => Ok(u@),
        Err(m) => Err(m@),
    }
}

/// `Url::parse`; the URL is kept with its serialization, host and path, and
/// an error by its message.
#[verifier::external_body]
fn url_parse(input: &str) -> (r: Result<WebUrl, String>)
    ensures
        url_outcome_view(r) == url_parse_outcome(input@),
{
    match url::Url::parse(input) {
        Ok(u) => {
            let text = u.as_str().to_string();
            let host = match u.host_str() {
                Some(h) => Some(h.to_string()),
                None => None,
            };
            let path = u.path().to_string();
            Ok(WebUrl { parsed: u, text, host, path })
        },
        Err(e) => Err(e.to_string()),
    }
}

/// `Url::join`; the joined URL is kept with its serialization, host and
/// path, and an error by its message.
#[verifier::external_body]
fn url_join(base: &WebUrl, input: &str) -> (r: Result<WebUrl, String>)
    ensures
        url_outcome_view(r) == url_join_outcome(base@.text, input@),
{
    match base.parsed.join(input) {
        Ok(u) => {
            let text = u.as_str().to_string();
            let host = match u.host_str() {
                Some(h) => Some(h.to_string()),
                None => None,
            };
            let path = u.path().to_string();
            Ok(WebUrl { parsed: u, text, host, path })
        },
        Err(e) => Err(e.to_string()),
    }
}

impl WebUrl {
    /// Parses an absolute URL (`Url::parse`).
    pub fn parse(input: &str) -> (r: Result<WebUrl, String>)
        ensures
            url_outcome_view(r) == url_parse_outcome(input@),
    {
        url_parse(input)
    }

    /// Resolves `input` against this URL (`Url::join`).
    pub fn join(&self, input: &str) -> (r: Result<WebUrl, String>)
        ensures
            url_outcome_view(r) == url_join_outcome(self@.text, input@),
    {
        url_join(self, input)
    }

    /// The serialization of the URL.
    pub fn as_str(&self) -> (s: &str)
        ensures
            s@ == self@.text,
    {
        self.text.as_str()
    }

    /// The host, if the URL has one.
    pub fn host_str(&self) -> (h: Option<&str>)
        ensures
            match h {
                Some(x) => self@.host == Some(x@),
                None => self@.host is None,
            },
    {
        match &self.host {
            Some(x) => Some(x.as_str()),
            None => None,
        }
    }

    /// The path of the URL.
    pub fn path(&self) -> (p: &str)
        ensures
            p@ == self@.path,
    {
        self.path.as_str()
    }

    /// The underlying `url::Url`.
    pub fn as_url(&self) -> (u: &url::Url)
        ensures
            *u == self.inner_url(),
    {
        &self.parsed
    }
}

} // verus!
