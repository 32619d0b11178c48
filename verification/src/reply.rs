//! Responses of the relay to its clients, as plain values; the HTTP server
//! turns them into responses.
use vstd::prelude::*;
use http::HeaderValue;

use crate::headers::header_value_bytes;

verus! {

/// The value of a response header.
pub enum FieldValue {
    /// Text given by the relay.
    Text(String),
    /// A value taken over from an upstream header, as it is.
    Raw(HeaderValue),
}

/// The body of a response.
pub enum ReplyBody {
    Empty,
    /// Bytes taken over from the upstream.
    Bytes(Vec<u8>),
    /// Text given by the relay.
    Text(String),
}

/// A response: status, headers in order, body.
pub struct Reply {
    pub status: u16,
    pub headers: Vec<(&'static str, FieldValue)>,
    pub body: ReplyBody,
}

pub enum FieldView {
    Text(Seq<char>),
    Raw(Seq<u8>),
}

pub enum BodyView {
    Empty,
    Bytes(Seq<u8>),
    Text(Seq<char>),
}

/// A response as plain values.
pub struct ReplyView {
    pub status: u16,
    pub headers: Seq<(Seq<char>, FieldView)>,
    pub body: BodyView,
}

pub open spec fn field_view(v: FieldValue) -> FieldView {
    match v {
        FieldValue::Text(s) => FieldView::Text(s@),
        FieldValue::Raw(v) => FieldView::Raw(header_value_bytes(v)),
    }
}

impl View for Reply {
    type V = ReplyView;

    open spec fn view(&self) -> ReplyView {
        ReplyView {
            status: self.status,
            headers: self.headers@.map_values(
                |h: (&'static str, FieldValue)| (h.0@, field_view(h.1)),
            ),
            body: match self.body {
                ReplyBody::Empty => BodyView::Empty,
                ReplyBody::Bytes(b) => BodyView::Bytes(b@),
                ReplyBody::Text(s) => BodyView::Text(s@),
            },
        }
    }
}

/// A response with only a status.
pub open spec fn status_reply(status: u16) -> ReplyView {
    ReplyView { status, headers: Seq::empty(), body: BodyView::Empty }
}

/// A plain-text response (`text/plain; charset=utf-8`).
pub open spec fn text_reply(status: u16, msg: Seq<char>) -> ReplyView {
    ReplyView {
        status,
        headers: seq![("content-type"@, FieldView::Text("text/plain; charset=utf-8"@))],
        body: BodyView::Text(msg),
    }
}

/// A response with only a status.
pub fn status_only(status: u16) -> (r: Reply)
    ensures
        r@ == status_reply(status),
{
    let r = Reply { status, headers: Vec::new(), body: ReplyBody::Empty };
    assert(r@.headers =~= Seq::<(Seq<char>, FieldView)>::empty());
    r
}

/// A plain-text response.
pub fn plain_text(status: u16, msg: &str) -> (r: Reply)
    ensures
        r@ == text_reply(status, msg@),
{
    let mut headers: Vec<(&'static str, FieldValue)> = Vec::new();
    headers.push(("content-type", FieldValue::Text("text/plain; charset=utf-8".to_owned())));
    let r = Reply { status, headers, body: ReplyBody::Text(msg.to_owned()) };
    assert(r@.headers =~= seq![("content-type"@, FieldView::Text("text/plain; charset=utf-8"@))]);
    r
}

} // verus!
