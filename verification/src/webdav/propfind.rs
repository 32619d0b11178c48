//! The minimal PROPFIND multistatus answer (RFC 4918) that KeePass and
//! similar clients probe for.
use vstd::prelude::*;

use crate::text::{chars_of, starts_with};

verus! {

/// The multistatus document for one file: `href` (the path clients see),
/// its display name, and its length (`0` when unknown), ETag and last
/// modification (empty when unknown); the content type is always
/// `application/octet-stream`.
pub open spec fn multistatus_xml(
    href: Seq<char>,
    display_name: Seq<char>,
    content_length: Option<Seq<char>>,
    etag: Option<Seq<char>>,
    last_modified: Option<Seq<char>>,
) -> Seq<char> {
    let len = match content_length {
        Some(l) => l,
        None => "0"@,
    };
    let tag = match etag {
        Some(t) => t,
        None => ""@,
    };
    let lm = match last_modified {
        Some(m) => m,
        None => ""@,
    };
    "<?xml version=\"1.0\" encoding=\"utf-8\"?>\n<D:multistatus xmlns:D=\"DAV:\">\n  <D:response>\n    <D:href>"@
        + href
        + "</D:href>\n    <D:propstat>\n      <D:prop>\n        <D:resourcetype/>\n        <D:getcontenttype>application/octet-stream</D:getcontenttype>\n        <D:getcontentlength>"@
        + len + "</D:getcontentlength>\n        <D:getetag>"@ + tag
        + "</D:getetag>\n        <D:getlastmodified>"@ + lm
        + "</D:getlastmodified>\n        <D:displayname>"@ + display_name
        + "</D:displayname>\n      </D:prop>\n      <D:status>HTTP/1.1 200 OK</D:status>\n    </D:propstat>\n  </D:response>\n</D:multistatus>\n"@
}

/// The document describes one plain file, not a collection: right after the
/// `href` comes the property list, whose `resourcetype` is empty and whose
/// other properties are the content type `application/octet-stream`, the
/// length (`0` when unknown), the ETag and last modification (empty when
/// unknown) and the display name, in that order, and nothing else.
pub proof fn lemma_multistatus_describes_a_file(
    href: Seq<char>,
    display_name: Seq<char>,
    content_length: Option<Seq<char>>,
    etag: Option<Seq<char>>,
    last_modified: Option<Seq<char>>,
)
    ensures
        starts_with(
            multistatus_xml(href, display_name, content_length, etag, last_modified),
            "<?xml version=\"1.0\" encoding=\"utf-8\"?>\n<D:multistatus xmlns:D=\"DAV:\">\n  <D:response>\n    <D:href>"@
                + href + "</D:href>\n    <D:propstat>\n      <D:prop>\n"@
                + "        <D:resourcetype/>\n"@
                + "        <D:getcontenttype>application/octet-stream</D:getcontenttype>\n"@
                + "        <D:getcontentlength>"@ + content_length.unwrap_or("0"@)
                + "</D:getcontentlength>\n"@
                + "        <D:getetag>"@ + etag.unwrap_or(""@) + "</D:getetag>\n"@
                + "        <D:getlastmodified>"@ + last_modified.unwrap_or(""@)
                + "</D:getlastmodified>\n"@
                + "        <D:displayname>"@ + display_name + "</D:displayname>\n"@
                + "      </D:prop>\n"@,
        ),
{
    let head = "<?xml version=\"1.0\" encoding=\"utf-8\"?>\n<D:multistatus xmlns:D=\"DAV:\">\n  <D:response>\n    <D:href>"@;
    let len = content_length.unwrap_or("0"@);
    let tag = etag.unwrap_or(""@);
    let lm = last_modified.unwrap_or(""@);
    reveal_strlit("</D:href>\n    <D:propstat>\n      <D:prop>\n        <D:resourcetype/>\n        <D:getcontenttype>application/octet-stream</D:getcontenttype>\n        <D:getcontentlength>");
    reveal_strlit("</D:href>\n    <D:propstat>\n      <D:prop>\n");
    reveal_strlit("        <D:resourcetype/>\n");
    reveal_strlit("        <D:getcontenttype>application/octet-stream</D:getcontenttype>\n");
    reveal_strlit("        <D:getcontentlength>");
    reveal_strlit("</D:getcontentlength>\n        <D:getetag>");
    reveal_strlit("</D:getcontentlength>\n");
    reveal_strlit("        <D:getetag>");
    reveal_strlit("</D:getetag>\n        <D:getlastmodified>");
    reveal_strlit("</D:getetag>\n");
    reveal_strlit("        <D:getlastmodified>");
    reveal_strlit("</D:getlastmodified>\n        <D:displayname>");
    reveal_strlit("</D:getlastmodified>\n");
    reveal_strlit("        <D:displayname>");
    reveal_strlit("</D:displayname>\n      </D:prop>\n      <D:status>HTTP/1.1 200 OK</D:status>\n    </D:propstat>\n  </D:response>\n</D:multistatus>\n");
    reveal_strlit("</D:displayname>\n");
    reveal_strlit("      </D:prop>\n");
    reveal_strlit("      <D:status>HTTP/1.1 200 OK</D:status>\n    </D:propstat>\n  </D:response>\n</D:multistatus>\n");
    let a1 = "</D:href>\n    <D:propstat>\n      <D:prop>\n        <D:resourcetype/>\n        <D:getcontenttype>application/octet-stream</D:getcontenttype>\n        <D:getcontentlength>"@;
    let b1 = "</D:href>\n    <D:propstat>\n      <D:prop>\n"@ + "        <D:resourcetype/>\n"@
        + "        <D:getcontenttype>application/octet-stream</D:getcontenttype>\n"@
        + "        <D:getcontentlength>"@;
    assert(a1 =~= b1);
    let a2 = "</D:getcontentlength>\n        <D:getetag>"@;
    let b2 = "</D:getcontentlength>\n"@ + "        <D:getetag>"@;
    assert(a2 =~= b2);
    let a3 = "</D:getetag>\n        <D:getlastmodified>"@;
    let b3 = "</D:getetag>\n"@ + "        <D:getlastmodified>"@;
    assert(a3 =~= b3);
    let a4 = "</D:getlastmodified>\n        <D:displayname>"@;
    let b4 = "</D:getlastmodified>\n"@ + "        <D:displayname>"@;
    assert(a4 =~= b4);
    let post = "      <D:status>HTTP/1.1 200 OK</D:status>\n    </D:propstat>\n  </D:response>\n</D:multistatus>\n"@;
    let a5 = "</D:displayname>\n      </D:prop>\n      <D:status>HTTP/1.1 200 OK</D:status>\n    </D:propstat>\n  </D:response>\n</D:multistatus>\n"@;
    let b5 = "</D:displayname>\n"@ + "      </D:prop>\n"@ + post;
    assert(a5 =~= b5);
    let doc = multistatus_xml(href, display_name, content_length, etag, last_modified);
    let pre = head + href + b1 + len + b2 + tag + b3 + lm + b4 + display_name + "</D:displayname>\n"@
        + "      </D:prop>\n"@;
    assert(doc =~= pre + post);
    assert(doc.take(pre.len() as int) =~= pre);
    let q = "<?xml version=\"1.0\" encoding=\"utf-8\"?>\n<D:multistatus xmlns:D=\"DAV:\">\n  <D:response>\n    <D:href>"@
                + href + "</D:href>\n    <D:propstat>\n      <D:prop>\n"@
                + "        <D:resourcetype/>\n"@
                + "        <D:getcontenttype>application/octet-stream</D:getcontenttype>\n"@
                + "        <D:getcontentlength>"@ + content_length.unwrap_or("0"@)
                + "</D:getcontentlength>\n"@
                + "        <D:getetag>"@ + etag.unwrap_or(""@) + "</D:getetag>\n"@
                + "        <D:getlastmodified>"@ + last_modified.unwrap_or(""@)
                + "</D:getlastmodified>\n"@
                + "        <D:displayname>"@ + display_name + "</D:displayname>\n"@
                + "      </D:prop>\n"@;
    assert(q =~= pre);
}

fn append(out: &mut Vec<char>, s: &str)
    ensures
        final(out)@ == old(out)@ + s@,
{
    let v = chars_of(s);
    let ghost start = out@;
    let mut i: usize = 0;
    while i < v.len()
        invariant
            i <= v.len(),
            out@ == start + v@.take(i as int),
        decreases v.len() - i,
    {
        out.push(v[i]);
        assert(start + v@.take(i + 1) =~= (start + v@.take(i as int)).push(v@[i as int]));
        i += 1;
    }
    assert(v@.take(v@.len() as int) =~= v@);
}

/// The multistatus document (see `multistatus_xml`); `href` should be the
/// path that clients see, such as `/vault.kdbx`.
pub fn propfind_multistatus(
    href: &str,
    display_name: &str,
    content_length: Option<&str>,
    etag: Option<&str>,
    last_modified: Option<&str>,
) -> (r: String)
    ensures
        r@ == multistatus_xml(
            href@,
            display_name@,
            match content_length {
                Some(s) => Some(s@),
                None => None,
            },
            match etag {
                Some(s) => Some(s@),
                None => None,
            },
            match last_modified {
                Some(s) => Some(s@),
                None => None,
            },
        ),
{
    let content_length = match content_length {
        Some(s) => s,
        None => "0",
    };
    let etag = match etag {
        Some(s) => s,
        None => "",
    };
    let last_modified = match last_modified {
        Some(s) => s,
        None => "",
    };
    let mut out: Vec<char> = Vec::new();
    append(
        &mut out,
        "<?xml version=\"1.0\" encoding=\"utf-8\"?>\n<D:multistatus xmlns:D=\"DAV:\">\n  <D:response>\n    <D:href>",
    );
    append(&mut out, href);
    append(
        &mut out,
        "</D:href>\n    <D:propstat>\n      <D:prop>\n        <D:resourcetype/>\n        <D:getcontenttype>application/octet-stream</D:getcontenttype>\n        <D:getcontentlength>",
    );
    append(&mut out, content_length);
    append(&mut out, "</D:getcontentlength>\n        <D:getetag>");
    append(&mut out, etag);
    append(&mut out, "</D:getetag>\n        <D:getlastmodified>");
    append(&mut out, last_modified);
    append(&mut out, "</D:getlastmodified>\n        <D:displayname>");
    append(&mut out, display_name);
    append(
        &mut out,
        "</D:displayname>\n      </D:prop>\n      <D:status>HTTP/1.1 200 OK</D:status>\n    </D:propstat>\n  </D:response>\n</D:multistatus>\n",
    );
    crate::text::string_of(&out)
}

} // verus!
