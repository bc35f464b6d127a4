//! Static files: where to take one from, and the response that carries it.

use vstd::prelude::*;
use vstd::string::*;
use vstd::utf8::encode_utf8;
use crate::compress::{compressable, is_compressable};
use crate::headers::{field, Fields, RequestParser};
use crate::number::{decimal, push_decimal};
use crate::text::{chars_of, split, split_on, text_of, views};

verus! {

/// The file to read for a request: its static path up to the first `?`.
pub open spec fn file_path(h: Fields) -> Seq<char> {
    split(field(h, "static_path"@), "?"@)[0]
}

/// Where the bytes of a static file come from.
pub struct StaticSource {
    /// The file to read.
    pub path: String,
    /// Whether the file is served compressed, out of the cache.
    pub cached: bool,
}

/// Where the bytes of the request's static file come from.
pub fn static_source(hp: &RequestParser) -> (s: StaticSource)
    ensures
        s.path@ == file_path(hp.parsed_headers@),
        s.cached == compressable(hp.parsed_headers@),
{
    proof {
        reveal_strlit("?");
    }
    let full = hp.get_header("static_path");
    let parts = split_on(&chars_of(full.as_str()), &chars_of("?"));
    assert(views(parts@)[0] == parts@[0]@);
    StaticSource { path: text_of(&parts[0]), cached: is_compressable(hp) }
}

/// The head of the response that carries a static file of `len` bytes.
pub open spec fn static_head(len: nat, encoded: bool, mime: Option<Seq<char>>) -> Seq<char> {
    "HTTP/1.1 200 OK\r\n"@ + "Content-Length: "@ + decimal(len) + "\r\n"@ + (if encoded {
        "Content-Encoding: br\r\n"@
    } else {
        Seq::<char>::empty()
    }) + (match mime {
        Some(m) => "Content-Type: "@ + m + "\r\n"@,
        None => Seq::<char>::empty(),
    }) + "\r\n"@
}

/// The response that carries a static file: the head and the content.
pub open spec fn static_response(content: Seq<u8>, encoded: bool, mime: Option<Seq<char>>) -> Seq<
    u8,
> {
    encode_utf8(static_head(content.len(), encoded, mime)) + content
}

/// The plain view of an optional text.
pub open spec fn text_view(t: Option<String>) -> Option<Seq<char>> {
    match t {
        Some(s) => Some(s@),
        None => None,
    }
}

/// The response that carries `content`, which is brotli-encoded where
/// `encoded` says so and of the type `mime`, if one is known.
pub fn respond_static(content: &Vec<u8>, encoded: bool, mime: &Option<String>) -> (r: Vec<u8>)
    ensures
        r@ == static_response(content@, encoded, text_view(*mime)),
{
    let mut head = String::from_str("HTTP/1.1 200 OK\r\n");
    head.append("Content-Length: ");
    push_decimal(&mut head, content.len());
    head.append("\r\n");
    if encoded {
        head.append("Content-Encoding: br\r\n");
    }
    match mime {
        Some(m) => {
            head.append("Content-Type: ");
            head.append(m.as_str());
            head.append("\r\n");
        },
        None => {},
    }
    head.append("\r\n");
    assert(head@ =~= static_head(content@.len(), encoded, text_view(*mime)));
    let mut r: Vec<u8> = Vec::new();
    r.extend_from_slice(head.as_str().as_bytes());
    r.extend_from_slice(content.as_slice());
    assert(r@ =~= static_response(content@, encoded, text_view(*mime)));
    r
}

/// The response for the request's static file, given what was read for it:
/// `content` holds the bytes from the source that `static_source` names,
/// or nothing where they could not be had, and then there is no response.
pub fn get_static_file(hp: &RequestParser, content: Option<Vec<u8>>, mime: &Option<String>) -> (r:
    Option<Vec<u8>>)
    ensures
        match content {
            Some(c) => r matches Some(bytes) && bytes@ == static_response(
                c@,
                compressable(hp.parsed_headers@),
                text_view(*mime),
            ),
            None => r is None,
        },
{
    match content {
        Some(c) => Some(respond_static(&c, is_compressable(hp), mime)),
        None => None,
    }
}

} // verus!
