//! The request parser: from the bytes read so far to the fields of a request.

use vstd::prelude::*;
use vstd::string::*;
use vstd::slice::slice_subrange;
use vstd::utf8::{decode_utf8, valid_utf8};
use crate::conf::{Conf, ServerConf};
use crate::number::{parse_usize, parsed_usize};
use crate::path::{
    escapes, is_within_root, join, joined, lemma_traversal_rejected, remove_all, removed_all,
    within_root,
};
use crate::request::{has_hostname, names_host, Request, RequestFile};
use crate::text::{
    chars_of, contains, decode_text, find, first_match, is_text, lemma_first_match, lowercase_of,
    slice_of, split, split_on, starts_with, string_of, text_of, to_lowercase, trimmed, views,
};
use crate::text_map::TextMap;

verus! {

/// The header region that is scanned for lines: this many bytes at most.
pub const MAX_HEADERS_SIZE: usize = 2048;

/// Below this many characters a session id is taken over.
pub const MAX_SESSION_ID_LEN: usize = 100;

/// The fields found so far, by name.
pub type Fields = Map<Seq<char>, Seq<char>>;

/// The methods that are served.
pub open spec fn is_method(m: Seq<char>) -> bool {
    m == "get"@ || m == "post"@ || m == "put"@ || m == "delete"@
}

/// Whether the lower-cased line opens like a request line.
pub open spec fn opens_request_line(lower: Seq<char>) -> bool {
    "get "@.is_prefix_of(lower) || "post "@.is_prefix_of(lower) || "delete "@.is_prefix_of(lower)
        || "put "@.is_prefix_of(lower)
}

/// What the three parts of a request line add, method and protocol in
/// lower case: all three, if the method is served and the protocol is
/// HTTP/1.1, and else nothing.
pub open spec fn request_fields(
    method: Seq<char>,
    path: Seq<char>,
    protocol: Seq<char>,
    h: Fields,
) -> Fields {
    if !is_method(method) || protocol != "http/1.1"@ {
        h
    } else {
        h.insert("method"@, method).insert("path"@, path).insert("protocol"@, protocol)
    }
}

/// What a request line adds: method, path and protocol, if it has exactly
/// these three parts, a served method and the protocol HTTP/1.1.
pub open spec fn request_line(line: Seq<char>, h: Fields) -> Fields {
    let parts = split(line, " "@);
    if parts.len() != 3 {
        h
    } else {
        request_fields(lowercase_of(parts[0]), parts[1], lowercase_of(parts[2]), h)
    }
}

/// The name and the value of a header line as it was sent: what stands
/// before its first colon and space, and what follows them.
pub open spec fn header_parts(line: Seq<char>) -> Option<(Seq<char>, Seq<char>)> {
    match first_match(line, ": "@, 0) {
        Some(i) => Some((line.subrange(0, i), line.subrange(i + 2, line.len() as int))),
        None => None,
    }
}

/// What a host header adds: the host name without its port, in lower
/// case. `lower` is the whole line in lower case; a line that names the
/// header a second time adds nothing.
pub open spec fn host_header(value: Seq<char>, lower: Seq<char>, h: Fields) -> Fields {
    if split(lower, "host: "@).len() != 2 {
        h
    } else {
        h.insert("host"@, lowercase_of(split(value, ":"@)[0]))
    }
}

/// What a content-length header adds: its value as sent. A line with
/// more than the one space behind the colon adds nothing.
pub open spec fn content_len_header(value: Seq<char>, lower: Seq<char>, h: Fields) -> Fields {
    if split(lower, " "@).len() != 2 {
        h
    } else {
        h.insert("content-length"@, value)
    }
}

/// What a content-type header adds: its value as sent.
pub open spec fn content_type_header(value: Seq<char>, h: Fields) -> Fields {
    h.insert("content-type"@, value)
}

/// What an accept-encoding header adds: its value as sent. A line that
/// names the header a second time adds nothing.
pub open spec fn accept_encoding_header(value: Seq<char>, lower: Seq<char>, h: Fields) -> Fields {
    if split(lower, "accept-encoding: "@).len() != 2 {
        h
    } else {
        h.insert("accept-encoding"@, value)
    }
}

/// The name and the value of a cookie: of what stands before the first
/// semicolon, the text before the first `=` and the text behind it, both
/// without the white space around them. Nothing where there is no `=` or
/// no name.
pub open spec fn cookie_pair(s: Seq<char>) -> Option<(Seq<char>, Seq<char>)> {
    let first = split(s, ";"@)[0];
    match first_match(first, "="@, 0) {
        Some(i) => if trimmed(first.subrange(0, i)).len() == 0 {
            None
        } else {
            Some((trimmed(first.subrange(0, i)), trimmed(first.subrange(i + 1, first.len() as int))))
        },
        None => None,
    }
}

/// `cookie::Cookie::parse` followed by `name_value`: the parser takes what
/// stands before the first semicolon, splits it at its first `=` and trims
/// both sides; it rejects a string without `=` or with an empty name. What
/// follows the first semicolon does not touch name and value.
#[verifier::external_body]
fn parse_cookie(s: &str) -> (r: Option<(String, String)>)
    ensures
        match r {
            Some(p) => cookie_pair(s@) == Some((p.0@, p.1@)),
            None => cookie_pair(s@) is None,
        },
{
    match cookie::Cookie::parse(s) {
        Ok(c) => {
            let (name, value) = c.name_value();
            Some((name.to_string(), value.to_string()))
        },
        Err(_) => None,
    }
}

/// The session id that a parsed cookie carries: the value of a cookie
/// named `session_id`, if it is short enough.
pub open spec fn session_of(pair: Option<(Seq<char>, Seq<char>)>) -> Option<Seq<char>> {
    match pair {
        Some(p) => if p.0 == "session_id"@ && p.1.len() < MAX_SESSION_ID_LEN {
            Some(p.1)
        } else {
            None
        },
        None => None,
    }
}

/// What a cookie header adds: the session id that the cookie in its
/// value carries, as sent. A line that names the header a second time adds
/// nothing.
pub open spec fn cookie_header(value: Seq<char>, lower: Seq<char>, h: Fields) -> Fields {
    if split(lower, "cookie: "@).len() != 2 {
        h
    } else {
        match session_of(cookie_pair(value)) {
            Some(id) => h.insert("session_id"@, id),
            None => h,
        }
    }
}

/// What a header adds, given its name in lower case, its value as sent
/// and the whole line in lower case. A header that is not read adds
/// nothing.
pub open spec fn named_header(
    name: Seq<char>,
    value: Seq<char>,
    lower: Seq<char>,
    h: Fields,
) -> Fields {
    if name == "host"@ {
        host_header(value, lower, h)
    } else if name == "content-length"@ {
        content_len_header(value, lower, h)
    } else if name == "content-type"@ {
        content_type_header(value, h)
    } else if name == "accept-encoding"@ {
        accept_encoding_header(value, lower, h)
    } else if name == "cookie"@ {
        cookie_header(value, lower, h)
    } else {
        h
    }
}

/// What one header line adds to the fields.
pub open spec fn header_line(line: Seq<char>, h: Fields) -> Fields {
    lowered_line(line, lowercase_of(line), h)
}

/// What one header line adds to the fields, given its lower-case form. A
/// request line is told by its lower-case form and read as it stands. Of
/// any other line the name is what stands before the first colon and
/// space, read in lower case, and the value is what follows, as sent.
pub open spec fn lowered_line(line: Seq<char>, lower: Seq<char>, h: Fields) -> Fields {
    if opens_request_line(lower) {
        request_line(line, h)
    } else {
        match header_parts(line) {
            Some(p) => named_header(lowercase_of(p.0), p.1, lower, h),
            None => h,
        }
    }
}

/// The pieces of `s` between the occurrences of the text `pat`.
fn split_text(s: &Vec<char>, pat: &str) -> (out: Vec<Vec<char>>)
    requires
        pat@.len() > 0,
    ensures
        views(out@) == split(s@, pat@),
        out@.len() == split(s@, pat@).len(),
        out@.len() >= 1,
{
    let p = chars_of(pat);
    split_on(s, &p)
}

/// Whether `s` begins with the text `pat`.
fn begins_with(s: &Vec<char>, pat: &str) -> (b: bool)
    ensures
        b == pat@.is_prefix_of(s@),
{
    let p = chars_of(pat);
    starts_with(s, &p)
}

/// The lower-case form of the characters `v`.
fn lowered(v: &Vec<char>) -> (r: String)
    ensures
        r@ == lowercase_of(v@),
{
    let s = text_of(v);
    to_lowercase(s.as_str())
}

/// Reads a request line.
fn parse_method_path_protocol(s: &str, r: &mut TextMap<String>)
    ensures
        final(r)@ == request_line(s@, old(r)@),
{
    proof {
        reveal_strlit(" ");
    }
    let chars = chars_of(s);
    let parts = split_text(&chars, " ");
    if parts.len() != 3 {
        return ;
    }
    assert(views(parts@)[0] == parts@[0]@);
    assert(views(parts@)[1] == parts@[1]@);
    assert(views(parts@)[2] == parts@[2]@);
    let method = lowered(&parts[0]);
    let path = text_of(&parts[1]);
    let protocol = lowered(&parts[2]);
    accept_request_line(method, path, protocol, r);
}

/// Takes the three parts of a request line into the fields, method and
/// protocol given in lower case: all three or none.
pub fn accept_request_line(method: String, path: String, protocol: String, r: &mut TextMap<String>)
    ensures
        final(r)@ == request_fields(method@, path@, protocol@, old(r)@),
{
    if !is_text(&method, "get") && !is_text(&method, "post") && !is_text(&method, "put")
        && !is_text(&method, "delete") {
        return ;
    }
    if !is_text(&protocol, "http/1.1") {
        return ;
    }
    r.insert(String::from_str("method"), method);
    r.insert(String::from_str("path"), path);
    r.insert(String::from_str("protocol"), protocol);
}

/// Reads a host header: its value as sent and the line in lower case.
fn parse_host(value: &Vec<char>, lower: &Vec<char>, r: &mut TextMap<String>)
    ensures
        final(r)@ == host_header(value@, lower@, old(r)@),
{
    proof {
        reveal_strlit("host: ");
        reveal_strlit(":");
    }
    if split_text(lower, "host: ").len() != 2 {
        return ;
    }
    let host_port = split_text(value, ":");
    assert(views(host_port@)[0] == host_port@[0]@);
    let host = lowered(&host_port[0]);
    r.insert(String::from_str("host"), host);
}

/// Reads a content-length header: its value as sent and the line in lower
/// case.
fn parse_content_len(value: &Vec<char>, lower: &Vec<char>, r: &mut TextMap<String>)
    ensures
        final(r)@ == content_len_header(value@, lower@, old(r)@),
{
    proof {
        reveal_strlit(" ");
    }
    if split_text(lower, " ").len() != 2 {
        return ;
    }
    r.insert(String::from_str("content-length"), text_of(value));
}

/// Reads a content-type header: its value as sent.
pub fn parse_content_type(value: &Vec<char>, r: &mut TextMap<String>)
    ensures
        final(r)@ == content_type_header(value@, old(r)@),
{
    r.insert(String::from_str("content-type"), text_of(value));
}

/// Reads an accept-encoding header: its value as sent and the line in
/// lower case.
fn parse_accept_encoding(value: &Vec<char>, lower: &Vec<char>, r: &mut TextMap<String>)
    ensures
        final(r)@ == accept_encoding_header(value@, lower@, old(r)@),
{
    proof {
        reveal_strlit("accept-encoding: ");
    }
    if split_text(lower, "accept-encoding: ").len() != 2 {
        return ;
    }
    r.insert(String::from_str("accept-encoding"), text_of(value));
}

/// The plain view of an optional pair of texts.
pub open spec fn pair_view(pair: Option<(String, String)>) -> Option<(Seq<char>, Seq<char>)> {
    match pair {
        Some(p) => Some((p.0@, p.1@)),
        None => None,
    }
}

/// The session id that a parsed cookie carries, if any.
pub fn session_id_of(pair: Option<(String, String)>) -> (r: Option<String>)
    ensures
        match r {
            Some(id) => session_of(pair_view(pair)) == Some(id@),
            None => session_of(pair_view(pair)) is None,
        },
{
    match pair {
        Some(p) => {
            let (name, value) = p;
            if is_text(&name, "session_id") && value.as_str().unicode_len() < MAX_SESSION_ID_LEN {
                Some(value)
            } else {
                None
            }
        },
        None => None,
    }
}

/// Reads a cookie header: its value as sent and the line in lower case.
fn parse_cookies(value: &Vec<char>, lower: &Vec<char>, r: &mut TextMap<String>)
    ensures
        final(r)@ == cookie_header(value@, lower@, old(r)@),
{
    proof {
        reveal_strlit("cookie: ");
    }
    if split_text(lower, "cookie: ").len() != 2 {
        return ;
    }
    let cookie = text_of(value);
    match session_id_of(parse_cookie(cookie.as_str())) {
        Some(id) => {
            r.insert(String::from_str("session_id"), id);
        },
        None => {},
    }
}

/// Reads a header into the fields, given its name in lower case, its
/// value as sent and the whole line in lower case.
pub fn parse_named_header(
    name: &str,
    value: &Vec<char>,
    lower: &Vec<char>,
    parsed_headers: &mut TextMap<String>,
)
    ensures
        final(parsed_headers)@ == named_header(name@, value@, lower@, old(parsed_headers)@),
{
    let name = String::from_str(name);
    if is_text(&name, "host") {
        parse_host(value, lower, parsed_headers);
    } else if is_text(&name, "content-length") {
        parse_content_len(value, lower, parsed_headers);
    } else if is_text(&name, "content-type") {
        parse_content_type(value, parsed_headers);
    } else if is_text(&name, "accept-encoding") {
        parse_accept_encoding(value, lower, parsed_headers);
    } else if is_text(&name, "cookie") {
        parse_cookies(value, lower, parsed_headers);
    }
}

/// Reads one header line into the fields. A line that is no request line
/// and none of the headers that are read leaves the fields as they are.
pub fn parse_header_line(line: &str, parsed_headers: &mut TextMap<String>)
    ensures
        final(parsed_headers)@ == header_line(line@, old(parsed_headers)@),
{
    let lowerline = to_lowercase(line);
    parse_lowered_line(line, lowerline.as_str(), parsed_headers);
}

/// Reads one header line into the fields, given the line in lower case.
pub fn parse_lowered_line(line: &str, lowerline: &str, parsed_headers: &mut TextMap<String>)
    ensures
        final(parsed_headers)@ == lowered_line(line@, lowerline@, old(parsed_headers)@),
{
    proof {
        reveal_strlit(": ");
    }
    let lower = chars_of(lowerline);
    if begins_with(&lower, "get ") || begins_with(&lower, "post ") || begins_with(&lower, "delete ")
        || begins_with(&lower, "put ") {
        parse_method_path_protocol(line, parsed_headers);
        return ;
    }
    let chars = chars_of(line);
    let n: usize = chars.len();
    proof {
        lemma_first_match(chars@, ": "@, 0);
    }
    match find(&chars, &chars_of(": "), 0) {
        Some(i) => {
            let name = lowered(&slice_of(&chars, 0, i));
            let value = slice_of(&chars, i + 2, n);
            parse_named_header(name.as_str(), &value, &lower, parsed_headers);
        },
        None => {},
    }
}

/// The value of a field, or the empty text where it has none.
pub open spec fn field(h: Fields, name: Seq<char>) -> Seq<char> {
    if h.contains_key(name) {
        h[name]
    } else {
        Seq::empty()
    }
}

/// Whether the fields make a request that is served: method, host and path
/// are there, the method is one of the four, the protocol is HTTP/1.1, and
/// a static request has been resolved to a file.
pub open spec fn valid_request(h: Fields, is_static: bool, is_static_valid: bool) -> bool {
    &&& h.contains_key("method"@)
    &&& h.contains_key("host"@)
    &&& h.contains_key("path"@)
    &&& is_method(h["method"@])
    &&& h.contains_key("protocol"@)
    &&& h["protocol"@] == "http/1.1"@
    &&& (is_static_valid || !is_static)
}

/// The path without one trailing slash.
pub open spec fn without_slash(p: Seq<char>) -> Seq<char> {
    if p.len() > 0 && p.last() == '/' {
        p.drop_last()
    } else {
        p
    }
}

/// The fields with the path's trailing slash taken off.
pub open spec fn slash_removed(h: Fields) -> Fields {
    if h.contains_key("path"@) {
        h.insert("path"@, without_slash(h["path"@]))
    } else {
        h
    }
}

/// What one `key=value` pair adds to the query: nothing, where it has no `=`.
pub open spec fn add_pair(q: Fields, kv: Seq<char>) -> Fields {
    let p = split(kv, "="@);
    if p.len() >= 2 {
        q.insert(p[0], p[1])
    } else {
        q
    }
}

/// What a list of pairs adds to the query, the later pair winning.
pub open spec fn add_pairs(q: Fields, kvs: Seq<Seq<char>>) -> Fields
    decreases kvs.len(),
{
    if kvs.len() == 0 {
        q
    } else {
        add_pair(add_pairs(q, kvs.drop_last()), kvs.last())
    }
}

/// The query that a path carries: the pairs between its first and its
/// second `?`, separated by `&`.
pub open spec fn query_of(path: Seq<char>, q: Fields) -> Fields {
    let parts = split(path, "?"@);
    if parts.len() >= 2 {
        add_pairs(q, split(parts[1], "&"@))
    } else {
        q
    }
}

/// The number that the content-length field gives: 0 where there is none
/// or where it is no number that fits.
pub open spec fn content_len_of(h: Fields) -> usize {
    if h.contains_key("content-length"@) {
        match parsed_usize(h["content-length"@]) {
            Some(n) => n,
            None => 0,
        }
    } else {
        0
    }
}

/// Whether a carriage return and a line feed stand at `k` and `k + 1`.
pub open spec fn crlf_at(buf: Seq<u8>, k: int) -> bool {
    0 <= k && k + 1 < buf.len() && buf[k] == 13 && buf[k + 1] == 10
}

/// How far the header region reaches: the whole buffer, or its first
/// `MAX_HEADERS_SIZE` bytes.
pub open spec fn scan_limit(buf: Seq<u8>) -> int {
    if buf.len() < MAX_HEADERS_SIZE {
        buf.len() as int
    } else {
        MAX_HEADERS_SIZE as int
    }
}

/// Where the line begins that runs up to `k`: behind the last line end
/// before `k`, or at the start of the buffer.
pub open spec fn line_start(buf: Seq<u8>, k: int) -> int
    decreases k,
{
    if k < 2 {
        0
    } else if crlf_at(buf, k - 2) {
        k
    } else {
        line_start(buf, k - 1)
    }
}

/// What a line of bytes adds to the fields: nothing, where the bytes are
/// no text.
pub open spec fn line_fields(line: Seq<u8>, h: Fields) -> Fields {
    if valid_utf8(line) {
        header_line(decode_utf8(line), h)
    } else {
        h
    }
}

/// The fields read from the lines that end before `k`.
pub open spec fn fields_upto(buf: Seq<u8>, k: int) -> Fields
    decreases k,
{
    if k <= 0 {
        Map::empty()
    } else if crlf_at(buf, k - 1) {
        line_fields(buf.subrange(line_start(buf, k - 1), k - 1), fields_upto(buf, k - 1))
    } else {
        fields_upto(buf, k - 1)
    }
}

/// Whether the blank line that ends the headers ends at `k + 1`: two line
/// ends in a row, the second at `k`.
pub open spec fn ends_headers(buf: Seq<u8>, k: int) -> bool {
    crlf_at(buf, k) && crlf_at(buf, k - 2)
}

/// How many positions are scanned from `k` on: up to and including the
/// line end that ends the headers, or else to the end of the header region.
pub open spec fn scan_stop(buf: Seq<u8>, k: int) -> int
    decreases scan_limit(buf) - k,
{
    if k >= scan_limit(buf) {
        scan_limit(buf)
    } else if ends_headers(buf, k) {
        k + 1
    } else {
        scan_stop(buf, k + 1)
    }
}

/// The fields that the header region of a buffer holds.
pub open spec fn parsed_fields(buf: Seq<u8>) -> Fields {
    fields_upto(buf, scan_stop(buf, 0))
}

/// The offset of the last byte that belongs to the headers: the line feed
/// of the blank line, or else the last position scanned.
pub open spec fn headers_end(buf: Seq<u8>) -> int {
    let stop = scan_stop(buf, 0);
    if stop == 0 {
        0
    } else if crlf_at(buf, stop - 1) {
        stop
    } else {
        stop - 1
    }
}

/// Whether a path asks for a static file: it lies under `/static/`, is the
/// index document, or lies under the challenge prefix.
pub open spec fn is_static_path(conf: Conf, path: Seq<char>) -> bool {
    "/static/"@.is_prefix_of(path) || path == conf.index_url@
        || conf.acme_challenge_url@.is_prefix_of(path)
}

/// The file that a static path stands for with one virtual host: below the
/// host's static directory, the host's index document, or below the
/// challenge directory. Nothing where the file would lie outside its
/// directory.
pub open spec fn resolved_in(conf: Conf, srv: ServerConf, path: Seq<char>) -> Option<Seq<char>> {
    if "/static/"@.is_prefix_of(path) {
        let full = joined(srv.static_dir@, removed_all(path, "/static/"@));
        if within_root(srv.static_dir@, full) {
            Some(full)
        } else {
            None
        }
    } else if path == conf.index_url@ {
        Some(srv.index_path@)
    } else if conf.acme_challenge_url@.is_prefix_of(path) {
        let full = joined(conf.acme_challenge_dir@, removed_all(path, conf.acme_challenge_url@));
        if within_root(conf.acme_challenge_dir@, full) {
            Some(full)
        } else {
            None
        }
    } else {
        None
    }
}

/// The file that a static path stands for: with the first virtual host, at
/// or after `from`, that answers to `host` and with which it stands for one.
pub open spec fn resolved_from(conf: Conf, host: Seq<char>, path: Seq<char>, from: int) -> Option<
    Seq<char>,
>
    decreases conf.servers@.len() - from,
{
    if from < 0 || from >= conf.servers@.len() {
        None
    } else if names_host(conf.servers@[from].hostnames@, host) && resolved_in(
        conf,
        conf.servers@[from],
        path,
    ) is Some {
        resolved_in(conf, conf.servers@[from], path)
    } else {
        resolved_from(conf, host, path, from + 1)
    }
}

/// The file that the request's path stands for, where the request has a
/// host and a static path that leads to a file.
pub open spec fn static_file(conf: Conf, h: Fields) -> Option<Seq<char>> {
    if h.contains_key("host"@) && h.contains_key("path"@) && is_static_path(conf, h["path"@]) {
        resolved_from(conf, h["host"@], h["path"@], 0)
    } else {
        None
    }
}

/// The file that a static path stands for with one virtual host.
pub fn resolve_in(conf: &Conf, srv: &ServerConf, path: &Vec<char>) -> (r: Option<String>)
    ensures
        match r {
            Some(p) => resolved_in(*conf, *srv, path@) == Some(p@),
            None => resolved_in(*conf, *srv, path@) is None,
        },
{
    let acme_url = chars_of(conf.acme_challenge_url.as_str());
    let index_url = chars_of(conf.index_url.as_str());
    if begins_with(path, "/static/") {
        let root = chars_of(srv.static_dir.as_str());
        let rel = remove_all(path, &chars_of("/static/"));
        let full = join(&root, &rel);
        if is_within_root(&root, &full) {
            Some(text_of(&full))
        } else {
            None
        }
    } else if same_chars(path, &index_url) {
        Some(srv.index_path.clone())
    } else if starts_with(path, &acme_url) {
        let root = chars_of(conf.acme_challenge_dir.as_str());
        let rel = remove_all(path, &acme_url);
        let full = join(&root, &rel);
        if is_within_root(&root, &full) {
            Some(text_of(&full))
        } else {
            None
        }
    } else {
        None
    }
}

/// Whether two texts are the same.
fn same_chars(a: &Vec<char>, b: &Vec<char>) -> (r: bool)
    ensures
        r == (a@ == b@),
{
    if a.len() != b.len() {
        return false;
    }
    let mut i: usize = 0;
    while i < a.len()
        invariant
            i <= a@.len() == b@.len(),
            forall|j: int| 0 <= j < i ==> a@[j] == b@[j],
        decreases a@.len() - i,
    {
        if a[i] != b[i] {
            return false;
        }
        i = i + 1;
    }
    assert(a@ =~= b@);
    true
}

/// The file that a static path stands for, for a request to `host`.
pub fn resolve(conf: &Conf, host: &String, path: &Vec<char>) -> (r: Option<String>)
    ensures
        match r {
            Some(p) => resolved_from(*conf, host@, path@, 0) == Some(p@),
            None => resolved_from(*conf, host@, path@, 0) is None,
        },
{
    let mut i: usize = 0;
    while i < conf.servers.len()
        invariant
            i <= conf.servers@.len(),
            resolved_from(*conf, host@, path@, 0) == resolved_from(*conf, host@, path@, i as int),
        decreases conf.servers@.len() - i,
    {
        if has_hostname(&conf.servers[i].hostnames, host) {
            match resolve_in(conf, &conf.servers[i], path) {
                Some(p) => {
                    return Some(p);
                },
                None => {},
            }
        }
        i = i + 1;
    }
    None
}

/// A path under `/static/` whose remainder is relative and leads above
/// its start stands for no file, whatever the host and the configuration:
/// such a request is never a valid static request.
pub proof fn lemma_static_traversal_never_valid(conf: Conf, host: Seq<char>, path: Seq<char>, from: int)
    requires
        0 <= from,
        "/static/"@.is_prefix_of(path),
        removed_all(path, "/static/"@).len() == 0 || removed_all(path, "/static/"@)[0] != '/',
        escapes(removed_all(path, "/static/"@)),
    ensures
        resolved_from(conf, host, path, from) is None,
    decreases conf.servers@.len() - from,
{
    if from < conf.servers@.len() {
        lemma_traversal_rejected(conf.servers@[from].static_dir@, removed_all(path, "/static/"@));
        lemma_static_traversal_never_valid(conf, host, path, from + 1);
    }
}

/// A path under the challenge prefix, and neither under `/static/` nor
/// the index document, whose remainder is relative and leads above its
/// start stands for no file.
pub proof fn lemma_challenge_traversal_never_valid(
    conf: Conf,
    host: Seq<char>,
    path: Seq<char>,
    from: int,
)
    requires
        0 <= from,
        !"/static/"@.is_prefix_of(path),
        path != conf.index_url@,
        removed_all(path, conf.acme_challenge_url@).len() == 0 || removed_all(
            path,
            conf.acme_challenge_url@,
        )[0] != '/',
        escapes(removed_all(path, conf.acme_challenge_url@)),
    ensures
        resolved_from(conf, host, path, from) is None,
    decreases conf.servers@.len() - from,
{
    if from < conf.servers@.len() {
        lemma_traversal_rejected(
            conf.acme_challenge_dir@,
            removed_all(path, conf.acme_challenge_url@),
        );
        lemma_challenge_traversal_never_valid(conf, host, path, from + 1);
    }
}

/// The file that a path under `/static/` stands for lies within the static
/// directory of a virtual host that answers to the host.
pub proof fn lemma_static_file_within_root(conf: Conf, host: Seq<char>, path: Seq<char>, from: int)
    requires
        0 <= from,
        "/static/"@.is_prefix_of(path),
        resolved_from(conf, host, path, from) is Some,
    ensures
        exists|i: int|
            from <= i < conf.servers@.len() && names_host(
                (#[trigger] conf.servers@[i]).hostnames@,
                host,
            ) && within_root(conf.servers@[i].static_dir@, resolved_from(conf, host, path, from)->0),
    decreases conf.servers@.len() - from,
{
    if from < conf.servers@.len() {
        if names_host(conf.servers@[from].hostnames@, host) && resolved_in(
            conf,
            conf.servers@[from],
            path,
        ) is Some {
            assert(within_root(
                conf.servers@[from].static_dir@,
                resolved_from(conf, host, path, from)->0,
            ));
        } else {
            lemma_static_file_within_root(conf, host, path, from + 1);
        }
    }
}

/// No more is scanned than the header region holds.
pub proof fn lemma_scan_stop_bounds(buf: Seq<u8>, k: int)
    requires
        0 <= k <= scan_limit(buf),
    ensures
        k <= scan_stop(buf, k) <= scan_limit(buf),
    decreases scan_limit(buf) - k,
{
    if k < scan_limit(buf) && !ends_headers(buf, k) {
        lemma_scan_stop_bounds(buf, k + 1);
    }
}

/// Where no line ends before `k`, no field has been read.
pub proof fn lemma_no_line_no_fields(buf: Seq<u8>, k: int)
    requires
        forall|j: int| 0 <= j < k ==> !crlf_at(buf, j),
    ensures
        fields_upto(buf, k) == Fields::empty(),
    decreases k,
{
    if k > 0 {
        lemma_no_line_no_fields(buf, k - 1);
    }
}

/// A buffer in whose header region no line ends holds no fields, and so
/// no request that is served.
pub proof fn lemma_unterminated_invalid(buf: Seq<u8>, is_static: bool, is_static_valid: bool)
    requires
        forall|k: int| 0 <= k < scan_limit(buf) ==> !crlf_at(buf, k),
    ensures
        parsed_fields(buf) == Fields::empty(),
        !valid_request(parsed_fields(buf), is_static, is_static_valid),
{
    lemma_scan_stop_bounds(buf, 0);
    lemma_no_line_no_fields(buf, scan_stop(buf, 0));
}

/// Whether a method among the fields is a served one and comes with a
/// path and the protocol HTTP/1.1.
pub open spec fn method_in_order(h: Fields) -> bool {
    h.contains_key("method"@) ==> is_method(h["method"@]) && h.contains_key("path"@)
        && h.contains_key("protocol"@) && h["protocol"@] == "http/1.1"@
}

/// A header line leaves the method in order.
pub proof fn lemma_line_keeps_method_in_order(line: Seq<char>, lower: Seq<char>, h: Fields)
    requires
        method_in_order(h),
    ensures
        method_in_order(lowered_line(line, lower, h)),
{
    reveal_strlit("method");
    reveal_strlit("path");
    reveal_strlit("protocol");
    reveal_strlit("host");
    reveal_strlit("content-length");
    reveal_strlit("content-type");
    reveal_strlit("accept-encoding");
    reveal_strlit("session_id");
    assert("method"@ != "path"@ && "method"@ != "protocol"@ && "path"@ != "protocol"@) by {
        assert("method"@.len() == 6 && "path"@.len() == 4 && "protocol"@.len() == 8);
    }
    assert("host"@ != "method"@ && "host"@ != "protocol"@ && "host"@ != "path"@) by {
        assert("host"@[0] == 'h' && "path"@[0] == 'p' && "host"@.len() == 4);
    }
    assert("content-length"@.len() == 14 && "content-type"@.len() == 12 && "accept-encoding"@.len()
        == 15 && "session_id"@.len() == 10);
}

/// What was read up to `k` has its method in order.
pub proof fn lemma_fields_method_in_order(buf: Seq<u8>, k: int)
    ensures
        method_in_order(fields_upto(buf, k)),
    decreases k,
{
    if k > 0 {
        lemma_fields_method_in_order(buf, k - 1);
        if crlf_at(buf, k - 1) {
            let line = buf.subrange(line_start(buf, k - 1), k - 1);
            if valid_utf8(line) {
                lemma_line_keeps_method_in_order(
                    decode_utf8(line),
                    lowercase_of(decode_utf8(line)),
                    fields_upto(buf, k - 1),
                );
            }
        }
    }
}

/// Whatever bytes are read, the request is found valid exactly if method,
/// host and path were read: a method that was read is a served one, and
/// the protocol is the one that is served. This holds of a buffer that
/// begins with bytes that are no text as of any other.
pub proof fn lemma_valid_iff_required_fields(buf: Seq<u8>)
    ensures
        valid_request(parsed_fields(buf), false, false) <==> (parsed_fields(buf).contains_key(
            "method"@,
        ) && parsed_fields(buf).contains_key("host"@) && parsed_fields(buf).contains_key("path"@)),
{
    lemma_fields_method_in_order(buf, scan_stop(buf, 0));
}

/// A line that is no text adds nothing: the fields are those of the other
/// lines, and the request is served exactly if those make it so.
pub proof fn lemma_undecodable_line_skipped(line: Seq<u8>, h: Fields)
    requires
        !valid_utf8(line),
    ensures
        line_fields(line, h) == h,
{
}

/// The same bytes hold the same fields and the same header length,
/// however often they are read.
pub proof fn lemma_parse_repeatable(a: Seq<u8>, b: Seq<u8>)
    requires
        a == b,
    ensures
        parsed_fields(a) == parsed_fields(b),
        headers_end(a) == headers_end(b),
{
}

/// A request as far as it has been read and understood.
#[derive(Debug)]
pub struct RequestParser {
    pub parsed_headers: TextMap<String>,
    pub query: TextMap<String>,
    pub is_static: bool,
    pub is_static_valid: bool,
    pub is_multipart: bool,
    pub headers_len: usize,
    pub body: Vec<u8>,
    pub body_string: String,
    pub route: TextMap<String>,
    pub files: TextMap<RequestFile>,
}

impl RequestParser {
    /// A request of which nothing is known yet.
    pub fn new() -> (hp: Self)
        ensures
            hp.parsed_headers@ == Fields::empty(),
            hp.query@ == Fields::empty(),
            !hp.is_static,
            !hp.is_static_valid,
            !hp.is_multipart,
            hp.headers_len == 0,
            hp.body@ == Seq::<u8>::empty(),
            hp.body_string@ == Seq::<char>::empty(),
            hp.route@ == Fields::empty(),
            hp.files@ == Map::<Seq<char>, (Seq<char>, Seq<u8>)>::empty(),
    {
        Self {
            parsed_headers: TextMap::new(),
            query: TextMap::new(),
            is_static: false,
            is_static_valid: false,
            is_multipart: false,
            headers_len: 0,
            body: Vec::new(),
            body_string: String::new(),
            route: TextMap::new(),
            files: TextMap::new(),
        }
    }

    /// The request for a backend: method, host, path and session id as the
    /// fields give them, empty where a field is missing, with copies of the
    /// query, the body text, the route and the files.
    pub fn get_req(&self) -> (req: Request)
        ensures
            req.method@ == field(self.parsed_headers@, "method"@),
            req.host@ == field(self.parsed_headers@, "host"@),
            req.path@ == field(self.parsed_headers@, "path"@),
            req.session_id@ == field(self.parsed_headers@, "session_id"@),
            req.query@ == self.query@,
            req.body_string@ == self.body_string@,
            req.route@ == self.route@,
            req.files@ == self.files@,
    {
        Request {
            method: self.get_header("method"),
            host: self.get_header("host"),
            path: self.get_header("path"),
            session_id: self.get_header("session_id"),
            query: self.query.duplicate(),
            body_string: self.body_string.clone(),
            route: self.route.duplicate(),
            files: self.files.duplicate(),
        }
    }

    /// The value of the field `name`, or the empty text.
    pub fn get_header(&self, name: &str) -> (v: String)
        ensures
            v@ == field(self.parsed_headers@, name@),
    {
        match self.parsed_headers.get(name) {
            Some(v) => v.clone(),
            None => String::new(),
        }
    }

    /// Whether the request is one that is served.
    pub fn is_valid(&self) -> (b: bool)
        ensures
            b == valid_request(self.parsed_headers@, self.is_static, self.is_static_valid),
    {
        let h = &self.parsed_headers;
        let method_ok = match h.get("method") {
            Some(m) => is_text(m, "get") || is_text(m, "post") || is_text(m, "put") || is_text(
                m,
                "delete",
            ),
            None => false,
        };
        let protocol_ok = match h.get("protocol") {
            Some(p) => is_text(p, "http/1.1"),
            None => false,
        };
        method_ok && protocol_ok && h.contains_key("host") && h.contains_key("path") && (
        self.is_static_valid || !self.is_static)
    }

    /// Whether the client takes brotli: its accept-encoding names `br`.
    pub fn is_accept_brotli(&self) -> (b: bool)
        ensures
            b == (self.parsed_headers@.contains_key("accept-encoding"@) && contains(
                self.parsed_headers@["accept-encoding"@],
                "br"@,
            )),
    {
        match self.parsed_headers.get("accept-encoding") {
            Some(v) => has_text(v, "br"),
            None => false,
        }
    }

    /// Notes whether the body is multipart: the content type says
    /// `multipart/form-data`.
    pub fn check_is_multipart(&mut self)
        ensures
            final(self).is_multipart == (old(self).parsed_headers@.contains_key("content-type"@)
                && contains(old(self).parsed_headers@["content-type"@], "multipart/form-data"@)),
            *final(self) == (RequestParser { is_multipart: final(self).is_multipart, ..*old(self) }),
    {
        self.is_multipart = match self.parsed_headers.get("content-type") {
            Some(v) => has_text(v, "multipart/form-data"),
            None => false,
        };
    }

    /// Tells whether the request asks for a static file, and if so, for
    /// which: `is_static` says the first, `is_static_valid` whether a file
    /// was found for it, which is then the field `static_path`. The path of
    /// any other request loses its trailing slash.
    pub fn check_is_static(&mut self, conf: &Conf)
        ensures
            final(self).is_static == (old(self).parsed_headers@.contains_key("host"@) && old(
                self,
            ).parsed_headers@.contains_key("path"@) && is_static_path(
                *conf,
                old(self).parsed_headers@["path"@],
            )),
            final(self).is_static_valid == (static_file(*conf, old(self).parsed_headers@) is Some),
            final(self).parsed_headers@ == (match static_file(*conf, old(self).parsed_headers@) {
                Some(p) => old(self).parsed_headers@.insert("static_path"@, p),
                None => slash_removed(old(self).parsed_headers@),
            }),
            *final(self) == (RequestParser {
                parsed_headers: final(self).parsed_headers,
                is_static: final(self).is_static,
                is_static_valid: final(self).is_static_valid,
                ..*old(self)
            }),
    {
        let host: Option<String> = match self.parsed_headers.get("host") {
            Some(h) => Some(h.clone()),
            None => None,
        };
        let path: Option<Vec<char>> = match self.parsed_headers.get("path") {
            Some(p) => Some(chars_of(p.as_str())),
            None => None,
        };
        let found: Option<String> = match (host, path) {
            (Some(h), Some(p)) => {
                if Self::is_acme_path(&p, conf) || begins_with(&p, "/static/") || same_chars(
                    &p,
                    &chars_of(conf.index_url.as_str()),
                ) {
                    self.is_static = true;
                    resolve(conf, &h, &p)
                } else {
                    self.is_static = false;
                    None
                }
            },
            _ => {
                self.is_static = false;
                None
            },
        };
        match found {
            Some(p) => {
                self.is_static_valid = true;
                self.parsed_headers.insert(String::from_str("static_path"), p);
            },
            None => {
                self.is_static_valid = false;
                self.remove_trailing_slash();
            },
        }
    }

    /// Whether a path lies under the challenge prefix.
    pub fn is_acme(path: &String, conf: &Conf) -> (b: bool)
        ensures
            b == conf.acme_challenge_url@.is_prefix_of(path@),
    {
        Self::is_acme_path(&chars_of(path.as_str()), conf)
    }

    /// Whether a path lies under the challenge prefix.
    fn is_acme_path(path: &Vec<char>, conf: &Conf) -> (b: bool)
        ensures
            b == conf.acme_challenge_url@.is_prefix_of(path@),
    {
        starts_with(path, &chars_of(conf.acme_challenge_url.as_str()))
    }

    /// The method, or the empty text where none was read.
    pub fn method(&self) -> (m: String)
        ensures
            m@ == field(self.parsed_headers@, "method"@),
    {
        self.get_header("method")
    }

    /// The length that the client announced for the body.
    pub fn content_len(&self) -> (n: usize)
        ensures
            n == content_len_of(self.parsed_headers@),
    {
        match self.parsed_headers.get("content-length") {
            Some(v) => {
                let chars = chars_of(v.as_str());
                match parse_usize(&chars) {
                    Some(n) => n,
                    None => 0,
                }
            },
            None => 0,
        }
    }

    /// Takes one trailing slash off the path.
    pub fn remove_trailing_slash(&mut self)
        ensures
            final(self).parsed_headers@ == slash_removed(old(self).parsed_headers@),
            *final(self) == (RequestParser {
                parsed_headers: final(self).parsed_headers,
                ..*old(self)
            }),
    {
        let stripped: Option<String> = match self.parsed_headers.get("path") {
            Some(p) => {
                let chars = chars_of(p.as_str());
                let n: usize = chars.len();
                if n > 0 && chars[n - 1] == '/' {
                    let s = string_of(&chars, 0, n - 1);
                    assert(chars@.subrange(0, n - 1) =~= chars@.drop_last());
                    Some(s)
                } else {
                    None
                }
            },
            None => None,
        };
        match stripped {
            Some(s) => {
                self.parsed_headers.insert(String::from_str("path"), s);
            },
            None => {
                assert(slash_removed(self.parsed_headers@) =~= self.parsed_headers@);
            },
        }
    }

    /// Reads the query out of the path.
    pub fn parse_query(&mut self)
        ensures
            final(self).query@ == (if old(self).parsed_headers@.contains_key("path"@) {
                query_of(old(self).parsed_headers@["path"@], old(self).query@)
            } else {
                old(self).query@
            }),
            *final(self) == (RequestParser { query: final(self).query, ..*old(self) }),
    {
        proof {
            reveal_strlit("?");
            reveal_strlit("&");
            reveal_strlit("=");
        }
        let path: Vec<char> = match self.parsed_headers.get("path") {
            Some(p) => chars_of(p.as_str()),
            None => {
                return ;
            },
        };
        let parts = split_text(&path, "?");
        if parts.len() < 2 {
            return ;
        }
        assert(views(parts@)[1] == parts@[1]@);
        let kvs = split_text(&parts[1], "&");
        let ghost q0 = self.query@;
        let mut i: usize = 0;
        while i < kvs.len()
            invariant
                i <= kvs@.len(),
                "="@.len() > 0,
                self.query@ == add_pairs(q0, views(kvs@).subrange(0, i as int)),
                *self == (RequestParser { query: self.query, ..*old(self) }),
            decreases kvs@.len() - i,
        {
            let ghost upto = views(kvs@).subrange(0, i + 1);
            assert(upto.drop_last() =~= views(kvs@).subrange(0, i as int));
            assert(upto.last() == kvs@[i as int]@);
            let kv = split_text(&kvs[i], "=");
            if kv.len() >= 2 {
                assert(views(kv@)[0] == kv@[0]@);
                assert(views(kv@)[1] == kv@[1]@);
                self.query.insert(text_of(&kv[0]), text_of(&kv[1]));
            }
            i = i + 1;
        }
        assert(views(kvs@).subrange(0, i as int) =~= views(kvs@));
    }
}

/// Whether the text `pat` occurs in `s`.
fn has_text(s: &String, pat: &str) -> (b: bool)
    ensures
        b == contains(s@, pat@),
{
    let chars = chars_of(s.as_str());
    let p = chars_of(pat);
    find(&chars, &p, 0).is_some()
}

/// Reads the header region of `buffer`: line by line up to the blank line
/// that ends the headers, or to the end of the region. A line that is no
/// text is passed over.
pub fn parse_headers(buffer: &Vec<u8>) -> (hp: RequestParser)
    ensures
        hp.parsed_headers@ == parsed_fields(buffer@),
        hp.headers_len == headers_end(buffer@),
        hp.query@ == Fields::empty(),
        !hp.is_static,
        !hp.is_static_valid,
        !hp.is_multipart,
        hp.body@ == Seq::<u8>::empty(),
        hp.body_string@ == Seq::<char>::empty(),
        hp.route@ == Fields::empty(),
        hp.files@ == Map::<Seq<char>, (Seq<char>, Seq<u8>)>::empty(),
{
    let mut hp = RequestParser::new();
    let n: usize = buffer.len();
    let limit: usize = if n < MAX_HEADERS_SIZE { n } else { MAX_HEADERS_SIZE };
    let mut start: usize = 0;
    let mut k: usize = 0;
    while k < limit
        invariant
            n == buffer@.len(),
            limit == scan_limit(buffer@),
            k <= limit,
            start <= k,
            start == line_start(buffer@, k as int),
            k >= 1 ==> !crlf_at(buffer@, k - 1),
            scan_stop(buffer@, 0) == scan_stop(buffer@, k as int),
            hp.parsed_headers@ == fields_upto(buffer@, k as int),
            hp.headers_len == (if k == 0 { 0 } else { k - 1 }),
            hp.query@ == Fields::empty(),
            !hp.is_static,
            !hp.is_static_valid,
            !hp.is_multipart,
            hp.body@ == Seq::<u8>::empty(),
            hp.body_string@ == Seq::<char>::empty(),
            hp.route@ == Fields::empty(),
            hp.files@ == Map::<Seq<char>, (Seq<char>, Seq<u8>)>::empty(),
        decreases limit - k,
    {
        if buffer[k] == 13 && k + 1 < n && buffer[k + 1] == 10 {
            assert(crlf_at(buffer@, k as int));
            match decode_text(slice_subrange(buffer.as_slice(), start, k)) {
                Some(line) => {
                    parse_header_line(line.as_str(), &mut hp.parsed_headers);
                },
                None => {},
            }
            assert(hp.parsed_headers@ == fields_upto(buffer@, k + 1));
            assert(!crlf_at(buffer@, k + 1));
            assert(fields_upto(buffer@, k + 2) == fields_upto(buffer@, k + 1));
            hp.headers_len = k + 1;
            if k >= 2 && buffer[k - 2] == 13 && buffer[k - 1] == 10 {
                assert(ends_headers(buffer@, k as int));
                return hp;
            }
            assert(!ends_headers(buffer@, k as int));
            if k + 1 >= limit {
                assert(scan_stop(buffer@, k + 1) == limit);
                return hp;
            }
            assert(!ends_headers(buffer@, k + 1));
            assert(scan_stop(buffer@, k as int) == scan_stop(buffer@, k + 1));
            assert(scan_stop(buffer@, k + 1) == scan_stop(buffer@, k + 2));
            start = k + 2;
            k = k + 2;
            hp.headers_len = k - 1;
        } else {
            assert(!crlf_at(buffer@, k as int));
            hp.headers_len = k;
            k = k + 1;
        }
    }
    hp
}

} // verus!
