//! The decisions of the handler of a plain HTTP connection: everything is
//! sent on to HTTPS, but for the challenge files of certificate issuance.

use vstd::prelude::*;
use vstd::slice::slice_to_vec;
use vstd::string::*;
use vstd::utf8::encode_utf8;
use crate::conf::Conf;
use crate::headers::{
    field, is_static_path, parse_headers, parsed_fields, static_file, valid_request, Fields,
    RequestParser,
};
use crate::http::response_text;
use crate::static_handler::{respond_static, static_response};
use crate::stream_handler::{resolved_fields, response_bytes};

verus! {

/// What to do with a request that came over plain HTTP.
#[derive(Debug)]
pub enum HttpStep {
    /// The request is not served: close without an answer.
    Close,
    /// Send the challenge file at this path.
    ServeStatic(String),
    /// Send this answer, which leads the client to HTTPS.
    Redirect(Vec<u8>),
}

/// The answer that leads the client to the same host and path on HTTPS.
pub open spec fn redirect_text(host: Seq<char>, path: Seq<char>) -> Seq<char> {
    "HTTP/1.1 301 Moved Permanently\r\nLocation: https://"@ + host + ":443"@ + path
        + "\r\nContent-length: 0\r\n\r\n"@
}

/// Whether a request over plain HTTP asks for a challenge file that was
/// found for it.
pub open spec fn serves_challenge(conf: Conf, h: Fields, is_static: bool, is_static_valid: bool) -> bool {
    is_static && is_static_valid && conf.acme_challenge_url@.is_prefix_of(h["path"@])
}

/// The answer that leads the client to HTTPS.
pub fn redirect(host: &String, path: &String) -> (r: Vec<u8>)
    ensures
        r@ == encode_utf8(redirect_text(host@, path@)),
{
    let mut s = String::from_str("HTTP/1.1 301 Moved Permanently\r\nLocation: https://");
    s.append(host.as_str());
    s.append(":443");
    s.append(path.as_str());
    s.append("\r\nContent-length: 0\r\n\r\n");
    slice_to_vec(s.as_str().as_bytes())
}

/// The state of the handler of one plain HTTP connection: all that was
/// read.
#[derive(Debug)]
pub struct HttpStreamHandler {
    pub buffer: Vec<u8>,
}

impl HttpStreamHandler {
    /// A handler that has read nothing yet.
    pub fn new() -> (h: Self)
        ensures
            h.buffer@ == Seq::<u8>::empty(),
    {
        Self { buffer: Vec::new() }
    }

    /// Takes what one read brought into the buffer, and says whether the
    /// reading is done: it is after one read of the headers, and when a
    /// read brings nothing.
    pub fn read(&mut self, chunk: &[u8], is_oneshot: bool) -> (done: bool)
        ensures
            final(self).buffer@ == old(self).buffer@ + chunk@,
            done == (is_oneshot || chunk@.len() == 0),
    {
        self.buffer.extend_from_slice(chunk);
        is_oneshot || chunk.len() == 0
    }

    /// Reads the request out of the buffer and tells what to do with it.
    pub fn process(&self, conf: &Conf) -> (step: HttpStep)
        ensures
            ({
                let h0 = parsed_fields(self.buffer@);
                let h = resolved_fields(*conf, h0);
                let is_static = h0.contains_key("host"@) && h0.contains_key("path"@)
                    && is_static_path(*conf, h0["path"@]);
                let is_static_valid = static_file(*conf, h0) is Some;
                if !valid_request(h, is_static, is_static_valid) {
                    step is Close
                } else if serves_challenge(*conf, h, is_static, is_static_valid) {
                    step matches HttpStep::ServeStatic(p) && p@ == field(h, "static_path"@)
                } else {
                    step matches HttpStep::Redirect(r) && r@ == encode_utf8(
                        redirect_text(h["host"@], h["path"@]),
                    )
                }
            }),
    {
        let mut hp: RequestParser = parse_headers(&self.buffer);
        hp.check_is_static(conf);
        if !hp.is_valid() {
            return HttpStep::Close;
        }
        let host = hp.get_header("host");
        let path = hp.get_header("path");
        if hp.is_static && hp.is_static_valid && RequestParser::is_acme(&path, conf) {
            return HttpStep::ServeStatic(hp.get_header("static_path"));
        }
        HttpStep::Redirect(redirect(&host, &path))
    }

    /// The answer to a request for a challenge file, given what was read
    /// for it: the file as `text/html`, or 404 where it could not be had.
    pub fn return_static(content: Option<Vec<u8>>) -> (r: Vec<u8>)
        ensures
            r@ == (match content {
                Some(c) => static_response(c@, false, Some("text/html"@)),
                None => encode_utf8(response_text(404, "Not found"@, "text/html"@)),
            }),
    {
        match content {
            Some(c) => respond_static(&c, false, &Some(String::from_str("text/html"))),
            None => Self::return_404(),
        }
    }

    /// The answer where a file is not found.
    pub fn return_404() -> (r: Vec<u8>)
        ensures
            r@ == encode_utf8(response_text(404, "Not found"@, "text/html"@)),
    {
        response_bytes(404, "Not found")
    }
}

} // verus!
