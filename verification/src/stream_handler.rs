//! The decisions of the handler of an HTTPS connection. The handler reads,
//! asks here what to do with what it has read, and does it.

use vstd::prelude::*;
use vstd::slice::{slice_subrange, slice_to_vec};
use vstd::string::*;
use vstd::utf8::{decode_utf8, encode_utf8, valid_utf8};
use crate::conf::Conf;
use crate::headers::{
    content_len_of, headers_end, is_static_path, parse_headers, parsed_fields, query_of,
    slash_removed, static_file, valid_request, Fields, RequestParser,
};
use crate::http::{response_text, text_resp};
use crate::multipart::{decoded_request, parse_multipart, Files};
use crate::request::{find_server, names_host, server_index, socket_path_of};
use crate::static_handler::{get_static_file, static_response, text_view};
use crate::compress::compressable;
use crate::text::{contains, decode_text, is_text};

verus! {

/// The bytes in one megabyte of the configured request size.
pub const MEGABYTE: usize = 1048576;

/// What to do after a read.
#[derive(Clone, Copy, Debug, PartialEq, Eq, Structural)]
pub enum ReadStep {
    /// Read again.
    Continue,
    /// What was to be read is there.
    Done,
    /// The request is too large: answer 413 and close.
    TooLarge,
    /// The stream failed: close without an answer.
    Abort,
}

/// What to do with a request once its headers are read.
#[derive(Clone, Copy, Debug, PartialEq, Eq, Structural)]
pub enum Step {
    /// The request is not served: close without an answer.
    Close,
    /// Send the static file.
    ServeStatic,
    /// Read the body, then hand the request to the backend.
    ReadBody,
    /// Hand the request to the backend.
    Dispatch,
}

/// The most bytes that a request may have, for a limit given in
/// megabytes: a request of that many bytes or more is refused.
pub open spec fn size_limit(max_request_size_mb: usize) -> int {
    if max_request_size_mb * MEGABYTE > usize::MAX {
        usize::MAX as int
    } else {
        max_request_size_mb * MEGABYTE
    }
}

/// What to do after a read that brought `got` bytes and left `len` bytes
/// in the buffer.
pub open spec fn read_step(len: int, got: int, is_oneshot: bool, required: int, limit: int) -> ReadStep {
    if len >= limit {
        ReadStep::TooLarge
    } else if is_oneshot || got == 0 || len == required {
        ReadStep::Done
    } else {
        ReadStep::Continue
    }
}

/// What to do after a read that failed, with `len` bytes in the buffer.
pub open spec fn failed_read_step(len: int, would_block: bool, required: int, limit: int) -> ReadStep {
    if len >= limit {
        ReadStep::TooLarge
    } else if len == required {
        ReadStep::Done
    } else if would_block {
        ReadStep::Continue
    } else {
        ReadStep::Abort
    }
}

/// What to do with a request, given what its headers say.
pub open spec fn step_of(h: Fields, is_static: bool, is_static_valid: bool) -> Step {
    if !valid_request(h, is_static, is_static_valid) {
        Step::Close
    } else if is_static {
        Step::ServeStatic
    } else if h["method"@] == "post"@ || h["method"@] == "put"@ {
        Step::ReadBody
    } else {
        Step::Dispatch
    }
}

/// A request without the fields that make it valid is closed without an
/// answer, whatever else it holds.
pub proof fn lemma_no_fields_closes(conf: Conf, is_static: bool, is_static_valid: bool)
    ensures
        resolved_fields(conf, Fields::empty()) == Fields::empty(),
        step_of(resolved_fields(conf, Fields::empty()), is_static, is_static_valid) == Step::Close,
{
    assert(static_file(conf, Fields::empty()) is None);
    assert(slash_removed(Fields::empty()) == Fields::empty());
}

/// The fields of a request after its static path has been looked up.
pub open spec fn resolved_fields(conf: Conf, h: Fields) -> Fields {
    match static_file(conf, h) {
        Some(p) => h.insert("static_path"@, p),
        None => slash_removed(h),
    }
}

/// Whether the fields name a multipart body.
pub open spec fn names_multipart(h: Fields) -> bool {
    h.contains_key("content-type"@) && contains(h["content-type"@], "multipart/form-data"@)
}

/// The query of the request with these fields.
pub open spec fn query_in(h: Fields) -> Fields {
    if h.contains_key("path"@) {
        query_of(h["path"@], Fields::empty())
    } else {
        Fields::empty()
    }
}

/// How many bytes of the body are still to come, with `len` bytes read:
/// the body begins behind the headers and has the announced length.
pub open spec fn bytes_left(headers_len: usize, content_len: usize, len: int) -> int {
    let end = headers_len + 1 + content_len;
    if len >= end {
        0
    } else if end - len > usize::MAX {
        usize::MAX as int
    } else {
        end - len
    }
}

/// The body in a buffer: what follows the headers.
pub open spec fn body_in(buf: Seq<u8>, headers_len: usize) -> Seq<u8> {
    if headers_len + 1 <= buf.len() {
        buf.subrange(headers_len + 1, buf.len() as int)
    } else {
        Seq::empty()
    }
}

/// The eight bytes of `n`, the most significant first.
pub open spec fn be64(n: u64) -> Seq<u8> {
    seq![
        (n >> 56) as u8,
        (n >> 48) as u8,
        (n >> 40) as u8,
        (n >> 32) as u8,
        (n >> 24) as u8,
        (n >> 16) as u8,
        (n >> 8) as u8,
        n as u8,
    ]
}

/// The frame that carries a payload to a backend: the payload's length in
/// eight bytes, the most significant first, and the payload.
pub open spec fn framed(payload: Seq<u8>) -> Seq<u8> {
    be64(payload.len() as u64) + payload
}

/// The frame that carries `payload` to a backend.
pub fn frame(payload: &Vec<u8>) -> (out: Vec<u8>)
    ensures
        out@ == framed(payload@),
{
    let n: u64 = payload.len() as u64;
    let mut out: Vec<u8> = Vec::new();
    out.push((n >> 56) as u8);
    out.push((n >> 48) as u8);
    out.push((n >> 40) as u8);
    out.push((n >> 32) as u8);
    out.push((n >> 24) as u8);
    out.push((n >> 16) as u8);
    out.push((n >> 8) as u8);
    out.push(n as u8);
    assert(out@ =~= be64(n));
    out.extend_from_slice(payload.as_slice());
    out
}

/// Adds what a backend sent to its reply. The reply is complete when a
/// read brings nothing.
pub fn accept_reply(reply: &mut Vec<u8>, chunk: &[u8]) -> (done: bool)
    ensures
        final(reply)@ == old(reply)@ + chunk@,
        done == (chunk@.len() == 0),
{
    reply.extend_from_slice(chunk);
    chunk.len() == 0
}

/// The bytes of a text response.
pub fn response_bytes(code: u16, text: &str) -> (r: Vec<u8>)
    ensures
        r@ == encode_utf8(response_text(code, text@, "text/html"@)),
{
    let resp = text_resp(code, String::from_str(text));
    let s = resp.get_resp();
    slice_to_vec(s.as_str().as_bytes())
}

/// What the handler does next.
#[derive(Debug)]
pub enum Action {
    /// Read again from the client.
    Read,
    /// Go on with the request.
    Proceed,
    /// Write these bytes to the client and close. Nothing else is done for
    /// the request.
    Answer(Vec<u8>),
    /// Connect to the backend at this socket, send it this frame and read
    /// its reply.
    Connect(String, Vec<u8>),
    /// Close without writing anything.
    Close,
}

/// What an action is, in plain values.
pub enum ActionView {
    Read,
    Proceed,
    Answer(Seq<u8>),
    Connect(Seq<char>, Seq<u8>),
    Close,
}

impl View for Action {
    type V = ActionView;

    open spec fn view(&self) -> ActionView {
        match self {
            Action::Read => ActionView::Read,
            Action::Proceed => ActionView::Proceed,
            Action::Answer(bytes) => ActionView::Answer(bytes@),
            Action::Connect(socket, frame) => ActionView::Connect(socket@, frame@),
            Action::Close => ActionView::Close,
        }
    }
}

/// The answer to a request that is too large.
pub open spec fn too_large_answer() -> Seq<u8> {
    encode_utf8(response_text(413, "Request entity too large."@, "text/html"@))
}

/// What follows a read: more reading, the request, the answer that it is
/// too large and nothing more, or nothing at all.
pub open spec fn read_action(step: ReadStep) -> ActionView {
    match step {
        ReadStep::Continue => ActionView::Read,
        ReadStep::Done => ActionView::Proceed,
        ReadStep::TooLarge => ActionView::Answer(too_large_answer()),
        ReadStep::Abort => ActionView::Close,
    }
}

/// Whether the body in the buffer can be handed on: it is multipart, or
/// it is text.
pub open spec fn body_usable(buf: Seq<u8>, hp: RequestParser) -> bool {
    hp.is_multipart || valid_utf8(body_in(buf, hp.headers_len))
}

/// Whether `after` is the request `before` with the body taken out of the
/// buffer: the body is what follows the headers; a multipart body is
/// decoded into body text and files; any other body that is text becomes
/// the body text; nothing else changes.
pub open spec fn took_body(buf: Seq<u8>, before: RequestParser, after: RequestParser) -> bool {
    &&& after.body@ == body_in(buf, before.headers_len)
    &&& before.is_multipart ==> after.body_string@ == decoded_request(
        before.parsed_headers@,
        after.body@,
        before.files@,
    ).0 && after.files@ == decoded_request(before.parsed_headers@, after.body@, before.files@).1
    &&& !before.is_multipart ==> after.files@ == before.files@ && after.body_string@ == (
    if valid_utf8(after.body@) {
        decode_utf8(after.body@)
    } else {
        before.body_string@
    })
    &&& after == (RequestParser {
        body: after.body,
        body_string: after.body_string,
        files: after.files,
        ..before
    })
}

/// What follows the reading of a body: after a read that completed it,
/// the request goes on if the body can be handed on and is closed if not;
/// after any other read, what follows that read.
pub open spec fn body_action(step: ReadStep, buf: Seq<u8>, hp: RequestParser) -> ActionView {
    if step == ReadStep::Done {
        if body_usable(buf, hp) {
            ActionView::Proceed
        } else {
            ActionView::Close
        }
    } else {
        read_action(step)
    }
}

/// What the exchange with the backend starts with: the connection to the
/// socket of the virtual host that answers to `host`, or, where there is
/// none, nothing: the connection to the client is closed.
pub open spec fn dispatch_action(conf: Conf, host: Seq<char>, payload: Seq<u8>) -> ActionView {
    match socket_path_of(conf, host) {
        Some(socket) => ActionView::Connect(socket, framed(payload)),
        None => ActionView::Close,
    }
}

/// A read that finds the buffer below the limit leaves it below the limit
/// and the bytes it brought, and the request is refused exactly if the
/// limit is reached; what follows then is the answer that the request is
/// too large, and nothing else.
pub proof fn lemma_refused_size(
    len_before: int,
    got: int,
    is_oneshot: bool,
    required: int,
    limit: int,
)
    requires
        0 <= len_before < limit,
        0 <= got,
    ensures
        len_before + got < limit + got,
        read_step(len_before + got, got, is_oneshot, required, limit) == ReadStep::TooLarge
            <==> len_before + got >= limit,
        read_action(ReadStep::TooLarge) == ActionView::Answer(too_large_answer()),
{
}

/// A request that is too large is answered and not handed on: whatever
/// the request, the body is not taken and no backend is called.
pub proof fn lemma_too_large_ends(buf: Seq<u8>, hp: RequestParser)
    ensures
        body_action(ReadStep::TooLarge, buf, hp) == ActionView::Answer(too_large_answer()),
        !(body_action(ReadStep::TooLarge, buf, hp) is Proceed),
        !(body_action(ReadStep::TooLarge, buf, hp) is Connect),
{
}

/// A request to a host that no virtual host answers to reaches no backend
/// and gets no answer.
pub proof fn lemma_unknown_host_closes(conf: Conf, host: Seq<char>, payload: Seq<u8>)
    requires
        forall|i: int|
            0 <= i < conf.servers@.len() ==> !names_host(
                (#[trigger] conf.servers@[i]).hostnames@,
                host,
            ),
    ensures
        dispatch_action(conf, host, payload) == ActionView::Close,
{
    lemma_no_server(conf, host, 0);
}

/// Where no virtual host at or after `from` answers to the host, none is
/// found.
pub proof fn lemma_no_server(conf: Conf, host: Seq<char>, from: int)
    requires
        0 <= from,
        forall|i: int|
            from <= i < conf.servers@.len() ==> !names_host(
                (#[trigger] conf.servers@[i]).hostnames@,
                host,
            ),
    ensures
        server_index(conf, host, from) == conf.servers@.len(),
    decreases conf.servers@.len() - from,
{
    if from < conf.servers@.len() {
        lemma_no_server(conf, host, from + 1);
    }
}

/// The state of the handler of one HTTPS connection: all that was read.
#[derive(Debug)]
pub struct StreamHandler {
    pub buffer: Vec<u8>,
}

impl StreamHandler {
    /// A handler that has read nothing yet.
    pub fn new() -> (h: Self)
        ensures
            h.buffer@ == Seq::<u8>::empty(),
    {
        Self { buffer: Vec::new() }
    }

    /// The limit on the size of a request, in bytes.
    pub fn max_request_size(conf: &Conf) -> (n: usize)
        ensures
            n == size_limit(conf.max_request_size_mb),
    {
        if conf.max_request_size_mb > usize::MAX / MEGABYTE {
            assert(conf.max_request_size_mb * MEGABYTE > usize::MAX) by (nonlinear_arith)
                requires
                    conf.max_request_size_mb > usize::MAX / MEGABYTE,
            ;
            usize::MAX
        } else {
            assert(conf.max_request_size_mb * MEGABYTE <= usize::MAX) by (nonlinear_arith)
                requires
                    conf.max_request_size_mb <= usize::MAX / MEGABYTE,
            ;
            conf.max_request_size_mb * MEGABYTE
        }
    }

    /// Takes what one read brought into the buffer, and tells what to do
    /// next: `required_buffer_len` is the length at which the body is
    /// complete, and a read of the headers is `is_oneshot`.
    pub fn read(
        &mut self,
        chunk: &[u8],
        is_oneshot: bool,
        required_buffer_len: usize,
        conf: &Conf,
    ) -> (step: ReadStep)
        ensures
            final(self).buffer@ == old(self).buffer@ + chunk@,
            step == read_step(
                final(self).buffer@.len() as int,
                chunk@.len() as int,
                is_oneshot,
                required_buffer_len as int,
                size_limit(conf.max_request_size_mb),
            ),
    {
        self.buffer.extend_from_slice(chunk);
        if self.buffer.len() >= Self::max_request_size(conf) {
            ReadStep::TooLarge
        } else if is_oneshot || chunk.len() == 0 || self.buffer.len() == required_buffer_len {
            ReadStep::Done
        } else {
            ReadStep::Continue
        }
    }

    /// Tells what to do after a read that failed: go on where the stream
    /// only had nothing ready, give up otherwise.
    pub fn read_failed(&self, would_block: bool, required_buffer_len: usize, conf: &Conf) -> (step:
        ReadStep)
        ensures
            step == failed_read_step(
                self.buffer@.len() as int,
                would_block,
                required_buffer_len as int,
                size_limit(conf.max_request_size_mb),
            ),
    {
        if self.buffer.len() >= Self::max_request_size(conf) {
            ReadStep::TooLarge
        } else if self.buffer.len() == required_buffer_len {
            ReadStep::Done
        } else if would_block {
            ReadStep::Continue
        } else {
            ReadStep::Abort
        }
    }

    /// Reads the request out of the buffer and tells what to do with it.
    pub fn process(&self, conf: &Conf) -> (r: (RequestParser, Step))
        ensures
            r.0.parsed_headers@ == resolved_fields(*conf, parsed_fields(self.buffer@)),
            r.0.is_static == (parsed_fields(self.buffer@).contains_key("host"@) && parsed_fields(
                self.buffer@,
            ).contains_key("path"@) && is_static_path(*conf, parsed_fields(self.buffer@)["path"@])),
            r.0.is_static_valid == (static_file(*conf, parsed_fields(self.buffer@)) is Some),
            r.0.is_multipart == names_multipart(r.0.parsed_headers@),
            r.0.query@ == query_in(r.0.parsed_headers@),
            r.0.headers_len == headers_end(self.buffer@),
            r.0.body@ == Seq::<u8>::empty(),
            r.0.body_string@ == Seq::<char>::empty(),
            r.0.route@ == Fields::empty(),
            r.0.files@ == Files::empty(),
            r.1 == step_of(r.0.parsed_headers@, r.0.is_static, r.0.is_static_valid),
    {
        let mut hp = parse_headers(&self.buffer);
        hp.check_is_static(conf);
        hp.check_is_multipart();
        hp.parse_query();
        let step = if !hp.is_valid() {
            Step::Close
        } else if hp.is_static {
            Step::ServeStatic
        } else {
            let method = hp.method();
            if is_text(&method, "post") || is_text(&method, "put") {
                Step::ReadBody
            } else {
                Step::Dispatch
            }
        };
        (hp, step)
    }

    /// How many bytes of the body are still to be read.
    pub fn body_bytes_left(&self, hp: &RequestParser) -> (n: usize)
        ensures
            n == bytes_left(hp.headers_len, content_len_of(hp.parsed_headers@), self.buffer@.len() as int),
    {
        let len: u128 = self.buffer.len() as u128;
        let end: u128 = hp.headers_len as u128 + 1 + hp.content_len() as u128;
        if len >= end {
            0
        } else if end - len > usize::MAX as u128 {
            usize::MAX
        } else {
            (end - len) as usize
        }
    }

    /// Takes the body out of the buffer into the request: what follows
    /// the headers. A multipart body is decoded; any other becomes the
    /// body text, if it is text. Says whether it was: where it was not, the
    /// body text stays empty, and the request is not to be handed on.
    pub fn read_post_body(&self, hp: &mut RequestParser) -> (ok: bool)
        ensures
            took_body(self.buffer@, *old(hp), *final(hp)),
            ok == body_usable(self.buffer@, *old(hp)),
    {
        let len: usize = self.buffer.len();
        if hp.headers_len < len {
            hp.body = slice_to_vec(slice_subrange(self.buffer.as_slice(), hp.headers_len + 1, len));
        } else {
            hp.body = Vec::new();
        }
        if hp.is_multipart {
            parse_multipart(hp);
            true
        } else {
            match decode_text(hp.body.as_slice()) {
                Some(text) => {
                    hp.body_string = text;
                    true
                },
                None => false,
            }
        }
    }

    /// What follows a read of the headers.
    pub fn after_read(step: ReadStep) -> (a: Action)
        ensures
            a@ == read_action(step),
    {
        match step {
            ReadStep::Continue => Action::Read,
            ReadStep::Done => Action::Proceed,
            ReadStep::TooLarge => Action::Answer(Self::return_413_entity_too_large()),
            ReadStep::Abort => Action::Close,
        }
    }

    /// What follows a read of the body. Only a read that completed the
    /// body takes the body into the request; after any other the request
    /// is left as it is.
    pub fn after_body(&self, step: ReadStep, hp: &mut RequestParser) -> (a: Action)
        ensures
            a@ == body_action(step, self.buffer@, *old(hp)),
            step == ReadStep::Done ==> took_body(self.buffer@, *old(hp), *final(hp)),
            step != ReadStep::Done ==> *final(hp) == *old(hp),
    {
        match step {
            ReadStep::Done => {
                if self.read_post_body(hp) {
                    Action::Proceed
                } else {
                    Action::Close
                }
            },
            _ => Self::after_read(step),
        }
    }

    /// What the exchange with the backend starts with, given the
    /// request's host and the request as it was serialized.
    pub fn dispatch(conf: &Conf, host: &String, payload: &Vec<u8>) -> (a: Action)
        ensures
            a@ == dispatch_action(*conf, host@, payload@),
    {
        match Self::get_resp(conf, host, payload) {
            Some(call) => Action::Connect(call.0, call.1),
            None => Action::Close,
        }
    }

    /// What follows the exchange with the backend: its reply goes to the
    /// client as it came; where there is none, nothing does.
    pub fn relay(reply: Option<Vec<u8>>) -> (a: Action)
        ensures
            a@ == (match reply {
                Some(bytes) => ActionView::Answer(bytes@),
                None => ActionView::Close,
            }),
    {
        match reply {
            Some(bytes) => Action::Answer(bytes),
            None => Action::Close,
        }
    }

    /// The socket of the backend that serves `host`.
    pub fn app_socket_path(conf: &Conf, host: &String) -> (r: Option<String>)
        ensures
            match r {
                Some(p) => socket_path_of(*conf, host@) == Some(p@),
                None => socket_path_of(*conf, host@) is None,
            },
    {
        match find_server(conf, host, 0) {
            Some(i) => Some(conf.servers[i].socket_path.clone()),
            None => None,
        }
    }

    /// What the exchange with the backend takes: the socket to connect to
    /// and the frame to send, given the request's host and the request as
    /// it was serialized. Nothing where no virtual host answers to the
    /// host: then no connection is made and nothing is sent to the client.
    pub fn get_resp(conf: &Conf, host: &String, payload: &Vec<u8>) -> (r: Option<(String, Vec<u8>)>)
        ensures
            match r {
                Some(call) => socket_path_of(*conf, host@) == Some(call.0@) && call.1@ == framed(
                    payload@,
                ),
                None => socket_path_of(*conf, host@) is None,
            },
    {
        match Self::app_socket_path(conf, host) {
            Some(socket_path) => Some((socket_path, frame(payload))),
            None => None,
        }
    }

    /// A page to try the handler with.
    pub fn return_html_test() -> (r: Vec<u8>)
        ensures
            r@ == encode_utf8("HTTP/1.1 200 OK\r\nContent-Length: 12\r\n\r\nHello, world\r\n\r\n"@),
    {
        slice_to_vec("HTTP/1.1 200 OK\r\nContent-Length: 12\r\n\r\nHello, world\r\n\r\n".as_bytes())
    }

    /// The answer to a request for a static file, given what was read for
    /// it: the file, or 404 where it could not be had.
    pub fn return_static(hp: &RequestParser, content: Option<Vec<u8>>, mime: &Option<String>) -> (r:
        Vec<u8>)
        ensures
            r@ == (match content {
                Some(c) => static_response(c@, compressable(hp.parsed_headers@), text_view(*mime)),
                None => encode_utf8(response_text(404, "Not found"@, "text/html"@)),
            }),
    {
        match get_static_file(hp, content, mime) {
            Some(r) => r,
            None => Self::return_404(),
        }
    }

    /// The answer where a file is not found.
    pub fn return_404() -> (r: Vec<u8>)
        ensures
            r@ == encode_utf8(response_text(404, "Not found"@, "text/html"@)),
    {
        response_bytes(404, "Not found")
    }

    /// The answer to a request that is too large.
    pub fn return_413_entity_too_large() -> (r: Vec<u8>)
        ensures
            r@ == encode_utf8(response_text(413, "Request entity too large."@, "text/html"@)),
    {
        response_bytes(413, "Request entity too large.")
    }
}

} // verus!
