//! Plain HTTP/1.1 responses with a text body.

use vstd::prelude::*;
use vstd::string::*;
use vstd::utf8::encode_utf8;
use crate::number::{decimal, push_decimal};

verus! {

/// A response with a status code, a body and the body's content type.
pub struct Resp {
    pub code: u16,
    pub text: String,
    pub content_type: String,
}

/// The response as it goes over the wire: the status line, the length of
/// the body in bytes, its content type, a blank line and the body.
pub open spec fn response_text(code: u16, text: Seq<char>, content_type: Seq<char>) -> Seq<char> {
    "HTTP/1.1 "@ + decimal(code as nat) + "\r\nContent-Length: "@ + decimal(
        encode_utf8(text).len(),
    ) + "\r\nContent-Type: "@ + content_type + "\r\n\r\n"@ + text
}

impl Resp {
    /// The response as it goes over the wire.
    pub fn get_resp(&self) -> (r: String)
        ensures
            r@ == response_text(self.code, self.text@, self.content_type@),
    {
        let mut r = String::from_str("HTTP/1.1 ");
        push_decimal(&mut r, self.code as usize);
        r.append("\r\nContent-Length: ");
        push_decimal(&mut r, self.text.as_str().as_bytes().len());
        r.append("\r\nContent-Type: ");
        r.append(self.content_type.as_str());
        r.append("\r\n\r\n");
        r.append(self.text.as_str());
        r
    }
}

/// A response with the given code and body, of type `text/html`.
pub fn text_resp(code: u16, text: String) -> (r: Resp)
    ensures
        r.code == code,
        r.text@ == text@,
        r.content_type@ == "text/html"@,
{
    Resp { code: code, text: text, content_type: String::from_str("text/html") }
}

} // verus!
