//! The compression codec for static files.

use vstd::prelude::*;
use vstd::string::*;
use crate::headers::{field, Fields, RequestParser};
use crate::path::{extension, extension_of};
use crate::text::{chars_of, contains, is_text, lowercase_of, text_of, to_lowercase};

verus! {

/// The size of the codec's working buffer, in bytes.
pub const BUFFER_SIZE: usize = 4096;

/// The quality at which static files are compressed: the highest.
pub const QUALITY: u32 = 11;

/// The logarithm of the codec's window size.
pub const WINDOW: u32 = 22;

/// The brotli stream that the encoder of the `brotli` crate writes for
/// `data` with a working buffer of `buffer_size` bytes, at quality
/// `quality` and with a window of `2^lgwin` bytes. The crate is built with
/// its table-driven cost estimates (`portable-float`), with which the
/// stream is the same on every machine.
pub uninterp spec fn brotli_stream(data: Seq<u8>, buffer_size: usize, quality: u32, lgwin: u32) -> Seq<
    u8,
>;

/// `brotli::CompressorWriter`, fed all of `buf` and then closed: what it
/// has written is the finished stream, which depends on the data and the
/// three settings alone.
#[verifier::external_body]
fn brotli_compress(buf: &Vec<u8>, buffer_size: usize, quality: u32, lgwin: u32) -> (out: Vec<u8>)
    requires
        buffer_size > 0,
        quality <= 11,
        10 <= lgwin <= 24,
    ensures
        out@ == brotli_stream(buf@, buffer_size, quality, lgwin),
{
    let mut out: Vec<u8> = Vec::new();
    let mut writer = brotli::CompressorWriter::new(&mut out, buffer_size, quality, lgwin);
    let _ = std::io::Write::write_all(&mut writer, buf);
    drop(writer);
    out
}

/// What `compress` makes of `data`.
pub open spec fn compressed(data: Seq<u8>) -> Seq<u8> {
    brotli_stream(data, BUFFER_SIZE, QUALITY, WINDOW)
}

/// Compresses `buf` in one go, with the fixed settings.
pub fn compress(buf: &Vec<u8>) -> (out: Vec<u8>)
    ensures
        out@ == compressed(buf@),
{
    brotli_compress(buf, BUFFER_SIZE, QUALITY, WINDOW)
}


/// Whether files with this extension are compressed.
pub open spec fn is_compressed_kind(ext: Seq<char>) -> bool {
    ext == "html"@ || ext == "css"@ || ext == "js"@
}

/// Whether the static file of a request is sent compressed: the client
/// takes brotli, and the file's extension, in lower case, is one of those
/// that are compressed.
pub open spec fn compressable(h: Fields) -> bool {
    &&& h.contains_key("accept-encoding"@)
    &&& contains(h["accept-encoding"@], "br"@)
    &&& match extension(field(h, "static_path"@)) {
        Some(e) => is_compressed_kind(lowercase_of(e)),
        None => false,
    }
}

/// Whether the static file of the request is sent compressed.
pub fn is_compressable(hp: &RequestParser) -> (b: bool)
    ensures
        b == compressable(hp.parsed_headers@),
{
    if !hp.is_accept_brotli() {
        return false;
    }
    let path = hp.get_header("static_path");
    match extension_of(&chars_of(path.as_str())) {
        Some(e) => is_compressed_ext(&to_lowercase(text_of(&e).as_str())),
        None => false,
    }
}

/// Whether files with this extension, given in lower case, are compressed.
pub fn is_compressed_ext(ext: &String) -> (b: bool)
    ensures
        b == is_compressed_kind(ext@),
{
    is_text(ext, "html") || is_text(ext, "css") || is_text(ext, "js")
}

} // verus!
