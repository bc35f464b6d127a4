//! The multipart decoder: from a body and its boundary to the text fields,
//! folded into one string, and the uploaded files.

use vstd::prelude::*;
use vstd::slice::{slice_subrange, slice_to_vec};
use vstd::string::*;
use vstd::utf8::{decode_utf8, encode_utf8, valid_utf8};
use crate::headers::{Fields, RequestParser};
use crate::number::{is_number, is_numeric_literal};
use crate::request::RequestFile;
use crate::text::{
    chars_of, decode_text, first_match, is_text, lemma_first_match, matches_from, split,
    split_on, text_of, views,
};
use crate::text_map::TextMap;

verus! {

/// The files by field name, in plain values.
pub type Files = Map<Seq<char>, (Seq<char>, Seq<u8>)>;

/// `memchr::memmem::Finder::find`: the index of the first occurrence of
/// `needle` in `haystack`, or nothing where it does not occur.
#[verifier::external_body]
fn find_first(needle: &[u8], haystack: &[u8]) -> (r: Option<usize>)
    ensures
        match r {
            Some(i) => first_match(haystack@, needle@, 0) == Some(i as int),
            None => first_match(haystack@, needle@, 0) is None,
        },
{
    memchr::memmem::Finder::new(needle).find(haystack)
}

/// `memchr::memmem::Finder::find_iter`: the indices of the occurrences of
/// `needle` in `haystack` from left to right, each search starting behind
/// the occurrence before.
#[verifier::external_body]
fn find_all(needle: &[u8], haystack: &[u8]) -> (r: Vec<usize>)
    requires
        needle@.len() > 0,
    ensures
        r@.len() == matches_from(haystack@, needle@, 0).len(),
        forall|j: int| 0 <= j < r@.len() ==> r@[j] as int == matches_from(haystack@, needle@, 0)[j],
{
    memchr::memmem::Finder::new(needle).find_iter(haystack).collect()
}

/// The occurrences that `matches_from` lists lie in the text, one behind
/// the other.
pub proof fn lemma_matches_ordered<T>(s: Seq<T>, pat: Seq<T>, from: int)
    requires
        pat.len() > 0,
        0 <= from,
    ensures
        forall|j: int|
            0 <= j < matches_from(s, pat, from).len() ==> from <= #[trigger] matches_from(
                s,
                pat,
                from,
            )[j] && matches_from(s, pat, from)[j] + pat.len() <= s.len(),
        forall|j: int|
            0 <= j < matches_from(s, pat, from).len() - 1 ==> (#[trigger] matches_from(
                s,
                pat,
                from,
            )[j]) + pat.len() <= matches_from(s, pat, from)[j + 1],
    decreases s.len() - from,
{
    lemma_first_match(s, pat, from);
    match first_match(s, pat, from) {
        None => {},
        Some(i) => {
            if from <= i && i + pat.len() <= s.len() {
                let rest = matches_from(s, pat, i + pat.len());
                lemma_matches_ordered(s, pat, i + pat.len());
                let all = matches_from(s, pat, from);
                assert(all =~= seq![i] + rest);
                assert forall|j: int| 0 <= j < all.len() implies from <= #[trigger] all[j] && all[j]
                    + pat.len() <= s.len() by {
                    if j > 0 {
                        assert(all[j] == rest[j - 1]);
                    }
                }
                assert forall|j: int| 0 <= j < all.len() - 1 implies (#[trigger] all[j]) + pat.len()
                    <= all[j + 1] by {
                    assert(all[j + 1] == rest[j]);
                    if j > 0 {
                        assert(all[j] == rest[j - 1]);
                    }
                }
            }
        },
    }
}

/// The blank line that ends a part's headers.
pub open spec fn blank_line() -> Seq<u8> {
    seq![13u8, 10u8, 13u8, 10u8]
}

/// The bytes that open a part's header block.
pub open spec fn disposition_mark() -> Seq<u8> {
    encode_utf8("Content-Disposition"@)
}

/// What a part of the body is.
pub enum Part {
    /// A text field and its value.
    Value { name: Seq<char>, text: Seq<char> },
    /// A file, under the name of its field.
    File { field: Seq<char>, file: (Seq<char>, Seq<u8>) },
    /// A part that is neither and is passed over.
    Dropped,
}

/// What stands in `meta` between the first occurrence of `open` and the
/// next double quote, or the end.
pub open spec fn quoted_after(meta: Seq<char>, open: Seq<char>) -> Option<Seq<char>> {
    let parts = split(meta, open);
    if parts.len() >= 2 {
        Some(split(parts[1], "\""@)[0])
    } else {
        None
    }
}

/// The header block of a part: from its `Content-Disposition` to the blank
/// line, where there are both and what is between them is text.
pub open spec fn meta_of(row: Seq<u8>) -> Option<Seq<char>> {
    match first_match(row, disposition_mark(), 0) {
        None => None,
        Some(start) => {
            let tail = row.subrange(start, row.len() as int);
            match first_match(tail, blank_line(), 0) {
                None => None,
                Some(end) => if valid_utf8(tail.subrange(0, end)) {
                    Some(decode_utf8(tail.subrange(0, end)))
                } else {
                    None
                },
            }
        },
    }
}

/// The content of a part: what stands between its first blank line and
/// the line end before the next boundary.
pub open spec fn content_of(row: Seq<u8>) -> Option<Seq<u8>> {
    match first_match(row, blank_line(), 0) {
        None => None,
        Some(v) => if v + 4 <= row.len() - 2 {
            Some(row.subrange(v + 4, row.len() - 2))
        } else {
            None
        },
    }
}

/// What the part is that the bytes `row` hold: a file where the header
/// block names one, else a text field where the content is text of type
/// `text/plain`, which is also the type of a part that names none.
pub open spec fn part_of(row: Seq<u8>) -> Part {
    match (meta_of(row), content_of(row)) {
        (Some(meta), Some(content)) => match quoted_after(meta, " name=\""@) {
            None => Part::Dropped,
            Some(name) => match quoted_after(meta, " filename=\""@) {
                Some(filename) => Part::File { field: name, file: (filename, content) },
                None => {
                    let ctype = match quoted_after(meta, "Content-Type: "@) {
                        Some(t) => t,
                        None => "text/plain"@,
                    };
                    if ctype == "text/plain"@ && valid_utf8(content) {
                        Part::Value { name: name, text: decode_utf8(content) }
                    } else {
                        Part::Dropped
                    }
                },
            },
        },
        _ => Part::Dropped,
    }
}

/// What has been made of the parts so far: the text of the fields, the
/// files, and how many parts were taken.
pub struct Folded {
    pub text: Seq<char>,
    pub files: Files,
    pub count: nat,
}

/// What a text field adds to the text: its name in quotes, a colon, and
/// its value, in quotes unless it reads as a number, with a brace before
/// the first part taken and a comma before any other.
pub open spec fn value_text(count: nat, name: Seq<char>, text: Seq<char>) -> Seq<char> {
    (if count == 0 {
        "{"@
    } else {
        ","@
    }) + "\""@ + name + "\": "@ + (if is_numeric_literal(text) {
        text
    } else {
        "\""@ + text + "\""@
    }) + " "@
}

/// What one part adds.
pub open spec fn fold_part(acc: Folded, p: Part) -> Folded {
    match p {
        Part::Dropped => acc,
        Part::Value { name, text } => Folded {
            text: acc.text + value_text(acc.count, name, text),
            count: acc.count + 1,
            ..acc
        },
        Part::File { field, file } => Folded {
            files: acc.files.insert(field, file),
            count: acc.count + 1,
            ..acc
        },
    }
}

/// The segments of the body between one boundary and the next, each from
/// the start of the boundary before it. What stands before the first
/// boundary and behind the last belongs to none.
pub open spec fn rows(body: Seq<u8>, boundary: Seq<u8>) -> Seq<Seq<u8>> {
    let marks = matches_from(body, boundary, 0);
    Seq::new(
        if marks.len() > 0 {
            (marks.len() - 1) as nat
        } else {
            0
        },
        |j: int| body.subrange(marks[j], marks[j + 1]),
    )
}

/// What the first `n` segments add to the files `files`.
pub open spec fn fold_rows(rows: Seq<Seq<u8>>, n: int, files: Files) -> Folded
    decreases n,
{
    if n <= 0 {
        Folded { text: Seq::empty(), files: files, count: 0 }
    } else {
        fold_part(fold_rows(rows, n - 1, files), part_of(rows[n - 1]))
    }
}

/// The text and the files that a body holds, given its boundary marker
/// and the files there were before: the text of its fields, closed by a
/// brace.
pub open spec fn decoded(body: Seq<u8>, boundary: Seq<u8>, files: Files) -> (Seq<char>, Files) {
    if boundary.len() == 0 {
        ("}"@, files)
    } else {
        let f = fold_rows(rows(body, boundary), rows(body, boundary).len() as int, files);
        (f.text + "}"@, f.files)
    }
}

/// The boundary marker that a content type names: two dashes and what
/// follows its first `boundary=`.
pub open spec fn boundary_of(content_type: Seq<char>) -> Option<Seq<u8>> {
    let parts = split(content_type, "boundary="@);
    if parts.len() >= 2 {
        Some(seq![45u8, 45u8] + encode_utf8(parts[1]))
    } else {
        None
    }
}

/// The text and the files of a request's body, given its fields.
pub open spec fn decoded_request(h: Fields, body: Seq<u8>, files: Files) -> (Seq<char>, Files) {
    if h.contains_key("content-type"@) && boundary_of(h["content-type"@]) is Some {
        decoded(body, boundary_of(h["content-type"@])->0, files)
    } else {
        ("}"@, files)
    }
}

/// A part as it was read.
pub enum ReadPart {
    Value { name: String, text: String },
    File { field: String, file: RequestFile },
    Dropped,
}

impl View for ReadPart {
    type V = Part;

    open spec fn view(&self) -> Part {
        match self {
            ReadPart::Value { name, text } => Part::Value { name: name@, text: text@ },
            ReadPart::File { field, file } => Part::File { field: field@, file: file@ },
            ReadPart::Dropped => Part::Dropped,
        }
    }
}

/// The four bytes of a blank line.
fn blank_line_bytes() -> (v: Vec<u8>)
    ensures
        v@ == blank_line(),
{
    let mut v: Vec<u8> = Vec::new();
    v.push(13);
    v.push(10);
    v.push(13);
    v.push(10);
    assert(v@ =~= blank_line());
    v
}

/// What stands in `meta` between the first `open` and the next quote.
fn read_quoted(meta: &Vec<char>, open: &str) -> (r: Option<String>)
    requires
        open@.len() > 0,
    ensures
        match r {
            Some(t) => quoted_after(meta@, open@) == Some(t@),
            None => quoted_after(meta@, open@) is None,
        },
{
    proof {
        reveal_strlit("\"");
    }
    let parts = split_on(meta, &chars_of(open));
    if parts.len() < 2 {
        return None;
    }
    assert(views(parts@)[1] == parts@[1]@);
    let inner = split_on(&parts[1], &chars_of("\""));
    assert(views(inner@)[0] == inner@[0]@);
    Some(text_of(&inner[0]))
}

/// The header block of a part.
fn read_meta(row: &[u8]) -> (r: Option<String>)
    ensures
        match r {
            Some(m) => meta_of(row@) == Some(m@),
            None => meta_of(row@) is None,
        },
{
    let start = match find_first("Content-Disposition".as_bytes(), row) {
        Some(i) => i,
        None => {
            return None;
        },
    };
    proof {
        lemma_first_match(row@, disposition_mark(), 0);
    }
    let tail = slice_subrange(row, start, row.len());
    let end = match find_first(blank_line_bytes().as_slice(), tail) {
        Some(i) => i,
        None => {
            return None;
        },
    };
    proof {
        lemma_first_match(tail@, blank_line(), 0);
    }
    decode_text(slice_subrange(tail, 0, end))
}

/// The content of a part.
fn read_content(row: &[u8]) -> (r: Option<Vec<u8>>)
    ensures
        match r {
            Some(c) => content_of(row@) == Some(c@),
            None => content_of(row@) is None,
        },
{
    let v = match find_first(blank_line_bytes().as_slice(), row) {
        Some(i) => i,
        None => {
            return None;
        },
    };
    proof {
        lemma_first_match(row@, blank_line(), 0);
    }
    let n: usize = row.len();
    if n < 2 || v + 4 > n - 2 {
        return None;
    }
    Some(slice_to_vec(slice_subrange(row, v + 4, n - 2)))
}

/// Reads one part.
pub fn read_part(row: &[u8]) -> (p: ReadPart)
    ensures
        p@ == part_of(row@),
{
    proof {
        reveal_strlit(" name=\"");
        reveal_strlit(" filename=\"");
        reveal_strlit("Content-Type: ");
    }
    let meta = match read_meta(row) {
        Some(m) => chars_of(m.as_str()),
        None => {
            return ReadPart::Dropped;
        },
    };
    let content = match read_content(row) {
        Some(c) => c,
        None => {
            return ReadPart::Dropped;
        },
    };
    let name = match read_quoted(&meta, " name=\"") {
        Some(n) => n,
        None => {
            return ReadPart::Dropped;
        },
    };
    match read_quoted(&meta, " filename=\"") {
        Some(filename) => ReadPart::File {
            field: name,
            file: RequestFile { name: filename, content: content },
        },
        None => {
            let is_plain = match read_quoted(&meta, "Content-Type: ") {
                Some(t) => is_text(&t, "text/plain"),
                None => true,
            };
            if !is_plain {
                return ReadPart::Dropped;
            }
            match decode_text(content.as_slice()) {
                Some(text) => ReadPart::Value { name: name, text: text },
                None => ReadPart::Dropped,
            }
        },
    }
}

/// Appends what a text field adds to the text.
fn push_value(out: &mut String, count: usize, name: &String, text: &String)
    ensures
        final(out)@ == old(out)@ + value_text(count as nat, name@, text@),
{
    let ghost before = out@;
    if count == 0 {
        out.append("{");
    } else {
        out.append(",");
    }
    out.append("\"");
    out.append(name.as_str());
    out.append("\": ");
    if is_number(&chars_of(text.as_str())) {
        out.append(text.as_str());
    } else {
        out.append("\"");
        out.append(text.as_str());
        out.append("\"");
    }
    out.append(" ");
    assert(out@ =~= before + value_text(count as nat, name@, text@));
}

/// Decodes a body, given its boundary marker: the marker's two dashes
/// included. The files found are added to `files`; the text of the fields
/// is returned. With an empty marker there are no parts.
pub fn decode_multipart(body: &Vec<u8>, boundary: &Vec<u8>, files: &mut TextMap<RequestFile>) -> (text:
    String)
    ensures
        text@ == decoded(body@, boundary@, old(files)@).0,
        final(files)@ == decoded(body@, boundary@, old(files)@).1,
{
    if boundary.len() == 0 {
        return String::from_str("}");
    }
    let marks = find_all(boundary.as_slice(), body.as_slice());
    proof {
        lemma_matches_ordered(body@, boundary@, 0);
    }
    let ghost all = rows(body@, boundary@);
    let mut out = String::new();
    let mut count: usize = 0;
    let mut j: usize = 1;
    while j < marks.len()
        invariant
            1 <= j,
            boundary@.len() > 0,
            marks@.len() == matches_from(body@, boundary@, 0).len(),
            forall|k: int|
                0 <= k < marks@.len() ==> marks@[k] as int == matches_from(body@, boundary@, 0)[k],
            forall|k: int|
                0 <= k < marks@.len() ==> 0 <= #[trigger] matches_from(body@, boundary@, 0)[k]
                    <= body@.len(),
            forall|k: int|
                0 <= k < marks@.len() - 1 ==> (#[trigger] matches_from(body@, boundary@, 0)[k])
                    <= matches_from(body@, boundary@, 0)[k + 1],
            all == rows(body@, boundary@),
            marks@.len() > 0 ==> j <= marks@.len(),
            marks@.len() == 0 ==> j == 1,
            count <= j - 1,
            ({
                let f = fold_rows(all, j - 1, old(files)@);
                &&& out@ == f.text
                &&& files@ == f.files
                &&& count == f.count
            }),
        decreases marks@.len() - j,
    {
        let from: usize = marks[j - 1];
        let to: usize = marks[j];
        assert(matches_from(body@, boundary@, 0)[j - 1] == from);
        assert(matches_from(body@, boundary@, 0)[j as int] == to);
        let row = slice_subrange(body.as_slice(), from, to);
        assert(all[j - 1] == row@);
        match read_part(row) {
            ReadPart::Value { name, text } => {
                push_value(&mut out, count, &name, &text);
                count = count + 1;
            },
            ReadPart::File { field, file } => {
                files.insert(field, file);
                count = count + 1;
            },
            ReadPart::Dropped => {},
        }
        j = j + 1;
    }
    assert(all.len() == j - 1);
    out.append("}");
    out
}

/// Decodes the body of a multipart request: the text of its fields
/// becomes the body text, and its files are added to the request's files.
pub fn parse_multipart(hp: &mut RequestParser)
    ensures
        final(hp).body_string@ == decoded_request(
            old(hp).parsed_headers@,
            old(hp).body@,
            old(hp).files@,
        ).0,
        final(hp).files@ == decoded_request(
            old(hp).parsed_headers@,
            old(hp).body@,
            old(hp).files@,
        ).1,
        *final(hp) == (RequestParser {
            body_string: final(hp).body_string,
            files: final(hp).files,
            ..*old(hp)
        }),
{
    proof {
        reveal_strlit("boundary=");
    }
    let token: Option<String> = match hp.parsed_headers.get("content-type") {
        Some(ctype) => {
            let parts = split_on(&chars_of(ctype.as_str()), &chars_of("boundary="));
            if parts.len() >= 2 {
                assert(views(parts@)[1] == parts@[1]@);
                Some(text_of(&parts[1]))
            } else {
                None
            }
        },
        None => None,
    };
    match token {
        Some(t) => {
            let mut boundary: Vec<u8> = Vec::new();
            boundary.push(45);
            boundary.push(45);
            boundary.extend_from_slice(t.as_str().as_bytes());
            assert(boundary@ =~= seq![45u8, 45u8] + encode_utf8(t@));
            hp.body_string = decode_multipart(&hp.body, &boundary, &mut hp.files);
        },
        None => {
            hp.body_string = String::from_str("}");
        },
    }
}

} // verus!
