use miarh::headers::RequestParser;
use miarh::multipart::{decode_multipart, parse_multipart};
use miarh::number::is_number;
use miarh::request::RequestFile;
use miarh::text_map::TextMap;

fn form_body(boundary: &str) -> Vec<u8> {
    let mut body = String::new();
    body.push_str(&format!("--{}\r\n", boundary));
    body.push_str("Content-Disposition: form-data; name=\"a\"\r\n\r\n1\r\n");
    body.push_str(&format!("--{}\r\n", boundary));
    body.push_str("Content-Disposition: form-data; name=\"f\"; filename=\"file.txt\"\r\n");
    body.push_str("Content-Type: text/plain\r\n\r\nhi\r\n");
    body.push_str(&format!("--{}--\r\n", boundary));
    body.into_bytes()
}

#[test]
fn text_field_and_file() {
    let body = form_body("X");
    let mut files: TextMap<RequestFile> = TextMap::new();
    let text = decode_multipart(&body, &b"--X".to_vec(), &mut files);
    assert_eq!(text, "{\"a\": 1 }");
    assert!(text.contains("\"a\": 1"));
    let f = files.get("f").unwrap();
    assert_eq!(f.name, "file.txt");
    assert_eq!(f.content, b"hi".to_vec());
    assert!(files.get("a").is_none());
}

#[test]
fn text_values_are_quoted_numbers_are_not() {
    let mut body = String::new();
    body.push_str("--b\r\nContent-Disposition: form-data; name=\"n\"\r\n\r\n-2.5e3\r\n");
    body.push_str("--b\r\nContent-Disposition: form-data; name=\"s\"\r\n\r\nhello\r\n");
    body.push_str("--b--\r\n");
    let mut files: TextMap<RequestFile> = TextMap::new();
    let text = decode_multipart(&body.into_bytes(), &b"--b".to_vec(), &mut files);
    assert_eq!(text, "{\"n\": -2.5e3 ,\"s\": \"hello\" }");
}

#[test]
fn file_first_leaves_the_brace_out() {
    let mut body = String::new();
    body.push_str("--b\r\nContent-Disposition: form-data; name=\"f\"; filename=\"x.bin\"\r\n\r\nzz\r\n");
    body.push_str("--b\r\nContent-Disposition: form-data; name=\"s\"\r\n\r\nhello\r\n");
    body.push_str("--b--\r\n");
    let mut files: TextMap<RequestFile> = TextMap::new();
    let text = decode_multipart(&body.into_bytes(), &b"--b".to_vec(), &mut files);
    assert_eq!(text, ",\"s\": \"hello\" }");
    assert_eq!(files.get("f").unwrap().content, b"zz".to_vec());
}

#[test]
fn parts_that_are_neither_text_nor_file_are_dropped() {
    let mut body = String::new();
    body.push_str("--b\r\nContent-Disposition: form-data; name=\"j\"\r\nContent-Type: application/json\r\n\r\n{}\r\n");
    body.push_str("--b\r\nno header here\r\n\r\nzz\r\n");
    body.push_str("--b\r\nContent-Disposition: form-data; name=\"s\"\r\n\r\nv\r\n");
    body.push_str("--b--\r\n");
    let mut files: TextMap<RequestFile> = TextMap::new();
    let text = decode_multipart(&body.into_bytes(), &b"--b".to_vec(), &mut files);
    assert_eq!(text, "{\"s\": \"v\" }");
    assert!(files.entries.is_empty());
}

#[test]
fn no_boundary_in_the_body_gives_the_closing_brace() {
    let mut files: TextMap<RequestFile> = TextMap::new();
    let text = decode_multipart(&b"plain".to_vec(), &b"--b".to_vec(), &mut files);
    assert_eq!(text, "}");
    let text = decode_multipart(&b"plain".to_vec(), &Vec::new(), &mut files);
    assert_eq!(text, "}");
}

#[test]
fn what_stands_before_the_first_boundary_is_discarded() {
    let mut body = String::new();
    body.push_str("Content-Disposition: form-data; name=\"early\"\r\n\r\nx\r\n");
    body.push_str("--b\r\nContent-Disposition: form-data; name=\"s\"\r\n\r\nv\r\n");
    body.push_str("--b--\r\n");
    let mut files: TextMap<RequestFile> = TextMap::new();
    let text = decode_multipart(&body.into_bytes(), &b"--b".to_vec(), &mut files);
    assert_eq!(text, "{\"s\": \"v\" }");
}

#[test]
fn request_body_is_decoded_with_the_boundary_of_its_content_type() {
    let mut hp = RequestParser::new();
    hp.parsed_headers.insert(
        "content-type".to_string(),
        "multipart/form-data; boundary=X".to_string(),
    );
    hp.body = form_body("X");
    hp.check_is_multipart();
    assert!(hp.is_multipart);
    parse_multipart(&mut hp);
    assert_eq!(hp.body_string, "{\"a\": 1 }");
    assert_eq!(hp.files.get("f").unwrap().content, b"hi".to_vec());

    let mut hp = RequestParser::new();
    hp.body = form_body("X");
    parse_multipart(&mut hp);
    assert_eq!(hp.body_string, "}");
}

#[test]
fn numbers_are_what_the_float_parser_takes() {
    let samples = [
        "", "0", "1", "-1", "+1", "1.", ".5", ".", "+.", "1.5", "1e5", "1E5", "1e", "1e+", "1e+5",
        "1e-5", "e5", "1.e5", ".5e-3", "+.5", "--1", "1 ", " 1", "1,5", "inf", "INF", "-inf",
        "+Infinity", "infinity", "nan", "NaN", "-nan", "infinit", "na", "1a", "0x10", "1_000",
        "١", "1.5.2", "1ee5", "1e5.0", "007", "-", "+", "e", "1e5e5", ".e5", "in", "+inf", "i",
        "12345678901234567890123456789", "1e400", "hello",
    ];
    for s in samples {
        let chars: Vec<char> = s.chars().collect();
        assert_eq!(is_number(&chars), s.parse::<f64>().is_ok(), "{:?}", s);
    }
}
