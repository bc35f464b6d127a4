use miarh::headers::{
    accept_request_line, parse_header_line, parse_headers, parse_lowered_line,
    parse_named_header, session_id_of,
};
use miarh::text_map::TextMap;

#[test]
fn reject_if_no_rn() {
    let buf = "GET / HTTP/1.1";
    let r = parse_headers(&buf.as_bytes().to_vec());
    assert_eq!(false, r.is_valid());
}

#[test]
fn reject_if_bad_utf8() {
    let mut valid = "GET / HTTP/1.1\r\nHost: example.com\r\n\r\n"
        .as_bytes().to_vec();
    let r = parse_headers(&valid);
    assert_eq!(true, r.is_valid());

    let bad_utf_code: u8 = 192;
    let mut invalid: Vec<u8> = vec![bad_utf_code];
    invalid.append(&mut valid);
    let r = parse_headers(&invalid);
    assert_eq!(false, r.is_valid());
}

#[test]
fn fields_of_a_plain_request() {
    let buf = "GET /a/b?x=1 HTTP/1.1\r\nHost: Example.COM:8443\r\nAccept-Encoding: gzip, br\r\nCookie: session_id=abc\r\nContent-Length: 12\r\n\r\nhello"
        .as_bytes().to_vec();
    let r = parse_headers(&buf);
    assert_eq!(r.get_header("method"), "get");
    assert_eq!(r.get_header("path"), "/a/b?x=1");
    assert_eq!(r.get_header("protocol"), "http/1.1");
    assert_eq!(r.get_header("host"), "example.com");
    assert_eq!(r.get_header("accept-encoding"), "gzip, br");
    assert_eq!(r.get_header("session_id"), "abc");
    assert_eq!(r.get_header("content-length"), "12");
    assert_eq!(r.content_len(), 12);
    assert!(r.is_accept_brotli());
    assert_eq!(buf[r.headers_len], b'\n');
    assert_eq!(&buf[r.headers_len + 1..], b"hello");
}

fn parsed(text: &str) -> miarh::headers::RequestParser {
    parse_headers(&text.as_bytes().to_vec())
}

fn conf() -> miarh::conf::Conf {
    miarh::conf::Conf {
        ip: "127.0.0.1".to_string(),
        https_port: 443,
        http_port: 80,
        acme_challenge_dir: "/var/acme".to_string(),
        acme_challenge_url: "/.well-known/acme-challenge/".to_string(),
        index_url: "/".to_string(),
        tmp_dir: "/tmp".to_string(),
        servers: vec![
            miarh::conf::ServerConf {
                name: "one".to_string(),
                hostnames: vec!["example.com".to_string(), "www.example.com".to_string()],
                socket_path: "/run/one.sock".to_string(),
                static_dir: "/srv/one/static".to_string(),
                dev_static_dir: "/srv/one/dev".to_string(),
                index_path: "/srv/one/index.html".to_string(),
            },
            miarh::conf::ServerConf {
                name: "two".to_string(),
                hostnames: vec!["two.example".to_string()],
                socket_path: "/run/two.sock".to_string(),
                static_dir: "/srv/two/static/".to_string(),
                dev_static_dir: "/srv/two/dev".to_string(),
                index_path: "/srv/two/index.html".to_string(),
            },
        ],
        max_request_size_mb: 1,
    }
}

#[test]
fn a_buffer_without_a_line_end_holds_no_fields() {
    for text in ["", "GET / HTTP/1.1", "GET / HTTP/1.1\r", "GET / HTTP/1.1\nHost: a\n\n", "\r"] {
        let r = parsed(text);
        assert!(r.parsed_headers.entries.is_empty(), "{:?}", text);
        assert!(!r.is_valid());
    }
    assert_eq!(parsed("").headers_len, 0);
    assert_eq!(parsed("abc").headers_len, 2);
    assert_eq!(parsed("abc\r").headers_len, 3);
}

#[test]
fn the_header_length_is_the_offset_of_the_blank_lines_line_feed() {
    let r = parsed("GET / HTTP/1.1\r\nHost: a\r\n\r\nbody\r\n\r\nHost: b\r\n");
    assert_eq!(r.headers_len, 26);
    assert_eq!(r.get_header("host"), "a");
    let r = parsed("\r\n\r\n");
    assert_eq!(r.headers_len, 3);
    // a line end at the end of the buffer, without a blank line
    let r = parsed("GET / HTTP/1.1\r\n");
    assert_eq!(r.headers_len, 15);
    assert_eq!(r.get_header("method"), "get");
}

#[test]
fn only_the_header_region_is_scanned() {
    let mut text = String::from("GET / HTTP/1.1\r\n");
    text.push_str(&format!("X-Pad: {}\r\n", "p".repeat(2048)));
    text.push_str("Host: late.example\r\n\r\n");
    let r = parsed(&text);
    assert_eq!(r.get_header("method"), "get");
    assert_eq!(r.get_header("host"), "");
    assert!(!r.is_valid());
    assert_eq!(r.headers_len, 2047);
}

#[test]
fn a_line_that_is_no_text_is_passed_over() {
    let mut buf = b"GET / HTTP/1.1\r\nX-Bad: ".to_vec();
    buf.push(0xff);
    buf.extend_from_slice(b"\r\nHost: example.com\r\n\r\n");
    let r = parse_headers(&buf);
    assert!(r.is_valid());
    assert_eq!(r.get_header("host"), "example.com");

    let mut buf = b"GET / HTTP/1.1\r\nHost: exa".to_vec();
    buf.push(0xc0);
    buf.extend_from_slice(b"mple.com\r\n\r\n");
    let r = parse_headers(&buf);
    assert!(!r.is_valid());
    assert_eq!(r.get_header("method"), "get");
    assert_eq!(r.get_header("host"), "");
}

#[test]
fn parsing_twice_gives_the_same_fields() {
    let buf = "POST /x?a=1 HTTP/1.1\r\nHost: Example.com\r\nCookie: session_id=S1\r\n\r\n"
        .as_bytes().to_vec();
    let a = parse_headers(&buf);
    let b = parse_headers(&buf);
    assert_eq!(a.parsed_headers.entries, b.parsed_headers.entries);
    assert_eq!(a.headers_len, b.headers_len);
}

#[test]
fn request_lines_that_are_not_served_are_dropped() {
    for line in [
        "PATCH / HTTP/1.1", "GET / HTTP/1.0", "GET / HTTP/2", "GET  / HTTP/1.1", "GET /",
        "GET / HTTP/1.1 extra", "get/ HTTP/1.1",
    ] {
        let r = parsed(&format!("{}\r\nHost: example.com\r\n\r\n", line));
        assert_eq!(r.get_header("method"), "", "{:?}", line);
        assert_eq!(r.get_header("path"), "");
        assert_eq!(r.get_header("host"), "example.com");
        assert!(!r.is_valid());
    }
    for (line, method) in [
        ("get / http/1.1", "get"), ("Post /x HTTP/1.1", "post"), ("PUT /x HTTP/1.1", "put"),
        ("DELETE /x HTTP/1.1", "delete"),
    ] {
        let r = parsed(&format!("{}\r\nHost: example.com\r\n\r\n", line));
        assert_eq!(r.get_header("method"), method);
        assert_eq!(r.method(), method);
        assert_eq!(r.get_header("protocol"), "http/1.1");
        assert!(r.is_valid());
    }
}

#[test]
fn header_names_are_read_in_lower_case_and_values_as_sent() {
    let r = parsed(
        "GET /Path HTTP/1.1\r\nHOST: WWW.Example.COM:443\r\nContent-Type: Text/HTML\r\nACCEPT-ENCODING: GZip\r\nContent-Length: 5\r\nX-Other: y\r\n\r\n",
    );
    assert_eq!(r.get_header("path"), "/Path");
    assert_eq!(r.get_header("host"), "www.example.com");
    assert_eq!(r.get_header("content-type"), "Text/HTML");
    assert_eq!(r.get_header("accept-encoding"), "GZip");
    assert!(!r.is_accept_brotli());
    assert_eq!(r.get_header("x-other"), "");
    assert_eq!(r.parsed_headers.entries.len(), 7);
}

#[test]
fn the_boundary_of_a_content_type_keeps_its_case() {
    let mut h: TextMap<String> = TextMap::new();
    parse_header_line("Content-Type: multipart/form-data; boundary=X", &mut h);
    let stored = h.get("content-type").unwrap();
    assert_eq!(stored, "multipart/form-data; boundary=X");
    assert!(stored.contains("multipart/form-data"));
    assert!(stored.ends_with("boundary=X"));
    let r = parsed("POST / HTTP/1.1\r\ncontent-type: multipart/form-data; boundary=----WebKitFormBoundaryAbC\r\n\r\n");
    assert_eq!(r.get_header("content-type"), "multipart/form-data; boundary=----WebKitFormBoundaryAbC");
}

#[test]
fn malformed_header_lines_are_dropped() {
    let r = parsed(
        "GET / HTTP/1.1\r\nHost: a host: b\r\nContent-Length: 1 2\r\nAccept-Encoding: br accept-encoding: x\r\nCookie: a cookie: b\r\n\r\n",
    );
    assert_eq!(r.get_header("host"), "");
    assert_eq!(r.get_header("content-length"), "");
    assert_eq!(r.get_header("accept-encoding"), "");
    assert_eq!(r.get_header("session_id"), "");
    assert_eq!(r.content_len(), 0);
}

#[test]
fn the_content_length_is_zero_where_it_is_no_number() {
    for (value, n) in [("17", 17usize), ("+17", 17), ("abc", 0), ("-1", 0), ("1.5", 0),
        ("99999999999999999999999999", 0), ("0", 0)] {
        let r = parsed(&format!("POST / HTTP/1.1\r\nContent-Length: {}\r\n\r\n", value));
        assert_eq!(r.content_len(), n, "{:?}", value);
    }
    assert_eq!(parsed("POST / HTTP/1.1\r\n\r\n").content_len(), 0);
}

#[test]
fn the_session_id_is_the_short_value_of_the_session_cookie() {
    let r = parsed("GET / HTTP/1.1\r\nCookie: session_id=abc123; Path=/\r\n\r\n");
    assert_eq!(r.get_header("session_id"), "abc123");
    let r = parsed("GET / HTTP/1.1\r\nCOOKIE: session_id=AbC123xYz\r\n\r\n");
    assert_eq!(r.get_header("session_id"), "AbC123xYz");
    let r = parsed("GET / HTTP/1.1\r\nCookie: SESSION_ID=abc123\r\n\r\n");
    assert_eq!(r.get_header("session_id"), "");
    let r = parsed("GET / HTTP/1.1\r\nCookie:  session_id = abc ; Secure\r\n\r\n");
    assert_eq!(r.get_header("session_id"), "abc");
    let r = parsed("GET / HTTP/1.1\r\nCookie: other=abc123\r\n\r\n");
    assert_eq!(r.get_header("session_id"), "");
    let r = parsed("GET / HTTP/1.1\r\nCookie: nonsense\r\n\r\n");
    assert_eq!(r.get_header("session_id"), "");
    let r = parsed(&format!("GET / HTTP/1.1\r\nCookie: session_id={}\r\n\r\n", "x".repeat(99)));
    assert_eq!(r.get_header("session_id"), "x".repeat(99));
    let r = parsed(&format!("GET / HTTP/1.1\r\nCookie: session_id={}\r\n\r\n", "x".repeat(100)));
    assert_eq!(r.get_header("session_id"), "");
}

#[test]
fn the_query_is_read_from_the_path() {
    let mut r = parsed("GET /x?a=1&b=&c&=d&e=f=g&a=2?h=3 HTTP/1.1\r\nHost: example.com\r\n\r\n");
    r.parse_query();
    assert_eq!(r.query.get("a"), Some(&"2".to_string()));
    assert_eq!(r.query.get("b"), Some(&"".to_string()));
    assert_eq!(r.query.get("c"), None);
    assert_eq!(r.query.get(""), Some(&"d".to_string()));
    assert_eq!(r.query.get("e"), Some(&"f".to_string()));
    assert_eq!(r.query.get("h"), None);
    let mut r = parsed("GET /x HTTP/1.1\r\n\r\n");
    r.parse_query();
    assert!(r.query.entries.is_empty());
    let mut r = parsed("nothing");
    r.parse_query();
    assert!(r.query.entries.is_empty());
}

#[test]
fn one_trailing_slash_is_taken_off_the_path() {
    let mut r = parsed("GET /a/b// HTTP/1.1\r\n\r\n");
    r.remove_trailing_slash();
    assert_eq!(r.get_header("path"), "/a/b/");
    let mut r = parsed("GET /a HTTP/1.1\r\n\r\n");
    r.remove_trailing_slash();
    assert_eq!(r.get_header("path"), "/a");
    let mut r = parsed("nothing");
    r.remove_trailing_slash();
    assert_eq!(r.get_header("path"), "");
}

#[test]
fn a_multipart_body_is_told_by_its_content_type() {
    let mut r = parsed("POST / HTTP/1.1\r\nContent-Type: multipart/form-data; boundary=b\r\n\r\n");
    r.check_is_multipart();
    assert!(r.is_multipart);
    let mut r = parsed("POST / HTTP/1.1\r\nContent-Type: application/json\r\n\r\n");
    r.check_is_multipart();
    assert!(!r.is_multipart);
    let mut r = parsed("POST / HTTP/1.1\r\n\r\n");
    r.check_is_multipart();
    assert!(!r.is_multipart);
}

#[test]
fn static_paths_are_resolved_below_the_static_directory() {
    let c = conf();
    let mut r = parsed("GET /static/css/a.css?v=1 HTTP/1.1\r\nHost: example.com\r\n\r\n");
    r.check_is_static(&c);
    assert!(r.is_static && r.is_static_valid && r.is_valid());
    assert_eq!(r.get_header("static_path"), "/srv/one/static/css/a.css?v=1");
    assert_eq!(r.get_header("path"), "/static/css/a.css?v=1");

    let mut r = parsed("GET /static/a.js HTTP/1.1\r\nHost: two.example\r\n\r\n");
    r.check_is_static(&c);
    assert!(r.is_static && r.is_static_valid);
    assert_eq!(r.get_header("static_path"), "/srv/two/static/a.js");
}

#[test]
fn the_index_and_the_challenge_files_are_static() {
    let c = conf();
    let mut r = parsed("GET / HTTP/1.1\r\nHost: www.example.com\r\n\r\n");
    r.check_is_static(&c);
    assert!(r.is_static && r.is_static_valid && r.is_valid());
    assert_eq!(r.get_header("static_path"), "/srv/one/index.html");
    assert_eq!(r.get_header("path"), "/");

    let mut r = parsed("GET /.well-known/acme-challenge/tok HTTP/1.1\r\nHost: two.example\r\n\r\n");
    r.check_is_static(&c);
    assert!(r.is_static && r.is_static_valid);
    assert_eq!(r.get_header("static_path"), "/var/acme/tok");
    assert!(miarh::headers::RequestParser::is_acme(&r.get_header("path"), &c));
    assert!(!miarh::headers::RequestParser::is_acme(&"/static/x".to_string(), &c));
}

#[test]
fn a_path_that_leaves_the_root_is_never_a_valid_static_request() {
    let c = conf();
    for path in [
        "/static/../secret.txt", "/static/../../etc/passwd", "/static/a/../../b",
        "/static//etc/passwd", "/static/css/../../../x", "/static/..",
        "/.well-known/acme-challenge/../x", "/.well-known/acme-challenge/a/../../x",
    ] {
        let mut r = parsed(&format!("GET {} HTTP/1.1\r\nHost: example.com\r\n\r\n", path));
        r.check_is_static(&c);
        assert!(r.is_static, "{:?}", path);
        assert!(!r.is_static_valid, "{:?}", path);
        assert!(!r.is_valid(), "{:?}", path);
        assert_eq!(r.get_header("static_path"), "");
    }
    let mut r = parsed("GET /static/a/../b.css HTTP/1.1\r\nHost: example.com\r\n\r\n");
    r.check_is_static(&c);
    assert!(r.is_static_valid);
    assert_eq!(r.get_header("static_path"), "/srv/one/static/a/../b.css");
}

#[test]
fn a_static_request_to_an_unknown_host_is_invalid() {
    let c = conf();
    let mut r = parsed("GET /static/a.css HTTP/1.1\r\nHost: unknown.example\r\n\r\n");
    r.check_is_static(&c);
    assert!(r.is_static && !r.is_static_valid && !r.is_valid());
    // host names are matched letter for letter
    let mut r = parsed("GET /static/a.css HTTP/1.1\r\nHost: example.com.\r\n\r\n");
    r.check_is_static(&c);
    assert!(!r.is_static_valid);
}

#[test]
fn other_requests_lose_their_trailing_slash() {
    let c = conf();
    let mut r = parsed("GET /users/ HTTP/1.1\r\nHost: example.com\r\n\r\n");
    r.check_is_static(&c);
    assert!(!r.is_static && !r.is_static_valid && r.is_valid());
    assert_eq!(r.get_header("path"), "/users");
    let mut r = parsed("GET /users/ HTTP/1.1\r\n\r\n");
    r.check_is_static(&c);
    assert!(!r.is_static && !r.is_valid());
    assert_eq!(r.get_header("path"), "/users");
    let mut r = parsed("nothing");
    r.check_is_static(&c);
    assert!(!r.is_static && !r.is_static_valid);
}

#[test]
fn the_request_for_the_backend_carries_the_fields() {
    let mut r = parsed("POST /x?a=1 HTTP/1.1\r\nHost: example.com\r\nCookie: session_id=s1\r\n\r\n");
    r.parse_query();
    r.body_string = "body".to_string();
    r.route.insert("id".to_string(), "7".to_string());
    let req = r.get_req();
    assert_eq!(req.method, "post");
    assert_eq!(req.host, "example.com");
    assert_eq!(req.path, "/x?a=1");
    assert_eq!(req.session_id, "s1");
    assert_eq!(req.query.get("a"), Some(&"1".to_string()));
    assert_eq!(req.body_string, "body");
    assert_eq!(req.route.get("id"), Some(&"7".to_string()));
    assert!(req.files.entries.is_empty());
    assert_eq!(req.app_socket_path(&conf()), Some("/run/one.sock".to_string()));
    let req = parsed("nothing").get_req();
    assert_eq!(req.method, "");
    assert_eq!(req.session_id, "");
    assert_eq!(req.app_socket_path(&conf()), None);
}

#[test]
fn a_request_line_is_taken_whole_or_not_at_all() {
    let mut h: TextMap<String> = TextMap::new();
    accept_request_line("patch".to_string(), "/".to_string(), "http/1.1".to_string(), &mut h);
    assert!(h.entries.is_empty());
    accept_request_line("get".to_string(), "/".to_string(), "http/1.0".to_string(), &mut h);
    assert!(h.entries.is_empty());
    accept_request_line("GET".to_string(), "/".to_string(), "http/1.1".to_string(), &mut h);
    assert!(h.entries.is_empty());
    accept_request_line("put".to_string(), "/A".to_string(), "http/1.1".to_string(), &mut h);
    assert_eq!(h.get("method"), Some(&"put".to_string()));
    assert_eq!(h.get("path"), Some(&"/A".to_string()));
    assert_eq!(h.get("protocol"), Some(&"http/1.1".to_string()));
}

#[test]
fn a_line_is_read_by_its_lower_case_form() {
    let mut h: TextMap<String> = TextMap::new();
    parse_lowered_line("Content-Type: Text/Plain", "content-type: text/plain", &mut h);
    assert_eq!(h.get("content-type"), Some(&"Text/Plain".to_string()));
    parse_lowered_line("GET /Index HTTP/1.1", "get /index http/1.1", &mut h);
    assert_eq!(h.get("path"), Some(&"/Index".to_string()));
    // a line without a colon and a space is no header
    parse_lowered_line("Host:a", "host:a", &mut h);
    parse_lowered_line("Host", "host", &mut h);
    assert_eq!(h.get("host"), None);
    let mut g: TextMap<String> = TextMap::new();
    parse_header_line("HOST: ÉCOLE.example:8080", &mut g);
    assert_eq!(g.get("host"), Some(&"école.example".to_string()));
    parse_header_line("", &mut g);
    assert_eq!(g.entries.len(), 1);
}

#[test]
fn a_header_is_read_by_its_name() {
    fn chars(s: &str) -> Vec<char> {
        s.chars().collect()
    }
    let mut h: TextMap<String> = TextMap::new();
    parse_named_header("content-type", &chars("A/b; C=D"), &chars("content-type: a/b; c=d"), &mut h);
    assert_eq!(h.get("content-type"), Some(&"A/b; C=D".to_string()));
    parse_named_header("Content-Type", &chars("x"), &chars("content-type: x"), &mut h);
    assert_eq!(h.get("content-type"), Some(&"A/b; C=D".to_string()));
    parse_named_header("host", &chars("A.example:80"), &chars("host: a.example:80"), &mut h);
    assert_eq!(h.get("host"), Some(&"a.example".to_string()));
    parse_named_header("content-length", &chars("12"), &chars("content-length: 12"), &mut h);
    assert_eq!(h.get("content-length"), Some(&"12".to_string()));
    parse_named_header("content-length", &chars("1 3"), &chars("content-length: 1 3"), &mut h);
    assert_eq!(h.get("content-length"), Some(&"12".to_string()));
    parse_named_header("accept-encoding", &chars("BR"), &chars("accept-encoding: br"), &mut h);
    assert_eq!(h.get("accept-encoding"), Some(&"BR".to_string()));
    parse_named_header("cookie", &chars("session_id=Q"), &chars("cookie: session_id=q"), &mut h);
    assert_eq!(h.get("session_id"), Some(&"Q".to_string()));
    parse_named_header("x-other", &chars("v"), &chars("x-other: v"), &mut h);
    assert_eq!(h.entries.len(), 5);
}

/// What the cookie parser is stated to read: name and value.
fn stated_cookie_pair(s: &str) -> Option<(String, String)> {
    let first = s.split(';').next().unwrap();
    let i = first.find('=')?;
    let name = stated_trim(&first[..i]);
    let value = stated_trim(&first[i + 1..]);
    if name.is_empty() {
        None
    } else {
        Some((name, value))
    }
}

fn stated_space(c: char) -> bool {
    let u = c as u32;
    (0x09..=0x0D).contains(&u)
        || u == 0x20
        || u == 0x85
        || u == 0xA0
        || u == 0x1680
        || (0x2000..=0x200A).contains(&u)
        || u == 0x2028
        || u == 0x2029
        || u == 0x202F
        || u == 0x205F
        || u == 0x3000
}

fn stated_trim(s: &str) -> String {
    let chars: Vec<char> = s.chars().collect();
    let mut from = 0;
    while from < chars.len() && stated_space(chars[from]) {
        from += 1;
    }
    let mut to = chars.len();
    while to > from && stated_space(chars[to - 1]) {
        to -= 1;
    }
    chars[from..to].iter().collect()
}

#[test]
fn white_space_is_what_the_standard_library_trims() {
    for u in 0..=0x10FFFFu32 {
        if let Some(c) = char::from_u32(u) {
            assert_eq!(stated_space(c), c.is_whitespace(), "{:x}", u);
        }
    }
    for s in ["", " ", " a ", "\t\u{3000}a b\u{a0}\n", "\u{200b}a", "a\u{85}"] {
        assert_eq!(stated_trim(s), s.trim());
    }
}

#[test]
fn the_session_cookie_is_read_as_the_cookie_parser_reads_it() {
    let samples = [
        "session_id=abc", "session_id=AbC; Path=/; HttpOnly", " session_id = a b ;x=y", "a=b=c",
        "=v", "a", "", ";session_id=x", "session_id=", "session_id", "session_id =\u{a0}v\u{3000}",
        "session_id=\"q\"", "session_id=a%20b", "x=1; session_id=2", "session_id=v; Expires=nonsense",
        "session_id=v; Max-Age=-1", "\u{2003}session_id\u{2003}=\u{2003}", "Session_ID=v",
    ];
    for s in samples {
        let read = cookie::Cookie::parse(s).ok().map(|c| {
            let (n, v) = c.name_value();
            (n.to_string(), v.to_string())
        });
        assert_eq!(read, stated_cookie_pair(s), "{:?}", s);
        let mut h: TextMap<String> = TextMap::new();
        parse_header_line(&format!("Cookie: {}", s), &mut h);
        let expected = match stated_cookie_pair(s) {
            Some((n, v)) if n == "session_id" && v.chars().count() < 100 => Some(v),
            _ => None,
        };
        assert_eq!(h.get("session_id").cloned(), expected, "{:?}", s);
    }
}

#[test]
fn the_session_id_comes_from_the_cookie_pair() {
    let pair = |n: &str, v: &str| Some((n.to_string(), v.to_string()));
    assert_eq!(session_id_of(pair("session_id", "abc")), Some("abc".to_string()));
    assert_eq!(session_id_of(pair("session_id", "")), Some("".to_string()));
    assert_eq!(session_id_of(pair("Session_id", "abc")), None);
    assert_eq!(session_id_of(pair("sid", "abc")), None);
    assert_eq!(session_id_of(None), None);
    assert_eq!(session_id_of(pair("session_id", &"é".repeat(99))), Some("é".repeat(99)));
    assert_eq!(session_id_of(pair("session_id", &"é".repeat(100))), None);
}
