use miarh::http::text_resp;

#[test]
fn it_works() {
    let result = 2 + 2;
    assert_eq!(result, 4);
}

#[test]
fn not_found_response_text() {
    let r = text_resp(404, "Not found".to_string());
    assert_eq!(
        r.get_resp(),
        "HTTP/1.1 404\r\nContent-Length: 9\r\nContent-Type: text/html\r\n\r\nNot found"
    );
}
