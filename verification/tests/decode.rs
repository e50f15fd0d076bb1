use cf::meta::{Method, ParseMethodError, StatusCode};
use cf::request::{decode_request, ProtocolError};
use cf::text::{ascii_lower, dec_string, hex_string, parse_dec, str_eq};

fn bytes(s: &[u8]) -> Vec<u8> {
    s.to_vec()
}

#[test]
fn decodes_a_full_request() {
    let buf = bytes(b"GET /users/42?fav=pizza HTTP/1.1\r\nHost: example\r\nContent-Length: 5\r\n\r\nhello");
    let req = decode_request(&buf, "1.2.3.4:5").unwrap();
    assert_eq!(req.method, Method::GET);
    assert_eq!(req.route, "/users/42");
    assert_eq!(req.peer_addr, "1.2.3.4:5");
    assert_eq!(req.body, b"hello".to_vec());
    assert_eq!(req.query_param("fav"), Some("pizza"));
    assert_eq!(req.query_param("other"), None);
    assert_eq!(req.header("host"), Some("example"));
    assert_eq!(req.text(), Some("hello".to_string()));
}

#[test]
fn header_lookup_is_case_insensitive() {
    let buf = bytes(b"POST / HTTP/1.1\r\nX-Token: abc\r\n\r\n");
    let req = decode_request(&buf, "p").unwrap();
    assert_eq!(req.header("x-token"), Some("abc"));
    assert_eq!(req.header("X-Token"), Some("abc"));
    assert_eq!(req.header("X-TOKEN"), Some("abc"));
    assert_eq!(req.header("x-other"), None);
}

#[test]
fn header_values_are_trimmed_and_later_duplicates_win() {
    let buf = bytes(b"GET / HTTP/1.1\r\nA:   padded value  \r\nA: second\r\n\r\n");
    let req = decode_request(&buf, "p").unwrap();
    assert_eq!(req.header("a"), Some("second"));
}

#[test]
fn missing_terminator_is_a_protocol_error() {
    let buf = bytes(b"GET / HTTP/1.1\r\nHost: ex");
    assert_eq!(
        decode_request(&buf, "p").unwrap_err(),
        ProtocolError::UnterminatedHead
    );
}

#[test]
fn empty_buffer_is_a_protocol_error() {
    let buf = bytes(b"");
    assert_eq!(
        decode_request(&buf, "p").unwrap_err(),
        ProtocolError::UnterminatedHead
    );
}

#[test]
fn unknown_method_is_rejected() {
    let buf = bytes(b"FROB / HTTP/1.1\r\n\r\n");
    assert_eq!(
        decode_request(&buf, "p").unwrap_err(),
        ProtocolError::UnknownMethod
    );
}

#[test]
fn empty_request_line_is_rejected() {
    let buf = bytes(b"\r\n\r\n");
    assert_eq!(
        decode_request(&buf, "p").unwrap_err(),
        ProtocolError::MissingMethod
    );
}

#[test]
fn non_ascii_head_is_rejected() {
    let buf = bytes(b"GET /caf\xc3\xa9 HTTP/1.1\r\n\r\n");
    assert_eq!(
        decode_request(&buf, "p").unwrap_err(),
        ProtocolError::HeadNotAscii
    );
}

#[test]
fn short_body_is_rejected() {
    let buf = bytes(b"POST / HTTP/1.1\r\nContent-Length: 10\r\n\r\nabc");
    assert_eq!(
        decode_request(&buf, "p").unwrap_err(),
        ProtocolError::IncompleteBody
    );
}

#[test]
fn unparsable_content_length_means_empty_body() {
    let buf = bytes(b"POST / HTTP/1.1\r\nContent-Length: nope\r\n\r\n");
    let req = decode_request(&buf, "p").unwrap();
    assert_eq!(req.body.len(), 0);
}

#[test]
fn body_bytes_beyond_content_length_are_ignored() {
    let buf = bytes(b"POST / HTTP/1.1\r\nContent-Length: 3\r\n\r\nabcdef");
    let req = decode_request(&buf, "p").unwrap();
    assert_eq!(req.body, b"abc".to_vec());
}

#[test]
fn missing_target_defaults_to_root() {
    let buf = bytes(b"GET\r\n\r\n");
    let req = decode_request(&buf, "p").unwrap();
    assert_eq!(req.route, "/");
}

#[test]
fn utf8_body_decodes_as_text() {
    let buf = bytes(b"POST / HTTP/1.1\r\nContent-Length: 6\r\n\r\nh\xc3\xa9llo");
    let req = decode_request(&buf, "p").unwrap();
    assert_eq!(req.text(), Some("h\u{e9}llo".to_string()));
}

#[test]
fn invalid_utf8_body_is_not_text() {
    let buf = bytes(b"POST / HTTP/1.1\r\nContent-Length: 2\r\n\r\n\xff\xfe");
    let req = decode_request(&buf, "p").unwrap();
    assert_eq!(req.text(), None);
}

#[test]
fn fresh_request_has_no_path_params() {
    let buf = bytes(b"GET /a/b HTTP/1.1\r\n\r\n");
    let req = decode_request(&buf, "p").unwrap();
    assert_eq!(req.param("a"), None);
}

#[test]
fn protocol_errors_answer_400() {
    let r = cf::request::protocol_error_response(ProtocolError::UnknownMethod).finalize();
    assert_eq!(r.status, StatusCode::BadRequest);
    assert_eq!(r.headers.get("Content-Length").map(|s| s.as_str()), Some("15"));
    match &r.body {
        Some(cf::response::Body::Text(s)) => assert_eq!(s, "400 Bad Request"),
        _ => panic!("expected a text body"),
    }
}

#[test]
fn method_tokens_round_trip() {
    for (token, m) in [
        ("GET", Method::GET),
        ("POST", Method::POST),
        ("HEAD", Method::HEAD),
        ("OPTIONS", Method::OPTIONS),
        ("PUT", Method::PUT),
        ("PATCH", Method::PATCH),
        ("DELETE", Method::DELETE),
    ] {
        assert_eq!(Method::from_str(token), Ok(m));
        assert_eq!(m.to_string(), token);
    }
    assert_eq!(Method::from_str("get"), Err(ParseMethodError));
    assert_eq!(Method::from_str(""), Err(ParseMethodError));
}

#[test]
fn status_codes_render_their_reason_phrases() {
    assert_eq!(StatusCode::OK.as_str(), "200 OK");
    assert_eq!(StatusCode::NotFound.as_str(), "404 Not Found");
    assert_eq!(StatusCode::ImATeapot.as_str(), "418 I'm a teapot");
    assert_eq!(StatusCode::OK.code(), 200);
    assert_eq!(StatusCode::HttpVersionNotSupported.code(), 505);
    assert_eq!(StatusCode::from_code(404), StatusCode::NotFound);
    assert_eq!(StatusCode::from_code(999), StatusCode::InternalServerError);
}

#[test]
fn content_types_are_guessed_from_extensions() {
    assert_eq!(cf::guess_content_type("index.html"), "text/html; charset=utf-8");
    assert_eq!(cf::guess_content_type("a/b/logo.png"), "image/png");
    assert_eq!(cf::guess_content_type("style.css"), "text/css; charset=utf-8");
    assert_eq!(cf::guess_content_type("doc.pdf"), "application/pdf");
    assert_eq!(cf::guess_content_type("noext"), "application/octet-stream");
    assert_eq!(cf::guess_content_type(".bashrc"), "application/octet-stream");
    assert_eq!(cf::guess_content_type("dir.d/file"), "application/octet-stream");
}

#[test]
fn decimal_and_hex_rendering_are_exact() {
    assert_eq!(dec_string(0), "0");
    assert_eq!(dec_string(1234), "1234");
    assert_eq!(hex_string(0), "0");
    assert_eq!(hex_string(255), "FF");
    assert_eq!(hex_string(26), "1A");
}

#[test]
fn decimal_parsing_is_exact() {
    assert_eq!(parse_dec("42"), Some(42));
    assert_eq!(parse_dec("0"), Some(0));
    assert_eq!(parse_dec(""), None);
    assert_eq!(parse_dec("4a"), None);
    assert_eq!(parse_dec("-1"), None);
    assert_eq!(parse_dec("99999999999999999999999999"), None);
}

#[test]
fn ascii_helpers_behave() {
    assert_eq!(ascii_lower("Content-TYPE"), "content-type");
    assert_eq!(ascii_lower("h\u{e9}llo"), "h\u{e9}llo");
    assert!(str_eq("abc", "abc"));
    assert!(!str_eq("abc", "abd"));
    assert!(!str_eq("abc", "ab"));
}
