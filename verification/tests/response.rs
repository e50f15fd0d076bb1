use cf::meta::StatusCode;
use cf::response::{encode_chunk, encode_chunks, last_chunk, Body, Response};
use cf::sse::{sse_data_frame, sse_event_frame, SseSender};

#[test]
fn finalize_computes_content_length_once() {
    let r = Response::text("hello").finalize();
    assert_eq!(r.headers.get("Content-Length").map(|s| s.as_str()), Some("5"));
    let twice = r.finalize();
    assert_eq!(twice.headers.get("Content-Length").map(|s| s.as_str()), Some("5"));
    assert_eq!(twice.headers.len(), 2);
}

#[test]
fn finalize_counts_bytes_not_characters() {
    let r = Response::text("h\u{e9}llo").finalize();
    assert_eq!(r.headers.get("Content-Length").map(|s| s.as_str()), Some("6"));
}

#[test]
fn explicit_content_length_is_never_recomputed() {
    let r = Response::text("hi").header("Content-Length", "99").finalize();
    assert_eq!(r.headers.get("Content-Length").map(|s| s.as_str()), Some("99"));
    let twice = r.finalize();
    assert_eq!(twice.headers.get("Content-Length").map(|s| s.as_str()), Some("99"));
}

#[test]
fn finalize_leaves_stream_and_empty_bodies_alone() {
    let s = Response::stream().finalize();
    assert_eq!(s.headers.get("Content-Length"), None);
    let e = Response::empty().finalize();
    assert_eq!(e.headers.get("Content-Length"), None);
}

#[test]
fn serialization_is_exact() {
    let bytes = Response::text("hi").finalize().to_bytes();
    assert_eq!(
        bytes,
        b"HTTP/1.1 200 OK\r\nContent-Type: text/plain\r\nContent-Length: 2\r\n\r\nhi".to_vec()
    );
}

#[test]
fn empty_response_serializes_headers_only() {
    let bytes = Response::empty().to_bytes();
    assert_eq!(bytes, b"HTTP/1.1 204 No Content\r\n\r\n".to_vec());
}

#[test]
fn error_responses_carry_their_reason() {
    let r = Response::error(StatusCode::ImATeapot);
    assert_eq!(r.status, StatusCode::ImATeapot);
    match &r.body {
        Some(Body::Text(s)) => assert_eq!(s, "418 I'm a teapot"),
        _ => panic!("expected a text body"),
    }
}

#[test]
fn bytes_responses_keep_their_content_type() {
    let r = Response::bytes(vec![1, 2, 3], "application/octet-stream").finalize();
    assert_eq!(r.headers.get("Content-Length").map(|s| s.as_str()), Some("3"));
    let out = r.to_bytes();
    assert!(out.ends_with(&[1, 2, 3]));
}

#[test]
fn header_replaces_in_place() {
    let r = Response::text("x").header("Content-Type", "text/markdown");
    assert_eq!(r.headers.get("Content-Type").map(|s| s.as_str()), Some("text/markdown"));
    assert_eq!(r.headers.len(), 1);
}

#[test]
fn default_response_is_empty_text() {
    let r = Response::default();
    assert_eq!(r.status, StatusCode::OK);
    match &r.body {
        Some(Body::Text(s)) => assert_eq!(s, ""),
        _ => panic!("expected a text body"),
    }
}

#[test]
fn chunks_are_hex_length_prefixed() {
    assert_eq!(encode_chunk(&b"hello".to_vec()), b"5\r\nhello\r\n".to_vec());
    assert_eq!(
        encode_chunk(&b"abcdefghijklmnopqrstuvwxyz".to_vec()),
        b"1A\r\nabcdefghijklmnopqrstuvwxyz\r\n".to_vec()
    );
    assert_eq!(encode_chunk(&Vec::new()), b"0\r\n\r\n".to_vec());
    assert_eq!(last_chunk(), b"0\r\n\r\n".to_vec());
}

#[test]
fn three_chunks_serialize_with_a_terminator() {
    let chunks = vec![b"one".to_vec(), b"two".to_vec(), b"three".to_vec()];
    let out = encode_chunks(&chunks);
    assert_eq!(
        out,
        b"3\r\none\r\n3\r\ntwo\r\n5\r\nthree\r\n0\r\n\r\n".to_vec()
    );
}

#[test]
fn no_chunks_is_just_the_terminator() {
    let out = encode_chunks(&Vec::new());
    assert_eq!(out, b"0\r\n\r\n".to_vec());
}

#[test]
fn stream_responses_declare_chunked_framing() {
    let r = Response::stream();
    assert_eq!(r.headers.get("Transfer-Encoding").map(|s| s.as_str()), Some("chunked"));
    assert_eq!(r.headers.get("Content-Type").map(|s| s.as_str()), Some("text/plain"));
    assert!(matches!(r.body, Some(Body::Stream)));
}

#[test]
fn sse_responses_declare_an_event_stream() {
    let r = Response::sse();
    assert_eq!(
        r.headers.get("Content-Type").map(|s| s.as_str()),
        Some("text/event-stream")
    );
    assert_eq!(r.headers.get("Cache-Control").map(|s| s.as_str()), Some("no-cache"));
    assert!(matches!(r.body, Some(Body::Stream)));
}

#[test]
fn sse_frames_end_with_a_blank_line() {
    assert_eq!(sse_data_frame("hello"), "data: hello\n\n");
    assert_eq!(sse_event_frame("tick", "1"), "event: tick\ndata: 1\n\n");
}

#[test]
fn sse_sender_builds_frames_line_by_line() {
    let mut s = SseSender::new();
    s.event("update");
    s.id("7");
    s.data("payload");
    s.retry(1500);
    s.comment("note");
    let frame = s.take_frame();
    assert_eq!(
        frame,
        "event: update\nid: 7\ndata: payload\nretry: 1500\n: note\n\n"
    );
    let mut s2 = s;
    s2.ping();
    assert_eq!(s2.take_frame(), "event: ping\ndata: heartbeat\n\n");
}

#[test]
fn sse_frame_is_one_chunk() {
    let frame = sse_data_frame("hi");
    let chunk = encode_chunk(&frame.into_bytes());
    assert_eq!(chunk, b"A\r\ndata: hi\n\n\r\n".to_vec());
}
