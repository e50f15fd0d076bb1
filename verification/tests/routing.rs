use cf::meta::{Method, StatusCode};
use cf::middleware::{handle_request, TextHandler, TraceMiddleware};
use cf::request::decode_request;
use cf::server::{split_path, RouteTable};

fn get(path: &str) -> cf::request::Request {
    let mut buf = b"GET ".to_vec();
    buf.extend_from_slice(path.as_bytes());
    buf.extend_from_slice(b" HTTP/1.1\r\n\r\n");
    decode_request(&buf, "peer").unwrap()
}

fn table(routes: &[(Method, &str, &str)]) -> RouteTable<TextHandler> {
    let mut t = RouteTable::new();
    for (m, pattern, body) in routes {
        t.add_route(*m, pattern, TextHandler { body: body.to_string() });
    }
    t
}

fn no_middleware() -> Vec<TraceMiddleware> {
    Vec::new()
}

#[test]
fn literal_routes_match_exactly() {
    let t = table(&[(Method::GET, "/hello", "hi")]);
    let parts = split_path("/hello");
    let (i, params) = t.resolve(Method::GET, &parts).unwrap();
    assert_eq!(i, 0);
    assert_eq!(params.len(), 0);
    assert!(t.resolve(Method::GET, &split_path("/other")).is_none());
    assert!(t.resolve(Method::GET, &split_path("/hello/extra")).is_none());
    assert!(t.resolve(Method::POST, &parts).is_none());
}

#[test]
fn segment_counts_must_agree() {
    let t = table(&[(Method::GET, "/a/{x}/c", "r")]);
    assert!(t.resolve(Method::GET, &split_path("/a/b/c")).is_some());
    assert!(t.resolve(Method::GET, &split_path("/a/b")).is_none());
    assert!(t.resolve(Method::GET, &split_path("/a/b/c/d")).is_none());
}

#[test]
fn params_bind_left_to_right_by_name() {
    let t = table(&[(Method::GET, "/users/{id}/posts/{post}", "r")]);
    let (_, params) = t.resolve(Method::GET, &split_path("/users/7/posts/99")).unwrap();
    assert_eq!(params.get("id").map(|s| s.as_str()), Some("7"));
    assert_eq!(params.get("post").map(|s| s.as_str()), Some("99"));
    assert_eq!(params.get("other"), None);
}

#[test]
fn first_registered_route_wins() {
    let t = table(&[
        (Method::GET, "/users/{id}", "param"),
        (Method::GET, "/users/static", "literal"),
    ]);
    let (i, params) = t.resolve(Method::GET, &split_path("/users/static")).unwrap();
    assert_eq!(i, 0);
    assert_eq!(params.get("id").map(|s| s.as_str()), Some("static"));
}

#[test]
fn leading_slashes_are_trimmed_when_splitting() {
    assert_eq!(split_path("/a/b"), vec!["a".to_string(), "b".to_string()]);
    assert_eq!(split_path("//a"), vec!["a".to_string()]);
    assert_eq!(split_path("/"), vec![String::new()]);
    assert_eq!(split_path("a//b"), vec!["a".to_string(), String::new(), "b".to_string()]);
}

#[test]
fn matched_handler_runs_with_bound_params() {
    let t = table(&[(Method::GET, "/users/{id}", "found you")]);
    let mws = no_middleware();
    let mut req = get("/users/42");
    let resp = handle_request(&t, &mws, &mut req);
    assert_eq!(resp.status, StatusCode::OK);
    assert_eq!(req.param("id"), Some("42"));
    match resp.body {
        Some(cf::response::Body::Text(s)) => assert_eq!(s, "found you"),
        _ => panic!("expected a text body"),
    }
}

#[test]
fn unregistered_pair_yields_404_with_no_params() {
    let t = table(&[(Method::GET, "/hello", "hi")]);
    let mws = no_middleware();
    let mut req = get("/nope");
    let resp = handle_request(&t, &mws, &mut req);
    assert_eq!(resp.status, StatusCode::NotFound);
    assert_eq!(req.param("id"), None);
    match resp.body {
        Some(cf::response::Body::Text(s)) => assert_eq!(s, "404 Not Found"),
        _ => panic!("expected a text body"),
    }
}

#[test]
fn method_mismatch_yields_404() {
    let t = table(&[(Method::POST, "/submit", "ok")]);
    let mws = no_middleware();
    let mut req = get("/submit");
    let resp = handle_request(&t, &mws, &mut req);
    assert_eq!(resp.status, StatusCode::NotFound);
}
