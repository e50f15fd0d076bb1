use cf::meta::StatusCode;
use cf::middleware::{
    run_pipeline, CorsMiddleware, RequireHeaderMiddleware, TextHandler, TraceHandler,
    TraceMiddleware,
};
use cf::request::{decode_request, Context, Request};

fn fresh_request() -> Request {
    decode_request(&b"GET /x HTTP/1.1\r\n\r\n".to_vec(), "peer").unwrap()
}

#[test]
fn middleware_wraps_in_registration_order() {
    let mws = vec![
        TraceMiddleware { name: "A".to_string() },
        TraceMiddleware { name: "B".to_string() },
    ];
    let h = TraceHandler { mark: "H".to_string(), body: "done".to_string() };
    let mut req = fresh_request();
    let resp = run_pipeline(&mws, &h, &mut req);
    assert_eq!(resp.status, StatusCode::OK);
    assert_eq!(
        req.context.get("trace"),
        Some("A-enter,B-enter,H,B-exit,A-exit,".to_string())
    );
}

#[test]
fn missing_header_short_circuits_with_401() {
    let mws = vec![RequireHeaderMiddleware { name: "x-token".to_string() }];
    let h = TextHandler { body: "secret".to_string() };
    let mut req = fresh_request();
    let resp = run_pipeline(&mws, &h, &mut req);
    assert_eq!(resp.status, StatusCode::Unauthorized);
}

#[test]
fn present_header_passes_the_gate() {
    let mws = vec![RequireHeaderMiddleware { name: "x-token".to_string() }];
    let h = TextHandler { body: "secret".to_string() };
    let mut req =
        decode_request(&b"GET /x HTTP/1.1\r\nX-Token: t\r\n\r\n".to_vec(), "peer").unwrap();
    let resp = run_pipeline(&mws, &h, &mut req);
    assert_eq!(resp.status, StatusCode::OK);
}

#[test]
fn single_middleware_traces_around_the_handler() {
    let mws = vec![TraceMiddleware { name: "A".to_string() }];
    let h = TraceHandler { mark: "H".to_string(), body: "in".to_string() };
    let mut req = fresh_request();
    let resp = run_pipeline(&mws, &h, &mut req);
    assert_eq!(resp.status, StatusCode::OK);
    assert_eq!(req.context.get("trace"), Some("A-enter,H,A-exit,".to_string()));
}

#[test]
fn cors_headers_are_added_on_the_way_out() {
    let mws = vec![CorsMiddleware];
    let h = TextHandler { body: "hi".to_string() };
    let mut req = fresh_request();
    let resp = run_pipeline(&mws, &h, &mut req);
    assert_eq!(
        resp.headers.get("Access-Control-Allow-Origin").map(|s| s.as_str()),
        Some("*")
    );
    assert_eq!(
        resp.headers.get("Access-Control-Expose-Headers").map(|s| s.as_str()),
        Some("Content-Type")
    );
}

#[test]
fn context_values_flow_from_middleware_to_handler() {
    let mut req = fresh_request();
    req.context.set("user", "alice");
    assert_eq!(req.context.get("user"), Some("alice".to_string()));
    req.context.set("user", "bob");
    assert_eq!(req.context.get("user"), Some("bob".to_string()));
}

#[test]
fn context_is_isolated_between_requests() {
    let mut r1 = fresh_request();
    let r2 = fresh_request();
    r1.context.set("k", "v");
    assert_eq!(r1.context.get("k"), Some("v".to_string()));
    assert_eq!(r2.context.get("k"), None);
}

#[test]
fn a_fresh_context_is_empty() {
    let ctx = Context::new();
    assert_eq!(ctx.get("anything"), None);
}
