//! Handlers, middleware, and the pipeline that composes them.
//!
//! A handler is a capability with one method: handle a request, produce a
//! response. Middleware wraps the chain with an enter phase, run in
//! registration order before the handler, and a leave phase, run in
//! reverse order on the way back; entering may short-circuit the chain
//! with an early response, in which case only the middleware further out
//! see that response on their way back. Both phases may read and write
//! the request's context. The pipeline performs no I/O.

use vstd::prelude::*;
use crate::meta::StatusCode;
use crate::request::{ReqView, Request};
use crate::response::{BodyView, RespView, Response};
use crate::server::{bind_params, segs_view, spec_path_parts, split_path, RouteTable};
use crate::strmap::{spec_insert, StrMap};

verus! {

/// A handler: one capability that turns a request into a response. Its
/// effect is pinned by two model functions, so that everything composed
/// around it can be reasoned about.
pub trait Handler: Sized {
    /// What handling leaves of the request (context writes included).
    spec fn req_model(&self, req: ReqView) -> ReqView;

    /// The response handling produces.
    spec fn resp_model(&self, req: ReqView) -> RespView;

    /// Handles a request.
    fn handle(&self, req: &mut Request) -> (r: Response)
        ensures
            final(req)@ == self.req_model(old(req)@),
            r@ == self.resp_model(old(req)@),
    ;
}

/// Middleware: a wrapper around the rest of the chain, with an enter
/// phase that may short-circuit and a leave phase that sees the response
/// on its way out.
pub trait Middleware: Sized {
    /// What entering leaves of the request.
    spec fn enter_req(&self, req: ReqView) -> ReqView;

    /// The early response entering produces when it short-circuits.
    spec fn enter_cut(&self, req: ReqView) -> Option<RespView>;

    /// What leaving leaves of the request.
    spec fn leave_req(&self, req: ReqView, resp: RespView) -> ReqView;

    /// What leaving makes of the response.
    spec fn leave_resp(&self, req: ReqView, resp: RespView) -> RespView;

    /// Runs before the inner chain; a response short-circuits the chain.
    fn enter(&self, req: &mut Request) -> (r: Option<Response>)
        ensures
            final(req)@ == self.enter_req(old(req)@),
            match r {
                Some(resp) => self.enter_cut(old(req)@) == Some(resp@),
                None => self.enter_cut(old(req)@) is None,
            },
    ;

    /// Runs after the inner chain, on the response flowing back out.
    fn leave(&self, req: &mut Request, resp: Response) -> (r: Response)
        ensures
            final(req)@ == self.leave_req(old(req)@, resp@),
            r@ == self.leave_resp(old(req)@, resp@),
    ;
}

/// What the pipeline computes: requests flow through the middleware in
/// registration order, then the handler runs, then responses flow back in
/// reverse order; a middleware that short-circuits skips everything
/// further in, its own leave phase included.
pub open spec fn pipeline_model<M: Middleware, H: Handler>(mws: Seq<M>, h: H, req: ReqView) -> (
    ReqView,
    RespView,
)
    decreases mws.len(),
{
    if mws.len() == 0 {
        (h.req_model(req), h.resp_model(req))
    } else {
        let m = mws[0];
        let entered = m.enter_req(req);
        match m.enter_cut(req) {
            Some(resp) => (entered, resp),
            None => {
                let rec = pipeline_model(mws.drop_first(), h, entered);
                (m.leave_req(rec.0, rec.1), m.leave_resp(rec.0, rec.1))
            },
        }
    }
}

fn run_from<M: Middleware, H: Handler>(mws: &Vec<M>, i: usize, h: &H, req: &mut Request) -> (r:
    Response)
    requires
        i <= mws@.len(),
    ensures
        ({
            let pm = pipeline_model(mws@.skip(i as int), *h, old(req)@);
            final(req)@ == pm.0 && r@ == pm.1
        }),
    decreases mws@.len() - i,
{
    if i == mws.len() {
        assert(mws@.skip(i as int) =~= Seq::<M>::empty());
        h.handle(req)
    } else {
        proof {
            assert(mws@.skip(i as int)[0] == mws@[i as int]);
            assert(mws@.skip(i as int).drop_first() =~= mws@.skip(i + 1));
        }
        let m = &mws[i];
        match m.enter(req) {
            Some(resp) => resp,
            None => {
                let inner = run_from(mws, i + 1, h, req);
                m.leave(req, inner)
            },
        }
    }
}

/// Runs the middleware chain around a handler: enter phases in order,
/// the handler, leave phases in reverse order.
pub fn run_pipeline<M: Middleware, H: Handler>(mws: &Vec<M>, h: &H, req: &mut Request) -> (r:
    Response)
    ensures
        ({
            let pm = pipeline_model(mws@, *h, old(req)@);
            final(req)@ == pm.0 && r@ == pm.1
        }),
{
    let r = run_from(mws, 0, h, req);
    proof {
        assert(mws@.skip(0) =~= mws@);
    }
    r
}

/// Middleware ordering, spelled out for two middleware around a handler:
/// when neither short-circuits, the events run outer-enter, inner-enter,
/// handler, inner-leave, outer-leave, and the response is the handler's,
/// transformed by the inner leave, then the outer leave.
pub proof fn lemma_pipeline_two<M: Middleware, H: Handler>(a: M, b: M, h: H, req: ReqView)
    requires
        a.enter_cut(req) is None,
        b.enter_cut(a.enter_req(req)) is None,
    ensures
        ({
            let r1 = a.enter_req(req);
            let r2 = b.enter_req(r1);
            let hresp = h.resp_model(r2);
            let r3 = h.req_model(r2);
            let bresp = b.leave_resp(r3, hresp);
            let r4 = b.leave_req(r3, hresp);
            pipeline_model(seq![a, b], h, req) == (a.leave_req(r4, bresp), a.leave_resp(r4, bresp))
        }),
{
    let s = seq![a, b];
    let entered = a.enter_req(req);
    assert(s[0] == a);
    assert(s.drop_first() =~= seq![b]);
    assert(seq![b][0] == b);
    assert(seq![b].drop_first() =~= Seq::<M>::empty());
    let rec2 = pipeline_model(Seq::<M>::empty(), h, b.enter_req(entered));
    assert(rec2 == (h.req_model(b.enter_req(entered)), h.resp_model(b.enter_req(entered))));
    let rec1 = pipeline_model(seq![b], h, entered);
    assert(rec1 == (b.leave_req(rec2.0, rec2.1), b.leave_resp(rec2.0, rec2.1)));
    let rec0 = pipeline_model(s, h, req);
    assert(rec0 == (a.leave_req(rec1.0, rec1.1), a.leave_resp(rec1.0, rec1.1)));
}

/// The handler a failed resolution synthesizes: it answers 404.
pub struct NotFoundHandler;

/// The response the engine gives when no route matches.
pub open spec fn spec_not_found() -> RespView {
    RespView {
        status: StatusCode::NotFound,
        headers: seq![("Content-Type"@, "text/plain"@)],
        body: Some(BodyView::Text("404 Not Found"@)),
    }
}

impl Handler for NotFoundHandler {
    open spec fn req_model(&self, req: ReqView) -> ReqView {
        req
    }

    open spec fn resp_model(&self, req: ReqView) -> RespView {
        spec_not_found()
    }

    fn handle(&self, req: &mut Request) -> (r: Response) {
        Response::error(StatusCode::NotFound)
    }
}

/// A handler answering fixed plain text; useful on its own and as the
/// innermost element of a composed chain.
pub struct TextHandler {
    pub body: String,
}

impl Handler for TextHandler {
    open spec fn req_model(&self, req: ReqView) -> ReqView {
        req
    }

    open spec fn resp_model(&self, req: ReqView) -> RespView {
        RespView {
            status: StatusCode::OK,
            headers: seq![("Content-Type"@, "text/plain"@)],
            body: Some(BodyView::Text(self.body@)),
        }
    }

    fn handle(&self, req: &mut Request) -> (r: Response) {
        Response::text(self.body.as_str())
    }
}

/// The context after an event is appended to its trace entry: the entry
/// grows by the event's mark and a comma.
pub open spec fn trace_appended(ctx: Map<Seq<char>, Seq<char>>, mark: Seq<char>) -> Map<
    Seq<char>,
    Seq<char>,
> {
    let cur = if ctx.contains_key("trace"@) {
        ctx["trace"@]
    } else {
        Seq::empty()
    };
    ctx.insert("trace"@, cur + mark + ","@)
}

/// Appends a mark to the request's trace entry.
fn append_trace(req: &mut Request, mark: &str)
    ensures
        final(req)@ == (ReqView { context: trace_appended(old(req)@.context, mark@), ..old(req)@ }),
{
    let mut cur: String = match req.context.get("trace") {
        Some(v) => v,
        None => String::new(),
    };
    cur.append(mark);
    cur.append(",");
    req.context.set("trace", cur.as_str());
}

/// A handler that records its run in the context's trace entry and
/// answers fixed plain text; the innermost event of an observed chain.
pub struct TraceHandler {
    pub mark: String,
    pub body: String,
}

impl Handler for TraceHandler {
    open spec fn req_model(&self, req: ReqView) -> ReqView {
        ReqView { context: trace_appended(req.context, self.mark@), ..req }
    }

    open spec fn resp_model(&self, req: ReqView) -> RespView {
        RespView {
            status: StatusCode::OK,
            headers: seq![("Content-Type"@, "text/plain"@)],
            body: Some(BodyView::Text(self.body@)),
        }
    }

    fn handle(&self, req: &mut Request) -> (r: Response) {
        append_trace(req, self.mark.as_str());
        Response::text(self.body.as_str())
    }
}

/// Middleware that records its enter and leave events in the context's
/// trace entry, and passes request and response through unchanged: the
/// observer with which ordering becomes visible.
pub struct TraceMiddleware {
    pub name: String,
}

impl Middleware for TraceMiddleware {
    open spec fn enter_req(&self, req: ReqView) -> ReqView {
        ReqView { context: trace_appended(req.context, self.name@ + "-enter"@), ..req }
    }

    open spec fn enter_cut(&self, req: ReqView) -> Option<RespView> {
        None
    }

    open spec fn leave_req(&self, req: ReqView, resp: RespView) -> ReqView {
        ReqView { context: trace_appended(req.context, self.name@ + "-exit"@), ..req }
    }

    open spec fn leave_resp(&self, req: ReqView, resp: RespView) -> RespView {
        resp
    }

    fn enter(&self, req: &mut Request) -> (r: Option<Response>) {
        let mut mark = self.name.clone();
        mark.append("-enter");
        append_trace(req, mark.as_str());
        None
    }

    fn leave(&self, req: &mut Request, resp: Response) -> (r: Response) {
        let mut mark = self.name.clone();
        mark.append("-exit");
        append_trace(req, mark.as_str());
        resp
    }
}

/// Middleware that short-circuits with 401 when the request lacks a
/// header of the given name; requests carrying it pass through untouched.
pub struct RequireHeaderMiddleware {
    pub name: String,
}

impl Middleware for RequireHeaderMiddleware {
    open spec fn enter_req(&self, req: ReqView) -> ReqView {
        req
    }

    open spec fn enter_cut(&self, req: ReqView) -> Option<RespView> {
        if req.headers.contains_key(crate::request::header_key(self.name@)) {
            None
        } else {
            Some(
                RespView {
                    status: StatusCode::Unauthorized,
                    headers: seq![("Content-Type"@, "text/plain"@)],
                    body: Some(BodyView::Text(StatusCode::Unauthorized.spec_text())),
                },
            )
        }
    }

    open spec fn leave_req(&self, req: ReqView, resp: RespView) -> ReqView {
        req
    }

    open spec fn leave_resp(&self, req: ReqView, resp: RespView) -> RespView {
        resp
    }

    fn enter(&self, req: &mut Request) -> (r: Option<Response>) {
        match req.header(self.name.as_str()) {
            Some(_) => None,
            None => Some(Response::error(StatusCode::Unauthorized)),
        }
    }

    fn leave(&self, req: &mut Request, resp: Response) -> (r: Response) {
        resp
    }
}

/// Middleware that adds the permissive cross-origin headers to every
/// response on its way out.
pub struct CorsMiddleware;

impl Middleware for CorsMiddleware {
    open spec fn enter_req(&self, req: ReqView) -> ReqView {
        req
    }

    open spec fn enter_cut(&self, req: ReqView) -> Option<RespView> {
        None
    }

    open spec fn leave_req(&self, req: ReqView, resp: RespView) -> ReqView {
        req
    }

    open spec fn leave_resp(&self, req: ReqView, resp: RespView) -> RespView {
        RespView {
            headers: spec_insert(
                spec_insert(resp.headers, "Access-Control-Allow-Origin"@, "*"@),
                "Access-Control-Expose-Headers"@,
                "Content-Type"@,
            ),
            ..resp
        }
    }

    fn enter(&self, req: &mut Request) -> (r: Option<Response>) {
        None
    }

    fn leave(&self, req: &mut Request, resp: Response) -> (r: Response) {
        resp.header("Access-Control-Allow-Origin", "*").header(
            "Access-Control-Expose-Headers",
            "Content-Type",
        )
    }
}

/// Resolves the request against the table, binds path parameters (none
/// when nothing matches), and runs the middleware chain around the
/// resolved handler — or around the synthesized 404 handler.
pub fn handle_request<M: Middleware, H: Handler>(
    table: &RouteTable<H>,
    mws: &Vec<M>,
    req: &mut Request,
) -> (r: Response)
    ensures
        ({
            let parts = spec_path_parts(old(req)@.route);
            let idx = crate::server::spec_resolve(table.routes@, old(req)@.method, parts);
            if idx >= 0 {
                let bound = ReqView {
                    path_params: bind_params(
                        segs_view(table.routes@[idx].1.segments@),
                        parts,
                    ),
                    ..old(req)@
                };
                let pm = pipeline_model(mws@, table.routes@[idx].1.handler, bound);
                final(req)@ == pm.0 && r@ == pm.1
            } else {
                let bound = ReqView {
                    path_params: Map::<Seq<char>, Seq<char>>::empty(),
                    ..old(req)@
                };
                let pm = pipeline_model(mws@, NotFoundHandler, bound);
                final(req)@ == pm.0 && r@ == pm.1
            }
        }),
{
    proof {
        crate::server::lemma_spec_resolve(table.routes@, old(req)@.method, spec_path_parts(
            old(req)@.route,
        ));
    }
    let parts = split_path(req.route.as_str());
    match table.resolve(req.method, &parts) {
        Some((i, params)) => {
            req.path_params = params;
            let h = table.handler_at(i);
            run_pipeline(mws, h, req)
        },
        None => {
            req.path_params = StrMap::new();
            let h = NotFoundHandler;
            run_pipeline(mws, &h, req)
        },
    }
}

} // verus!
