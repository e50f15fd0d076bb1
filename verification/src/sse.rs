//! Server-Sent Events, layered over chunked transfer: an event frame is a
//! block of `event:`, `data:`, `id:`, `retry:` and comment lines ended by
//! a blank line, and is sent as one chunk of a streamed body.

use vstd::prelude::*;
use crate::meta::StatusCode;
use crate::response::{Body, BodyView, RespView, Response};
use crate::strmap::StrMap;
use crate::text::{dec_chars, dec_string};

verus! {

/// Builds one event frame line by line. The frame is taken with
/// [`SseSender::take_frame`] and sent as a single chunk by whoever owns
/// the connection.
pub struct SseSender {
    buf: String,
}

impl View for SseSender {
    type V = Seq<char>;

    closed spec fn view(&self) -> Seq<char> {
        self.buf@
    }
}

/// How sending a frame ended: written, ended by the peer hanging up
/// (benign), or failed.
#[derive(Debug, PartialEq, Eq, Structural, Clone, Copy)]
pub enum SseSendResult {
    Sent,
    Disconnected,
    Failed,
}

impl SseSender {
    /// An empty frame.
    pub fn new() -> (r: SseSender)
        ensures
            r@ == Seq::<char>::empty(),
    {
        SseSender { buf: String::new() }
    }

    /// Adds an `event:` line naming the event type.
    pub fn event(&mut self, name: &str)
        ensures
            final(self)@ == old(self)@ + "event: "@ + name@ + "\n"@,
    {
        self.buf.append("event: ");
        self.buf.append(name);
        self.buf.append("\n");
    }

    /// Adds a `data:` line.
    pub fn data(&mut self, data: &str)
        ensures
            final(self)@ == old(self)@ + "data: "@ + data@ + "\n"@,
    {
        self.buf.append("data: ");
        self.buf.append(data);
        self.buf.append("\n");
    }

    /// Adds an `id:` line.
    pub fn id(&mut self, id: &str)
        ensures
            final(self)@ == old(self)@ + "id: "@ + id@ + "\n"@,
    {
        self.buf.append("id: ");
        self.buf.append(id);
        self.buf.append("\n");
    }

    /// Adds a `retry:` line with a reconnection delay in milliseconds.
    pub fn retry(&mut self, ms: u64)
        ensures
            final(self)@ == old(self)@ + "retry: "@ + dec_chars(ms as int) + "\n"@,
    {
        self.buf.append("retry: ");
        let d = dec_string(ms);
        self.buf.append(d.as_str());
        self.buf.append("\n");
    }

    /// Adds a heartbeat: a `ping` event with `heartbeat` data.
    pub fn ping(&mut self)
        ensures
            final(self)@ == old(self)@ + "event: "@ + "ping"@ + "\n"@ + "data: "@ + "heartbeat"@
                + "\n"@,
    {
        self.event("ping");
        self.data("heartbeat");
    }

    /// Adds a comment line.
    pub fn comment(&mut self, text: &str)
        ensures
            final(self)@ == old(self)@ + ": "@ + text@ + "\n"@,
    {
        self.buf.append(": ");
        self.buf.append(text);
        self.buf.append("\n");
    }

    /// Ends the frame with its blank line and hands it out, leaving the
    /// builder empty for the next frame.
    pub fn take_frame(&mut self) -> (r: String)
        ensures
            r@ == old(self)@ + "\n"@,
            final(self)@ == Seq::<char>::empty(),
    {
        self.buf.append("\n");
        let out = self.buf.clone();
        self.buf = String::new();
        out
    }
}

/// The frame for one data-only event.
pub fn sse_data_frame(data: &str) -> (r: String)
    ensures
        r@ == "data: "@ + data@ + "\n\n"@,
{
    let mut s = SseSender::new();
    s.data(data);
    let r = s.take_frame();
    assert(r@ =~= "data: "@ + data@ + "\n\n"@) by {
        reveal_strlit("\n");
        reveal_strlit("\n\n");
    }
    r
}

/// The frame for one named event with data.
pub fn sse_event_frame(name: &str, data: &str) -> (r: String)
    ensures
        r@ == "event: "@ + name@ + "\n"@ + "data: "@ + data@ + "\n\n"@,
{
    let mut s = SseSender::new();
    s.event(name);
    s.data(data);
    let r = s.take_frame();
    assert(r@ =~= "event: "@ + name@ + "\n"@ + "data: "@ + data@ + "\n\n"@) by {
        reveal_strlit("\n");
        reveal_strlit("\n\n");
    }
    r
}

impl Response {
    /// A Server-Sent Events response: an event stream in chunked framing,
    /// whose frames a producer writes. One request is served per
    /// connection, so no keep-alive header is set.
    pub fn sse() -> (r: Response)
        ensures
            r@ == (RespView {
                status: StatusCode::OK,
                headers: seq![
                    ("Content-Type"@, "text/event-stream"@),
                    ("Cache-Control"@, "no-cache"@),
                ],
                body: Some(BodyView::Stream),
            }),
    {
        proof {
            reveal_strlit("Content-Type");
            reveal_strlit("Cache-Control");
            assert("Content-Type"@.len() == 12);
            assert("Cache-Control"@.len() == 13);
        }
        let mut h = StrMap::new();
        h.insert("Content-Type".to_owned(), "text/event-stream".to_owned());
        proof {
            let one = seq![("Content-Type"@, "text/event-stream"@)];
            assert(crate::strmap::find_key(
                Seq::<(Seq<char>, Seq<char>)>::empty(),
                "Content-Type"@,
            ) < 0);
            assert(h@ =~= one);
            assert(one.drop_first() =~= Seq::<(Seq<char>, Seq<char>)>::empty());
            assert(crate::strmap::find_key(one.drop_first(), "Cache-Control"@) < 0);
            assert(crate::strmap::find_key(one, "Cache-Control"@) < 0);
        }
        h.insert("Cache-Control".to_owned(), "no-cache".to_owned());
        let r = Response { status: StatusCode::OK, headers: h, body: Some(Body::Stream) };
        assert(r@.headers =~= seq![
            ("Content-Type"@, "text/event-stream"@),
            ("Cache-Control"@, "no-cache"@),
        ]);
        r
    }
}

} // verus!
