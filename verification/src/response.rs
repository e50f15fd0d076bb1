//! The response side of the engine: the response record, finalization of
//! `Content-Length`, serialization of the status line, headers and fixed
//! bodies, and the chunked transfer framing used by streamed bodies.

use vstd::prelude::*;
use vstd::utf8::encode_utf8;
use crate::meta::StatusCode;
use crate::parse::copy_range;
use crate::strmap::{assoc_map, spec_insert, StrMap, lemma_insert_assoc};
use crate::text::{dec_chars, dec_string, hex_chars, hex_string};

verus! {

broadcast use vstd::string::group_string_axioms;

/// The mathematical shape of a response body.
pub ghost enum BodyView {
    /// UTF-8 text.
    Text(Seq<char>),
    /// Opaque bytes.
    Bytes(Seq<u8>),
    /// A body that a producer writes incrementally in chunked framing;
    /// it carries no bytes of its own here.
    Stream,
}

/// A response body: text, opaque bytes, or a stream. The engine
/// serializes only the head of a streamed response; the connection is
/// then handed to the producer, which frames its chunks with
/// [`encode_chunk`] and ends with [`last_chunk`].
#[derive(Debug)]
pub enum Body {
    Text(String),
    Bytes(Vec<u8>),
    Stream,
}

impl View for Body {
    type V = BodyView;

    open spec fn view(&self) -> BodyView {
        match self {
            Body::Text(s) => BodyView::Text(s@),
            Body::Bytes(b) => BodyView::Bytes(b@),
            Body::Stream => BodyView::Stream,
        }
    }
}

/// The mathematical shape of a response.
pub ghost struct RespView {
    pub status: StatusCode,
    pub headers: Seq<(Seq<char>, Seq<char>)>,
    pub body: Option<BodyView>,
}

/// One response under construction. Headers keep insertion order, which is
/// the order they are serialized in.
#[derive(Debug)]
pub struct Response {
    pub status: StatusCode,
    pub headers: StrMap,
    pub body: Option<Body>,
}

impl View for Response {
    type V = RespView;

    open spec fn view(&self) -> RespView {
        RespView {
            status: self.status,
            headers: self.headers@,
            body: match self.body {
                Some(b) => Some(b@),
                None => None,
            },
        }
    }
}

impl Response {
    /// A fresh OK response around a body, with no headers yet.
    fn new_with_body(body: Body) -> (r: Response)
        ensures
            r@ == (RespView {
                status: StatusCode::OK,
                headers: Seq::empty(),
                body: Some(body@),
            }),
    {
        Response { status: StatusCode::OK, headers: StrMap::new(), body: Some(body) }
    }

    /// A plain-text response.
    pub fn text(s: &str) -> (r: Response)
        ensures
            r@ == (RespView {
                status: StatusCode::OK,
                headers: seq![("Content-Type"@, "text/plain"@)],
                body: Some(BodyView::Text(s@)),
            }),
    {
        let r = Self::new_with_body(Body::Text(s.to_owned())).header("Content-Type", "text/plain");
        assert(r@.headers =~= seq![("Content-Type"@, "text/plain"@)]);
        r
    }

    /// An HTML response.
    pub fn html(s: &str) -> (r: Response)
        ensures
            r@ == (RespView {
                status: StatusCode::OK,
                headers: seq![("Content-Type"@, "text/html"@)],
                body: Some(BodyView::Text(s@)),
            }),
    {
        let r = Self::new_with_body(Body::Text(s.to_owned())).header("Content-Type", "text/html");
        assert(r@.headers =~= seq![("Content-Type"@, "text/html"@)]);
        r
    }

    /// A JSON response; the caller supplies already-encoded JSON text.
    pub fn json(s: &str) -> (r: Response)
        ensures
            r@ == (RespView {
                status: StatusCode::OK,
                headers: seq![("Content-Type"@, "application/json"@)],
                body: Some(BodyView::Text(s@)),
            }),
    {
        let r = Self::new_with_body(Body::Text(s.to_owned())).header(
            "Content-Type",
            "application/json",
        );
        assert(r@.headers =~= seq![("Content-Type"@, "application/json"@)]);
        r
    }

    /// An opaque-bytes response with an explicit content type.
    pub fn bytes(bytes: Vec<u8>, content_type: &str) -> (r: Response)
        ensures
            r@ == (RespView {
                status: StatusCode::OK,
                headers: seq![("Content-Type"@, content_type@)],
                body: Some(BodyView::Bytes(bytes@)),
            }),
    {
        let ghost bv = bytes@;
        let r = Self::new_with_body(Body::Bytes(bytes)).header("Content-Type", content_type);
        assert(r@.headers =~= seq![("Content-Type"@, content_type@)]);
        r
    }

    /// A streamed response: chunked transfer framing, written by a
    /// producer outside this crate. One request is served per connection,
    /// so no keep-alive header is set.
    pub fn stream() -> (r: Response)
        ensures
            r@ == (RespView {
                status: StatusCode::OK,
                headers: seq![
                    ("Transfer-Encoding"@, "chunked"@),
                    ("Cache-Control"@, "no-cache"@),
                    ("Content-Type"@, "text/plain"@),
                ],
                body: Some(BodyView::Stream),
            }),
    {
        proof {
            reveal_strlit("Transfer-Encoding");
            reveal_strlit("Cache-Control");
            reveal_strlit("Content-Type");
            reveal_with_fuel(crate::strmap::find_key, 4);
        }
        let r0 = Self::new_with_body(Body::Stream);
        let r1 = r0.header("Transfer-Encoding", "chunked");
        proof {
            assert(crate::strmap::find_key(Seq::<(Seq<char>, Seq<char>)>::empty(), "Transfer-Encoding"@) < 0);
            assert(r1@.headers =~= seq![("Transfer-Encoding"@, "chunked"@)]);
            assert("Cache-Control"@.len() == 13);
            assert("Transfer-Encoding"@.len() == 17);
            assert("Cache-Control"@ != "Transfer-Encoding"@);
            assert(crate::strmap::find_key(r1@.headers, "Cache-Control"@) < 0);
        }
        let r2 = r1.header("Cache-Control", "no-cache");
        proof {
            assert(r2@.headers =~= seq![
                ("Transfer-Encoding"@, "chunked"@),
                ("Cache-Control"@, "no-cache"@),
            ]);
            assert(crate::strmap::find_key(r2@.headers, "Content-Type"@) < 0);
        }
        let r = r2.header("Content-Type", "text/plain");
        assert(r@.headers =~= seq![
            ("Transfer-Encoding"@, "chunked"@),
            ("Cache-Control"@, "no-cache"@),
            ("Content-Type"@, "text/plain"@),
        ]);
        r
    }

    /// An empty response: no content, no body.
    pub fn empty() -> (r: Response)
        ensures
            r@ == (RespView {
                status: StatusCode::NoContent,
                headers: Seq::empty(),
                body: None,
            }),
    {
        let r = Response { status: StatusCode::NoContent, headers: StrMap::new(), body: None };
        assert(r@.headers =~= Seq::<(Seq<char>, Seq<char>)>::empty());
        r
    }

    /// An error response: the status line text as a plain-text body.
    pub fn error(status: StatusCode) -> (r: Response)
        ensures
            r@ == (RespView {
                status: status,
                headers: seq![("Content-Type"@, "text/plain"@)],
                body: Some(BodyView::Text(status.spec_text())),
            }),
    {
        Self::text(status.as_str()).status(status)
    }

    /// Replaces the status.
    #[must_use]
    pub fn status(self, status: StatusCode) -> (r: Response)
        ensures
            r@ == (RespView { status: status, ..self@ }),
    {
        Response { status, ..self }
    }

    /// Sets a header, replacing an earlier one with the same name in place.
    #[must_use]
    pub fn header(self, key: &str, val: &str) -> (r: Response)
        ensures
            r@ == (RespView { headers: spec_insert(self@.headers, key@, val@), ..self@ }),
    {
        let mut h = self.headers;
        h.insert(key.to_owned(), val.to_owned());
        Response { status: self.status, headers: h, body: self.body }
    }
}

impl Default for Response {
    /// The default response: empty plain text.
    fn default() -> (r: Response)
        ensures
            r@ == (RespView {
                status: StatusCode::OK,
                headers: seq![("Content-Type"@, "text/plain"@)],
                body: Some(BodyView::Text(Seq::empty())),
            }),
    {
        proof {
            reveal_strlit("");
        }
        let r = Response::text("");
        assert(""@ =~= Seq::<char>::empty());
        r
    }
}

/// The byte length of a fixed body; text counts its UTF-8 encoding.
pub open spec fn spec_body_len(b: BodyView) -> int {
    match b {
        BodyView::Text(s) => encode_utf8(s).len() as int,
        BodyView::Bytes(v) => v.len() as int,
        BodyView::Stream => 0,
    }
}

/// What finalization does: give a fixed body a `Content-Length` header
/// equal to its byte length, unless one was already set; leave streamed
/// and absent bodies alone.
pub open spec fn spec_finalize(r: RespView) -> RespView {
    match r.body {
        Some(BodyView::Text(_)) | Some(BodyView::Bytes(_)) => {
            if assoc_map(r.headers).contains_key("Content-Length"@) {
                r
            } else {
                RespView {
                    headers: spec_insert(
                        r.headers,
                        "Content-Length"@,
                        dec_chars(spec_body_len(r.body.unwrap())),
                    ),
                    ..r
                }
            }
        },
        _ => r,
    }
}

/// Finalizing is idempotent: a `Content-Length` computed by one pass is
/// found by the next, which then changes nothing, and an explicitly set
/// one is never recomputed.
pub proof fn lemma_finalize_idempotent(r: RespView)
    ensures
        spec_finalize(spec_finalize(r)) == spec_finalize(r),
{
    match r.body {
        Some(BodyView::Text(_)) | Some(BodyView::Bytes(_)) => {
            if !assoc_map(r.headers).contains_key("Content-Length"@) {
                lemma_insert_assoc(
                    r.headers,
                    "Content-Length"@,
                    dec_chars(spec_body_len(r.body.unwrap())),
                );
            }
        },
        _ => {},
    }
}

/// Finalization gives every fixed body a `Content-Length`: the decimal
/// byte length of the body where none was set, and exactly the value set
/// before where one was — an explicit length is never recomputed. Other
/// bodies are left untouched.
pub proof fn lemma_finalize_sets_length(r: RespView)
    ensures
        match r.body {
            Some(BodyView::Text(_)) | Some(BodyView::Bytes(_)) => {
                let before = assoc_map(r.headers);
                let after = assoc_map(spec_finalize(r).headers);
                &&& after.contains_key("Content-Length"@)
                &&& !before.contains_key("Content-Length"@) ==> after["Content-Length"@]
                    == dec_chars(spec_body_len(r.body.unwrap()))
                &&& before.contains_key("Content-Length"@) ==> after["Content-Length"@]
                    == before["Content-Length"@]
            },
            _ => spec_finalize(r) == r,
        },
{
    match r.body {
        Some(BodyView::Text(_)) | Some(BodyView::Bytes(_)) => {
            if !assoc_map(r.headers).contains_key("Content-Length"@) {
                lemma_insert_assoc(
                    r.headers,
                    "Content-Length"@,
                    dec_chars(spec_body_len(r.body.unwrap())),
                );
            }
        },
        _ => {},
    }
}

impl Response {
    /// Computes `Content-Length` for a fixed body if it is not already
    /// set; never touches one that is.
    pub fn finalize(self) -> (r: Response)
        ensures
            r@ == spec_finalize(self@),
    {
        let has_len = self.headers.contains("Content-Length");
        match &self.body {
            Some(Body::Text(s)) => {
                if has_len {
                    self
                } else {
                    let encoded = s.as_str().as_bytes_vec();
                    let n = encoded.len();
                    let v = dec_string(n as u64);
                    self.header("Content-Length", v.as_str())
                }
            },
            Some(Body::Bytes(b)) => {
                if has_len {
                    self
                } else {
                    let n = b.len();
                    let v = dec_string(n as u64);
                    self.header("Content-Length", v.as_str())
                }
            },
            _ => self,
        }
    }
}

/// The serialized form of a header sequence: one `name: value` line each.
pub open spec fn header_chars(hs: Seq<(Seq<char>, Seq<char>)>) -> Seq<char>
    decreases hs.len(),
{
    if hs.len() == 0 {
        Seq::empty()
    } else {
        hs[0].0 + ": "@ + hs[0].1 + "\r\n"@ + header_chars(hs.drop_first())
    }
}

proof fn lemma_header_chars_push(hs: Seq<(Seq<char>, Seq<char>)>, p: (Seq<char>, Seq<char>))
    ensures
        header_chars(hs.push(p)) =~= header_chars(hs) + p.0 + ": "@ + p.1 + "\r\n"@,
    decreases hs.len(),
{
    let e = Seq::<(Seq<char>, Seq<char>)>::empty();
    if hs.len() == 0 {
        assert(hs.push(p)[0] == p);
        assert(hs.push(p).drop_first() =~= e);
        assert(header_chars(e) == Seq::<char>::empty());
        assert(header_chars(hs.push(p)) == p.0 + ": "@ + p.1 + "\r\n"@ + header_chars(e));
        assert(header_chars(hs) == Seq::<char>::empty());
    } else {
        lemma_header_chars_push(hs.drop_first(), p);
        assert(hs.push(p)[0] == hs[0]);
        assert(hs.push(p).drop_first() =~= hs.drop_first().push(p));
        assert(header_chars(hs.push(p)) == hs[0].0 + ": "@ + hs[0].1 + "\r\n"@ + header_chars(
            hs.drop_first().push(p),
        ));
        assert(header_chars(hs) == hs[0].0 + ": "@ + hs[0].1 + "\r\n"@ + header_chars(
            hs.drop_first(),
        ));
    }
}

/// The head of the wire form: status line, headers, blank line.
pub open spec fn head_chars(r: RespView) -> Seq<char> {
    "HTTP/1.1 "@ + r.status.spec_text() + "\r\n"@ + header_chars(r.headers) + "\r\n"@
}

/// The full wire form: the head, then the bytes of a fixed body. A
/// streamed body contributes nothing here; its producer writes the chunks.
pub open spec fn spec_serialize(r: RespView) -> Seq<u8> {
    encode_utf8(head_chars(r)) + match r.body {
        Some(BodyView::Text(s)) => encode_utf8(s),
        Some(BodyView::Bytes(v)) => v,
        _ => Seq::<u8>::empty(),
    }
}

impl Response {
    /// Serializes status line, headers, blank line and any fixed body.
    #[verifier::loop_isolation(false)]
    pub fn to_bytes(&self) -> (r: Vec<u8>)
        ensures
            r@ == spec_serialize(self@),
    {
        let mut head: String = "HTTP/1.1 ".to_owned();
        head.append(self.status.as_str());
        head.append("\r\n");
        let n = self.headers.len();
        let mut i: usize = 0;
        while i < n
            invariant
                0 <= i <= n,
                head@ =~= "HTTP/1.1 "@ + self@.status.spec_text() + "\r\n"@ + header_chars(
                    self@.headers.take(i as int),
                ),
            decreases n - i,
        {
            let (k, v) = self.headers.entry_at(i);
            head.append(k.as_str());
            head.append(": ");
            head.append(v.as_str());
            head.append("\r\n");
            proof {
                lemma_header_chars_push(self@.headers.take(i as int), self@.headers[i as int]);
                assert(self@.headers.take(i + 1) =~= self@.headers.take(i as int).push(
                    self@.headers[i as int],
                ));
            }
            i += 1;
        }
        head.append("\r\n");
        proof {
            assert(self@.headers.take(n as int) =~= self@.headers);
            assert(head@ =~= head_chars(self@));
        }
        let mut out = head.as_str().as_bytes_vec();
        match &self.body {
            Some(Body::Text(s)) => {
                let mut tail = s.as_str().as_bytes_vec();
                out.append(&mut tail);
            },
            Some(Body::Bytes(b)) => {
                let mut tail = copy_range(b, 0, b.len());
                assert(tail@ =~= b@);
                out.append(&mut tail);
            },
            _ => {},
        }
        assert(out@ =~= spec_serialize(self@));
        out
    }
}

/// The chunked-transfer frame around one chunk of data: the length in
/// uppercase hexadecimal, CRLF, the bytes, CRLF.
pub open spec fn spec_chunk(d: Seq<u8>) -> Seq<u8> {
    encode_utf8(hex_chars(d.len() as int) + "\r\n"@) + d + encode_utf8("\r\n"@)
}

/// Frames one chunk of a streamed body.
pub fn encode_chunk(data: &Vec<u8>) -> (r: Vec<u8>)
    ensures
        r@ == spec_chunk(data@),
{
    let mut h = hex_string(data.len() as u64);
    h.append("\r\n");
    let mut out = h.as_str().as_bytes_vec();
    let mut mid = copy_range(data, 0, data.len());
    assert(mid@ =~= data@);
    out.append(&mut mid);
    let mut tail = "\r\n".as_bytes_vec();
    out.append(&mut tail);
    assert(out@ =~= spec_chunk(data@));
    out
}

/// The terminating frame of a chunked stream: a zero-length chunk.
pub fn last_chunk() -> (r: Vec<u8>)
    ensures
        r@ == encode_utf8("0\r\n\r\n"@),
{
    "0\r\n\r\n".as_bytes_vec()
}

/// The full chunked serialization of a finite sequence of chunks: each
/// framed in order, then the terminating zero-length chunk.
pub open spec fn spec_chunk_stream(cs: Seq<Seq<u8>>) -> Seq<u8>
    decreases cs.len(),
{
    if cs.len() == 0 {
        encode_utf8("0\r\n\r\n"@)
    } else {
        spec_chunk(cs[0]) + spec_chunk_stream(cs.drop_first())
    }
}

/// Frames a finite sequence of chunks and terminates the stream, as a
/// producer with all its chunks at hand would.
#[verifier::loop_isolation(false)]
pub fn encode_chunks(chunks: &Vec<Vec<u8>>) -> (r: Vec<u8>)
    ensures
        r@ == spec_chunk_stream(Seq::new(chunks@.len(), |i: int| chunks@[i]@)),
    decreases chunks@.len(),
{
    let ghost cs = Seq::new(chunks@.len(), |i: int| chunks@[i]@);
    let mut out: Vec<u8> = Vec::new();
    assert(spec_chunk_prefix(cs, 0) == Seq::<u8>::empty());
    let n = chunks.len();
    let mut i: usize = 0;
    while i < n
        invariant
            0 <= i <= n,
            out@ =~= spec_chunk_prefix(cs, i as int),
        decreases n - i,
    {
        let mut piece = encode_chunk(&chunks[i]);
        out.append(&mut piece);
        proof {
            lemma_chunk_prefix_step(cs, i as int);
        }
        i += 1;
    }
    let mut fin = last_chunk();
    out.append(&mut fin);
    proof {
        lemma_chunk_prefix_full(cs);
    }
    assert(out@ =~= spec_chunk_stream(cs));
    out
}

/// The frames of the first `i` chunks, without the terminator.
pub open spec fn spec_chunk_prefix(cs: Seq<Seq<u8>>, i: int) -> Seq<u8>
    decreases i,
{
    if i <= 0 {
        Seq::empty()
    } else {
        spec_chunk_prefix(cs, i - 1) + spec_chunk(cs[i - 1])
    }
}

proof fn lemma_chunk_prefix_step(cs: Seq<Seq<u8>>, i: int)
    requires
        0 <= i,
    ensures
        spec_chunk_prefix(cs, i + 1) == spec_chunk_prefix(cs, i) + spec_chunk(cs[i]),
{
}

proof fn lemma_chunk_prefix_full(cs: Seq<Seq<u8>>)
    ensures
        spec_chunk_stream(cs) =~= spec_chunk_prefix(cs, cs.len() as int) + encode_utf8(
            "0\r\n\r\n"@,
        ),
    decreases cs.len(),
{
    if cs.len() > 0 {
        lemma_chunk_prefix_full(cs.drop_first());
        lemma_chunk_prefix_shift(cs, cs.len() as int);
    }
}

proof fn lemma_chunk_prefix_shift(cs: Seq<Seq<u8>>, i: int)
    requires
        1 <= i <= cs.len(),
    ensures
        spec_chunk_prefix(cs, i) =~= spec_chunk(cs[0]) + spec_chunk_prefix(cs.drop_first(), i - 1),
    decreases i,
{
    if i > 1 {
        lemma_chunk_prefix_shift(cs, i - 1);
        assert(spec_chunk_prefix(cs, i) == spec_chunk_prefix(cs, i - 1) + spec_chunk(cs[i - 1]));
        assert(spec_chunk_prefix(cs.drop_first(), i - 1) == spec_chunk_prefix(
            cs.drop_first(),
            i - 2,
        ) + spec_chunk(cs.drop_first()[i - 2]));
        assert(cs.drop_first()[i - 2] == cs[i - 1]);
    } else {
        assert(spec_chunk_prefix(cs, 1) == spec_chunk_prefix(cs, 0) + spec_chunk(cs[0]));
        assert(spec_chunk_prefix(cs, 0) == Seq::<u8>::empty());
        assert(spec_chunk_prefix(cs.drop_first(), 0) == Seq::<u8>::empty());
    }
}

} // verus!
