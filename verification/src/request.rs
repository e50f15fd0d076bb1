//! The request side of the engine: the per-request context, the request
//! record, and the decoder that turns the raw bytes of one connection into
//! a structured request.

use vstd::prelude::*;
use vstd::utf8::{decode_utf8, is_ascii_chars, valid_utf8};
use crate::meta::Method;
use crate::parse::{
    find_term, is_sp, lemma_find_term, scan, spec_split_crlf, spec_trim, strs_view,
    check_ascii, copy_range, find_term_vec, scan_char, scan_non_sp, scan_sp, split_crlf, trim,
};
use crate::response::Response;
use crate::strmap::StrMap;
use crate::text::{
    all_ascii, ascii_chars, ascii_lower, ascii_to_str, dec_value, is_dec_digit, lower_chars,
    parse_dec, utf8_string,
};

verus! {

/// A per-request store for passing data along the middleware chain.
/// It is created empty for each decoded request and lives exactly as long
/// as the request does, so nothing can leak across requests; the engine
/// hands each request, and with it this store, to one connection's chain
/// at a time.
#[derive(Debug)]
pub struct Context {
    map: StrMap,
}

impl View for Context {
    type V = Map<Seq<char>, Seq<char>>;

    closed spec fn view(&self) -> Map<Seq<char>, Seq<char>> {
        self.map.as_map()
    }
}

impl Context {
    /// Creates an empty store.
    pub fn new() -> (r: Context)
        ensures
            r@ == Map::<Seq<char>, Seq<char>>::empty(),
    {
        Context { map: StrMap::new() }
    }

    /// Binds a value to a key, replacing any earlier binding.
    pub fn set(&mut self, key: &str, value: &str)
        ensures
            final(self)@ == old(self)@.insert(key@, value@),
    {
        self.map.insert(key.to_owned(), value.to_owned());
    }

    /// The value bound to a key, if any.
    pub fn get(&self, key: &str) -> (r: Option<String>)
        ensures
            match r {
                Some(v) => self@.contains_key(key@) && v@ == self@[key@],
                None => !self@.contains_key(key@),
            },
    {
        match self.map.get(key) {
            Some(v) => Some(v.clone()),
            None => None,
        }
    }
}

/// Context isolation: a value set under a key in one request's context is
/// visible to every later read of that context, while the empty context —
/// every request decodes with one of its own — holds nothing under any
/// key. Requests never share a context, so a binding made while serving
/// one request cannot appear in another.
pub proof fn lemma_context_isolation(ctx: Map<Seq<char>, Seq<char>>, k: Seq<char>, v: Seq<char>)
    ensures
        ctx.insert(k, v).contains_key(k),
        ctx.insert(k, v)[k] == v,
        !Map::<Seq<char>, Seq<char>>::empty().contains_key(k),
{
}

/// Why a byte buffer does not decode to a request.
#[derive(Debug, PartialEq, Eq, Structural, Clone, Copy)]
pub enum ProtocolError {
    /// The header terminator never arrived before the buffer ended.
    UnterminatedHead,
    /// The head holds bytes outside ASCII.
    HeadNotAscii,
    /// The request line holds no method token.
    MissingMethod,
    /// The method token is not one of the recognized methods.
    UnknownMethod,
    /// The buffer ends before `Content-Length` bytes of body.
    IncompleteBody,
}

/// The response every protocol error is answered with before the
/// connection closes: a plain 400.
pub fn protocol_error_response(e: ProtocolError) -> (r: Response)
    ensures
        r@ == (crate::response::RespView {
            status: crate::meta::StatusCode::BadRequest,
            headers: seq![("Content-Type"@, "text/plain"@)],
            body: Some(crate::response::BodyView::Text(
                crate::meta::StatusCode::BadRequest.spec_text(),
            )),
        }),
{
    let _ = e;
    Response::error(crate::meta::StatusCode::BadRequest)
}

/// The mathematical shape of a request.
pub ghost struct ReqView {
    pub method: Method,
    pub route: Seq<char>,
    pub headers: Map<Seq<char>, Seq<char>>,
    pub body: Seq<u8>,
    pub peer_addr: Seq<char>,
    pub context: Map<Seq<char>, Seq<char>>,
    pub path_params: Map<Seq<char>, Seq<char>>,
    pub query_params: Map<Seq<char>, Seq<char>>,
}

/// One decoded request. Path parameters stay empty until the route table
/// binds them; the context starts empty.
#[derive(Debug)]
pub struct Request {
    pub method: Method,
    pub route: String,
    pub headers: StrMap,
    pub body: Vec<u8>,
    pub peer_addr: String,
    pub context: Context,
    pub path_params: StrMap,
    pub query_params: StrMap,
}

impl View for Request {
    type V = ReqView;

    open spec fn view(&self) -> ReqView {
        ReqView {
            method: self.method,
            route: self.route@,
            headers: self.headers.as_map(),
            body: self.body@,
            peer_addr: self.peer_addr@,
            context: self.context@,
            path_params: self.path_params.as_map(),
            query_params: self.query_params.as_map(),
        }
    }
}

/// The key a header name is stored and looked up under: ASCII names are
/// lowercased, others kept as they are.
pub open spec fn header_key(s: Seq<char>) -> Seq<char> {
    if is_ascii_chars(s) {
        lower_chars(s)
    } else {
        s
    }
}

impl Request {
    /// The body as text, when it is valid UTF-8.
    pub fn text(&self) -> (r: Option<String>)
        ensures
            match r {
                Some(s) => valid_utf8(self@.body) && s@ == decode_utf8(self@.body),
                None => !valid_utf8(self@.body),
            },
    {
        let copy = copy_range(&self.body, 0, self.body.len());
        assert(copy@ =~= self.body@);
        utf8_string(copy)
    }

    /// The value of a header, by case-insensitive name.
    pub fn header(&self, key: &str) -> (r: Option<&str>)
        ensures
            match r {
                Some(v) => self@.headers.contains_key(header_key(key@)) && v@
                    == self@.headers[header_key(key@)],
                None => !self@.headers.contains_key(header_key(key@)),
            },
    {
        let k = ascii_lower(key);
        match self.headers.get(k.as_str()) {
            Some(v) => Some(v.as_str()),
            None => None,
        }
    }

    /// The value a path parameter was bound to during route matching.
    pub fn param(&self, key: &str) -> (r: Option<&str>)
        ensures
            match r {
                Some(v) => self@.path_params.contains_key(key@) && v@
                    == self@.path_params[key@],
                None => !self@.path_params.contains_key(key@),
            },
    {
        match self.path_params.get(key) {
            Some(v) => Some(v.as_str()),
            None => None,
        }
    }

    /// The value of a query parameter.
    pub fn query_param(&self, key: &str) -> (r: Option<&str>)
        ensures
            match r {
                Some(v) => self@.query_params.contains_key(key@) && v@
                    == self@.query_params[key@],
                None => !self@.query_params.contains_key(key@),
            },
    {
        match self.query_params.get(key) {
            Some(v) => Some(v.as_str()),
            None => None,
        }
    }
}

/// The binding one `key=value` piece of a query string makes, if any; a
/// piece without `=` binds nothing.
pub open spec fn spec_pair(part: Seq<char>) -> Option<(Seq<char>, Seq<char>)> {
    let e = scan(part, 0, |x: char| x == '=');
    if 0 <= e && e < part.len() {
        Some((part.take(e), part.skip(e + 1)))
    } else {
        None
    }
}

/// The mapping a query string denotes: pieces split on `&`, each split at
/// its first `=`; a later piece wins over an earlier one with the same key.
pub open spec fn spec_query_map(s: Seq<char>) -> Map<Seq<char>, Seq<char>>
    decreases s.len(),
{
    let a = scan(s, 0, |x: char| x == '&');
    let part = if 0 <= a && a <= s.len() {
        s.take(a)
    } else {
        s
    };
    let rest = if 0 <= a && a < s.len() {
        spec_query_map(s.skip(a + 1))
    } else {
        Map::empty()
    };
    match spec_pair(part) {
        Some(p) => if rest.contains_key(p.0) {
            rest
        } else {
            rest.insert(p.0, p.1)
        },
        None => rest,
    }
}

/// Splits a query string into its parameter map.
pub fn parse_query_params(query: &str) -> (r: StrMap)
    ensures
        r.as_map() == spec_query_map(query@),
    decreases query@.len(),
{
    let n = query.unicode_len();
    let a = scan_char(query, 0, '&');
    let part = query.substring_char(0, a);
    assert(part@ =~= query@.take(a as int));
    let mut rest: StrMap = if a < n {
        let tail = query.substring_char(a + 1, n);
        assert(tail@ =~= query@.skip(a + 1));
        parse_query_params(tail)
    } else {
        StrMap::new()
    };
    let plen = part.unicode_len();
    let e = scan_char(part, 0, '=');
    if e < plen {
        let k = part.substring_char(0, e);
        let v = part.substring_char(e + 1, plen);
        assert(k@ =~= part@.take(e as int));
        assert(v@ =~= part@.skip(e + 1));
        if !rest.contains(k) {
            rest.insert(k.to_owned(), v.to_owned());
        }
    }
    rest
}

/// The binding one header line makes: the part before the first colon is
/// the name (trimmed, lowercased), the part after it the value (trimmed);
/// a line without a colon binds nothing.
pub open spec fn spec_header_line(l: Seq<char>) -> Option<(Seq<char>, Seq<char>)> {
    let c = scan(l, 0, |x: char| x == ':');
    if 0 <= c && c < l.len() {
        Some((header_key(spec_trim(l.take(c))), spec_trim(l.skip(c + 1))))
    } else {
        None
    }
}

/// The header mapping a sequence of lines denotes; a later line wins over
/// an earlier one with the same name.
pub open spec fn spec_headers(ls: Seq<Seq<char>>) -> Map<Seq<char>, Seq<char>>
    decreases ls.len(),
{
    if ls.len() == 0 {
        Map::empty()
    } else {
        let m = spec_headers(ls.drop_last());
        match spec_header_line(ls.last()) {
            Some(p) => m.insert(p.0, p.1),
            None => m,
        }
    }
}

/// Parses every line after the first into the header map.
#[verifier::loop_isolation(false)]
fn parse_header_lines(lines: &Vec<String>) -> (r: StrMap)
    requires
        lines@.len() >= 1,
    ensures
        r.as_map() == spec_headers(strs_view(lines@).drop_first()),
{
    let n = lines.len();
    let mut m = StrMap::new();
    let mut i: usize = 1;
    while i < n
        invariant
            1 <= i <= n,
            m.as_map() == spec_headers(strs_view(lines@).subrange(1, i as int)),
        decreases n - i,
    {
        let l: &str = lines[i].as_str();
        let ln = l.unicode_len();
        let c = scan_char(l, 0, ':');
        if c < ln {
            let raw_name = l.substring_char(0, c);
            assert(raw_name@ =~= l@.take(c as int));
            let name = trim(raw_name);
            let key = ascii_lower(name.as_str());
            let raw_val = l.substring_char(c + 1, ln);
            assert(raw_val@ =~= l@.skip(c + 1));
            let val = trim(raw_val);
            m.insert(key, val);
            assert(spec_header_line(l@) == Some((key@, val@)));
        } else {
            assert(spec_header_line(l@) is None);
        }
        proof {
            assert(strs_view(lines@).subrange(1, i + 1).drop_last() =~= strs_view(
                lines@,
            ).subrange(1, i as int));
            assert(strs_view(lines@).subrange(1, i + 1).last() == l@);
        }
        i += 1;
    }
    proof {
        assert(strs_view(lines@).subrange(1, n as int) =~= strs_view(lines@).drop_first());
    }
    m
}

/// What the request line says: the method and the request target. The
/// first token must be a recognized method; a missing second token means
/// the root target.
pub open spec fn spec_request_line(l: Seq<char>) -> Result<(Method, Seq<char>), ProtocolError> {
    let m0 = scan(l, 0, |x: char| !is_sp(x));
    if !(0 <= m0 && m0 < l.len()) {
        Err(ProtocolError::MissingMethod)
    } else {
        let m1 = scan(l, m0, |x: char| is_sp(x));
        match Method::spec_parse(l.subrange(m0, m1)) {
            Err(_) => Err(ProtocolError::UnknownMethod),
            Ok(m) => {
                let r0 = scan(l, m1, |x: char| !is_sp(x));
                let target = if !(0 <= r0 && r0 < l.len()) {
                    "/"@
                } else {
                    l.subrange(r0, scan(l, r0, |x: char| is_sp(x)))
                };
                Ok((m, target))
            },
        }
    }
}

/// Parses the request line.
fn parse_request_line(l: &str) -> (r: Result<(Method, String), ProtocolError>)
    ensures
        match r {
            Ok(p) => spec_request_line(l@) == Ok::<(Method, Seq<char>), ProtocolError>(
                (p.0, p.1@),
            ),
            Err(e) => spec_request_line(l@) == Err::<(Method, Seq<char>), ProtocolError>(e),
        },
{
    let n = l.unicode_len();
    let m0 = scan_non_sp(l, 0);
    if m0 >= n {
        return Err(ProtocolError::MissingMethod);
    }
    let m1 = scan_sp(l, m0);
    let tok = l.substring_char(m0, m1);
    let m = match Method::from_str(tok) {
        Ok(m) => m,
        Err(_) => {
            return Err(ProtocolError::UnknownMethod);
        },
    };
    let r0 = scan_non_sp(l, m1);
    let target: String = if r0 >= n {
        proof {
            reveal_strlit("/");
        }
        "/".to_owned()
    } else {
        let r1 = scan_sp(l, r0);
        l.substring_char(r0, r1).to_owned()
    };
    Ok((m, target))
}

/// The `Content-Length` a header mapping declares: the value of the
/// `content-length` header when it is a plain decimal number that fits the
/// machine, and zero otherwise.
pub open spec fn spec_content_len(h: Map<Seq<char>, Seq<char>>) -> int {
    if h.contains_key("content-length"@) {
        let v = h["content-length"@];
        if v.len() > 0 && (forall|i: int| 0 <= i < v.len() ==> is_dec_digit(v[i])) && dec_value(v)
            <= usize::MAX {
            dec_value(v)
        } else {
            0
        }
    } else {
        0
    }
}

/// What a byte buffer decodes to: the request it holds, or the first
/// reason it is not a complete well-formed request.
pub open spec fn spec_decode(b: Seq<u8>, peer: Seq<char>) -> Result<ReqView, ProtocolError> {
    let t = find_term(b, 0);
    if !(0 <= t && t + 3 < b.len()) {
        Err(ProtocolError::UnterminatedHead)
    } else if !all_ascii(b.take(t)) {
        Err(ProtocolError::HeadNotAscii)
    } else {
        let lines = spec_split_crlf(ascii_chars(b.take(t)));
        match spec_request_line(lines[0]) {
            Err(e) => Err(e),
            Ok((m, target)) => {
                let q = scan(target, 0, |x: char| x == '?');
                let route = if 0 <= q && q <= target.len() {
                    target.take(q)
                } else {
                    target
                };
                let qmap = if 0 <= q && q < target.len() {
                    spec_query_map(target.skip(q + 1))
                } else {
                    Map::empty()
                };
                let hmap = spec_headers(lines.drop_first());
                let cl = spec_content_len(hmap);
                if b.len() - (t + 4) < cl {
                    Err(ProtocolError::IncompleteBody)
                } else {
                    Ok(
                        ReqView {
                            method: m,
                            route,
                            headers: hmap,
                            body: b.subrange(t + 4, t + 4 + cl),
                            peer_addr: peer,
                            context: Map::empty(),
                            path_params: Map::empty(),
                            query_params: qmap,
                        },
                    )
                }
            },
        }
    }
}

/// Decodes the accumulated bytes of a connection into a request. The
/// buffer must hold the whole head and at least `Content-Length` bytes of
/// body; anything after those body bytes is ignored.
///
/// Query keys and values are taken verbatim: no percent-decoding is
/// applied. Chunked request bodies are not supported; a request without a
/// well-formed `Content-Length` reads an empty body.
pub fn decode_request(buf: &Vec<u8>, peer: &str) -> (r: Result<Request, ProtocolError>)
    ensures
        match r {
            Ok(req) => spec_decode(buf@, peer@) == Ok::<ReqView, ProtocolError>(req@),
            Err(e) => spec_decode(buf@, peer@) == Err::<ReqView, ProtocolError>(e),
        },
{
    proof {
        lemma_find_term(buf@, 0);
    }
    let n = buf.len();
    let t = find_term_vec(buf);
    if t >= n {
        return Err(ProtocolError::UnterminatedHead);
    }
    let head = copy_range(buf, 0, t);
    assert(head@ =~= buf@.take(t as int));
    if !check_ascii(&head) {
        return Err(ProtocolError::HeadNotAscii);
    }
    let s = ascii_to_str(head.as_slice());
    let lines = split_crlf(s);
    let (m, target) = match parse_request_line(lines[0].as_str()) {
        Ok(p) => p,
        Err(e) => {
            assert(strs_view(lines@)[0] == lines@[0]@);
            return Err(e);
        },
    };
    assert(strs_view(lines@)[0] == lines@[0]@);
    let tlen = target.unicode_len();
    let q = scan_char(target.as_str(), 0, '?');
    let route = target.as_str().substring_char(0, q).to_owned();
    assert(route@ =~= target@.take(q as int));
    let query_params = if q < tlen {
        let qs = target.as_str().substring_char(q + 1, tlen);
        assert(qs@ =~= target@.skip(q + 1));
        parse_query_params(qs)
    } else {
        StrMap::new()
    };
    let headers = parse_header_lines(&lines);
    let cl: usize = match headers.get("content-length") {
        Some(v) => match parse_dec(v.as_str()) {
            Some(x) => x,
            None => 0,
        },
        None => 0,
    };
    proof {
        reveal_strlit("content-length");
        assert(cl == spec_content_len(headers.as_map()));
    }
    if n - (t + 4) < cl {
        return Err(ProtocolError::IncompleteBody);
    }
    let body = copy_range(buf, t + 4, t + 4 + cl);
    let req = Request {
        method: m,
        route,
        headers,
        body,
        peer_addr: peer.to_owned(),
        context: Context::new(),
        path_params: StrMap::new(),
        query_params,
    };
    Ok(req)
}

} // verus!
