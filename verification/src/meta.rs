//! The request-method and status-code vocabulary, and the content-type
//! table used by the static-file collaborator.

use vstd::prelude::*;
use crate::text::str_eq;

verus! {

/// An HTTP request method.
#[derive(Debug, PartialEq, Eq, Structural, Clone, Copy, Hash)]
pub enum Method {
    GET,
    POST,
    HEAD,
    OPTIONS,
    PUT,
    PATCH,
    DELETE,
}

/// The error returned when a method token is not recognized.
#[derive(Debug, PartialEq, Eq, Structural, Clone, Copy)]
pub struct ParseMethodError;

impl Method {
    /// The canonical spelling of the method token.
    pub open spec fn spec_name(self) -> Seq<char> {
        match self {
            Method::GET => "GET"@,
            Method::POST => "POST"@,
            Method::HEAD => "HEAD"@,
            Method::OPTIONS => "OPTIONS"@,
            Method::PUT => "PUT"@,
            Method::PATCH => "PATCH"@,
            Method::DELETE => "DELETE"@,
        }
    }

    /// The method a token names, if any.
    pub open spec fn spec_parse(s: Seq<char>) -> Result<Method, ParseMethodError> {
        if s == "GET"@ {
            Ok(Method::GET)
        } else if s == "POST"@ {
            Ok(Method::POST)
        } else if s == "HEAD"@ {
            Ok(Method::HEAD)
        } else if s == "OPTIONS"@ {
            Ok(Method::OPTIONS)
        } else if s == "PUT"@ {
            Ok(Method::PUT)
        } else if s == "PATCH"@ {
            Ok(Method::PATCH)
        } else if s == "DELETE"@ {
            Ok(Method::DELETE)
        } else {
            Err(ParseMethodError)
        }
    }

    /// Renders the method token, e.g. `"GET"`.
    pub fn to_string(&self) -> (r: String)
        ensures
            r@ == self.spec_name(),
    {
        let s: &str = match self {
            Method::GET => "GET",
            Method::POST => "POST",
            Method::HEAD => "HEAD",
            Method::OPTIONS => "OPTIONS",
            Method::PUT => "PUT",
            Method::PATCH => "PATCH",
            Method::DELETE => "DELETE",
        };
        s.to_owned()
    }

    /// Parses a method token; recognizes exactly the seven methods.
    pub fn from_str(s: &str) -> (r: Result<Method, ParseMethodError>)
        ensures
            r == Method::spec_parse(s@),
    {
        if str_eq(s, "GET") {
            Ok(Method::GET)
        } else if str_eq(s, "POST") {
            Ok(Method::POST)
        } else if str_eq(s, "HEAD") {
            Ok(Method::HEAD)
        } else if str_eq(s, "OPTIONS") {
            Ok(Method::OPTIONS)
        } else if str_eq(s, "PUT") {
            Ok(Method::PUT)
        } else if str_eq(s, "PATCH") {
            Ok(Method::PATCH)
        } else if str_eq(s, "DELETE") {
            Ok(Method::DELETE)
        } else {
            Err(ParseMethodError)
        }
    }
}

/// The status codes the engine can render, with the standard reason phrases.
#[derive(Debug, PartialEq, Eq, Structural, Clone, Copy)]
pub enum StatusCode {
    OK,
    Created,
    Accepted,
    NoContent,
    ResetContent,
    PartialContent,
    MovedPermanently,
    Found,
    SeeOther,
    NotModified,
    TemporaryRedirect,
    PermanentRedirect,
    BadRequest,
    Unauthorized,
    PaymentRequired,
    Forbidden,
    NotFound,
    MethodNotAllowed,
    NotAcceptable,
    ProxyAuthenticationRequired,
    RequestTimeout,
    Conflict,
    Gone,
    LengthRequired,
    PreconditionFailed,
    PayloadTooLarge,
    UriTooLong,
    UnsupportedMediaType,
    RangeNotSatisfiable,
    ExpectationFailed,
    ImATeapot,
    UnprocessableEntity,
    TooManyRequests,
    InternalServerError,
    NotImplemented,
    BadGateway,
    ServiceUnavailable,
    GatewayTimeout,
    HttpVersionNotSupported,
}

impl StatusCode {
    /// The numeric code.
    pub open spec fn spec_code(self) -> int {
        match self {
            StatusCode::OK => 200,
            StatusCode::Created => 201,
            StatusCode::Accepted => 202,
            StatusCode::NoContent => 204,
            StatusCode::ResetContent => 205,
            StatusCode::PartialContent => 206,
            StatusCode::MovedPermanently => 301,
            StatusCode::Found => 302,
            StatusCode::SeeOther => 303,
            StatusCode::NotModified => 304,
            StatusCode::TemporaryRedirect => 307,
            StatusCode::PermanentRedirect => 308,
            StatusCode::BadRequest => 400,
            StatusCode::Unauthorized => 401,
            StatusCode::PaymentRequired => 402,
            StatusCode::Forbidden => 403,
            StatusCode::NotFound => 404,
            StatusCode::MethodNotAllowed => 405,
            StatusCode::NotAcceptable => 406,
            StatusCode::ProxyAuthenticationRequired => 407,
            StatusCode::RequestTimeout => 408,
            StatusCode::Conflict => 409,
            StatusCode::Gone => 410,
            StatusCode::LengthRequired => 411,
            StatusCode::PreconditionFailed => 412,
            StatusCode::PayloadTooLarge => 413,
            StatusCode::UriTooLong => 414,
            StatusCode::UnsupportedMediaType => 415,
            StatusCode::RangeNotSatisfiable => 416,
            StatusCode::ExpectationFailed => 417,
            StatusCode::ImATeapot => 418,
            StatusCode::UnprocessableEntity => 422,
            StatusCode::TooManyRequests => 429,
            StatusCode::InternalServerError => 500,
            StatusCode::NotImplemented => 501,
            StatusCode::BadGateway => 502,
            StatusCode::ServiceUnavailable => 503,
            StatusCode::GatewayTimeout => 504,
            StatusCode::HttpVersionNotSupported => 505,
        }
    }

    /// The status line text: code, space, reason phrase.
    pub open spec fn spec_text(self) -> Seq<char> {
        match self {
            StatusCode::OK => "200 OK"@,
            StatusCode::Created => "201 Created"@,
            StatusCode::Accepted => "202 Accepted"@,
            StatusCode::NoContent => "204 No Content"@,
            StatusCode::ResetContent => "205 Reset Content"@,
            StatusCode::PartialContent => "206 Partial Content"@,
            StatusCode::MovedPermanently => "301 Moved Permanently"@,
            StatusCode::Found => "302 Found"@,
            StatusCode::SeeOther => "303 See Other"@,
            StatusCode::NotModified => "304 Not Modified"@,
            StatusCode::TemporaryRedirect => "307 Temporary Redirect"@,
            StatusCode::PermanentRedirect => "308 Permanent Redirect"@,
            StatusCode::BadRequest => "400 Bad Request"@,
            StatusCode::Unauthorized => "401 Unauthorized"@,
            StatusCode::PaymentRequired => "402 Payment Required"@,
            StatusCode::Forbidden => "403 Forbidden"@,
            StatusCode::NotFound => "404 Not Found"@,
            StatusCode::MethodNotAllowed => "405 Method Not Allowed"@,
            StatusCode::NotAcceptable => "406 Not Acceptable"@,
            StatusCode::ProxyAuthenticationRequired => "407 Proxy Authentication Required"@,
            StatusCode::RequestTimeout => "408 Request Timeout"@,
            StatusCode::Conflict => "409 Conflict"@,
            StatusCode::Gone => "410 Gone"@,
            StatusCode::LengthRequired => "411 Length Required"@,
            StatusCode::PreconditionFailed => "412 Precondition Failed"@,
            StatusCode::PayloadTooLarge => "413 Payload Too Large"@,
            StatusCode::UriTooLong => "414 URI Too Long"@,
            StatusCode::UnsupportedMediaType => "415 Unsupported Media Type"@,
            StatusCode::RangeNotSatisfiable => "416 Range Not Satisfiable"@,
            StatusCode::ExpectationFailed => "417 Expectation Failed"@,
            StatusCode::ImATeapot => "418 I'm a teapot"@,
            StatusCode::UnprocessableEntity => "422 Unprocessable Entity"@,
            StatusCode::TooManyRequests => "429 Too Many Requests"@,
            StatusCode::InternalServerError => "500 Internal Server Error"@,
            StatusCode::NotImplemented => "501 Not Implemented"@,
            StatusCode::BadGateway => "502 Bad Gateway"@,
            StatusCode::ServiceUnavailable => "503 Service Unavailable"@,
            StatusCode::GatewayTimeout => "504 Gateway Timeout"@,
            StatusCode::HttpVersionNotSupported => "505 HTTP Version Not Supported"@,
        }
    }

    /// The status the numeric code names; unknown codes fall back to the
    /// internal server error.
    pub open spec fn spec_from_code(c: int) -> StatusCode {
        if c == 200 {
            StatusCode::OK
        } else if c == 201 {
            StatusCode::Created
        } else if c == 202 {
            StatusCode::Accepted
        } else if c == 204 {
            StatusCode::NoContent
        } else if c == 205 {
            StatusCode::ResetContent
        } else if c == 206 {
            StatusCode::PartialContent
        } else if c == 301 {
            StatusCode::MovedPermanently
        } else if c == 302 {
            StatusCode::Found
        } else if c == 303 {
            StatusCode::SeeOther
        } else if c == 304 {
            StatusCode::NotModified
        } else if c == 307 {
            StatusCode::TemporaryRedirect
        } else if c == 308 {
            StatusCode::PermanentRedirect
        } else if c == 400 {
            StatusCode::BadRequest
        } else if c == 401 {
            StatusCode::Unauthorized
        } else if c == 402 {
            StatusCode::PaymentRequired
        } else if c == 403 {
            StatusCode::Forbidden
        } else if c == 404 {
            StatusCode::NotFound
        } else if c == 405 {
            StatusCode::MethodNotAllowed
        } else if c == 406 {
            StatusCode::NotAcceptable
        } else if c == 407 {
            StatusCode::ProxyAuthenticationRequired
        } else if c == 408 {
            StatusCode::RequestTimeout
        } else if c == 409 {
            StatusCode::Conflict
        } else if c == 410 {
            StatusCode::Gone
        } else if c == 411 {
            StatusCode::LengthRequired
        } else if c == 412 {
            StatusCode::PreconditionFailed
        } else if c == 413 {
            StatusCode::PayloadTooLarge
        } else if c == 414 {
            StatusCode::UriTooLong
        } else if c == 415 {
            StatusCode::UnsupportedMediaType
        } else if c == 416 {
            StatusCode::RangeNotSatisfiable
        } else if c == 417 {
            StatusCode::ExpectationFailed
        } else if c == 418 {
            StatusCode::ImATeapot
        } else if c == 422 {
            StatusCode::UnprocessableEntity
        } else if c == 429 {
            StatusCode::TooManyRequests
        } else if c == 500 {
            StatusCode::InternalServerError
        } else if c == 501 {
            StatusCode::NotImplemented
        } else if c == 502 {
            StatusCode::BadGateway
        } else if c == 503 {
            StatusCode::ServiceUnavailable
        } else if c == 504 {
            StatusCode::GatewayTimeout
        } else if c == 505 {
            StatusCode::HttpVersionNotSupported
        } else {
            StatusCode::InternalServerError
        }
    }

    /// The numeric code.
    pub fn code(&self) -> (r: u16)
        ensures
            r == self.spec_code(),
    {
        match self {
            StatusCode::OK => 200,
            StatusCode::Created => 201,
            StatusCode::Accepted => 202,
            StatusCode::NoContent => 204,
            StatusCode::ResetContent => 205,
            StatusCode::PartialContent => 206,
            StatusCode::MovedPermanently => 301,
            StatusCode::Found => 302,
            StatusCode::SeeOther => 303,
            StatusCode::NotModified => 304,
            StatusCode::TemporaryRedirect => 307,
            StatusCode::PermanentRedirect => 308,
            StatusCode::BadRequest => 400,
            StatusCode::Unauthorized => 401,
            StatusCode::PaymentRequired => 402,
            StatusCode::Forbidden => 403,
            StatusCode::NotFound => 404,
            StatusCode::MethodNotAllowed => 405,
            StatusCode::NotAcceptable => 406,
            StatusCode::ProxyAuthenticationRequired => 407,
            StatusCode::RequestTimeout => 408,
            StatusCode::Conflict => 409,
            StatusCode::Gone => 410,
            StatusCode::LengthRequired => 411,
            StatusCode::PreconditionFailed => 412,
            StatusCode::PayloadTooLarge => 413,
            StatusCode::UriTooLong => 414,
            StatusCode::UnsupportedMediaType => 415,
            StatusCode::RangeNotSatisfiable => 416,
            StatusCode::ExpectationFailed => 417,
            StatusCode::ImATeapot => 418,
            StatusCode::UnprocessableEntity => 422,
            StatusCode::TooManyRequests => 429,
            StatusCode::InternalServerError => 500,
            StatusCode::NotImplemented => 501,
            StatusCode::BadGateway => 502,
            StatusCode::ServiceUnavailable => 503,
            StatusCode::GatewayTimeout => 504,
            StatusCode::HttpVersionNotSupported => 505,
        }
    }

    /// The status line text: code, space, reason phrase.
    pub fn as_str(&self) -> (r: &'static str)
        ensures
            r@ == self.spec_text(),
    {
        match self {
            StatusCode::OK => "200 OK",
            StatusCode::Created => "201 Created",
            StatusCode::Accepted => "202 Accepted",
            StatusCode::NoContent => "204 No Content",
            StatusCode::ResetContent => "205 Reset Content",
            StatusCode::PartialContent => "206 Partial Content",
            StatusCode::MovedPermanently => "301 Moved Permanently",
            StatusCode::Found => "302 Found",
            StatusCode::SeeOther => "303 See Other",
            StatusCode::NotModified => "304 Not Modified",
            StatusCode::TemporaryRedirect => "307 Temporary Redirect",
            StatusCode::PermanentRedirect => "308 Permanent Redirect",
            StatusCode::BadRequest => "400 Bad Request",
            StatusCode::Unauthorized => "401 Unauthorized",
            StatusCode::PaymentRequired => "402 Payment Required",
            StatusCode::Forbidden => "403 Forbidden",
            StatusCode::NotFound => "404 Not Found",
            StatusCode::MethodNotAllowed => "405 Method Not Allowed",
            StatusCode::NotAcceptable => "406 Not Acceptable",
            StatusCode::ProxyAuthenticationRequired => "407 Proxy Authentication Required",
            StatusCode::RequestTimeout => "408 Request Timeout",
            StatusCode::Conflict => "409 Conflict",
            StatusCode::Gone => "410 Gone",
            StatusCode::LengthRequired => "411 Length Required",
            StatusCode::PreconditionFailed => "412 Precondition Failed",
            StatusCode::PayloadTooLarge => "413 Payload Too Large",
            StatusCode::UriTooLong => "414 URI Too Long",
            StatusCode::UnsupportedMediaType => "415 Unsupported Media Type",
            StatusCode::RangeNotSatisfiable => "416 Range Not Satisfiable",
            StatusCode::ExpectationFailed => "417 Expectation Failed",
            StatusCode::ImATeapot => "418 I'm a teapot",
            StatusCode::UnprocessableEntity => "422 Unprocessable Entity",
            StatusCode::TooManyRequests => "429 Too Many Requests",
            StatusCode::InternalServerError => "500 Internal Server Error",
            StatusCode::NotImplemented => "501 Not Implemented",
            StatusCode::BadGateway => "502 Bad Gateway",
            StatusCode::ServiceUnavailable => "503 Service Unavailable",
            StatusCode::GatewayTimeout => "504 Gateway Timeout",
            StatusCode::HttpVersionNotSupported => "505 HTTP Version Not Supported",
        }
    }

    /// Maps a numeric code to its status; unknown codes map to the internal
    /// server error.
    pub fn from_code(c: u16) -> (r: StatusCode)
        ensures
            r == StatusCode::spec_from_code(c as int),
    {
        match c {
            200 => StatusCode::OK,
            201 => StatusCode::Created,
            202 => StatusCode::Accepted,
            204 => StatusCode::NoContent,
            205 => StatusCode::ResetContent,
            206 => StatusCode::PartialContent,
            301 => StatusCode::MovedPermanently,
            302 => StatusCode::Found,
            303 => StatusCode::SeeOther,
            304 => StatusCode::NotModified,
            307 => StatusCode::TemporaryRedirect,
            308 => StatusCode::PermanentRedirect,
            400 => StatusCode::BadRequest,
            401 => StatusCode::Unauthorized,
            402 => StatusCode::PaymentRequired,
            403 => StatusCode::Forbidden,
            404 => StatusCode::NotFound,
            405 => StatusCode::MethodNotAllowed,
            406 => StatusCode::NotAcceptable,
            407 => StatusCode::ProxyAuthenticationRequired,
            408 => StatusCode::RequestTimeout,
            409 => StatusCode::Conflict,
            410 => StatusCode::Gone,
            411 => StatusCode::LengthRequired,
            412 => StatusCode::PreconditionFailed,
            413 => StatusCode::PayloadTooLarge,
            414 => StatusCode::UriTooLong,
            415 => StatusCode::UnsupportedMediaType,
            416 => StatusCode::RangeNotSatisfiable,
            417 => StatusCode::ExpectationFailed,
            418 => StatusCode::ImATeapot,
            422 => StatusCode::UnprocessableEntity,
            429 => StatusCode::TooManyRequests,
            500 => StatusCode::InternalServerError,
            501 => StatusCode::NotImplemented,
            502 => StatusCode::BadGateway,
            503 => StatusCode::ServiceUnavailable,
            504 => StatusCode::GatewayTimeout,
            505 => StatusCode::HttpVersionNotSupported,
            _ => StatusCode::InternalServerError,
        }
    }
}

/// The last index at which a character occurs, or -1 when it does not.
pub open spec fn last_index_of(s: Seq<char>, c: char) -> int
    decreases s.len(),
{
    if s.len() == 0 {
        -1
    } else if s.last() == c {
        s.len() - 1
    } else {
        last_index_of(s.drop_last(), c)
    }
}

proof fn lemma_last_index_of(s: Seq<char>, c: char)
    ensures
        ({
            let li = last_index_of(s, c);
            &&& -1 <= li < s.len()
            &&& li >= 0 ==> s[li] == c && (forall|j: int| li < j < s.len() ==> s[j] != c)
            &&& li < 0 ==> forall|j: int| 0 <= j < s.len() ==> s[j] != c
        }),
    decreases s.len(),
{
    if s.len() > 0 && s.last() != c {
        lemma_last_index_of(s.drop_last(), c);
        assert(forall|j: int| 0 <= j < s.len() - 1 ==> s.drop_last()[j] == s[j]);
    }
}

/// Finds the last occurrence of a character.
#[verifier::loop_isolation(false)]
fn find_last(s: &str, c: char) -> (r: Option<usize>)
    ensures
        match r {
            Some(i) => last_index_of(s@, c) == i,
            None => last_index_of(s@, c) == -1,
        },
{
    proof {
        lemma_last_index_of(s@, c);
    }
    let n = s.unicode_len();
    let mut best: Option<usize> = None;
    let mut i: usize = 0;
    while i < n
        invariant
            0 <= i <= n,
            match best {
                Some(b) => b < i && s@[b as int] == c && (forall|j: int|
                    b < j < i ==> s@[j] != c),
                None => forall|j: int| 0 <= j < i ==> s@[j] != c,
            },
        decreases n - i,
    {
        if s.get_char(i) == c {
            best = Some(i);
        }
        i += 1;
    }
    best
}

/// The extension of the file a path names: the part of the last segment
/// after its last dot, absent when the last segment has no dot or only a
/// leading one.
pub open spec fn spec_ext(p: Seq<char>) -> Option<Seq<char>> {
    let d = last_index_of(p, '.');
    let sl = last_index_of(p, '/');
    if d > sl + 1 && d >= 1 {
        Some(p.skip(d + 1))
    } else {
        None
    }
}

/// The content type served for a file extension; unknown or absent
/// extensions are served as opaque bytes.
pub open spec fn spec_content_type(e: Option<Seq<char>>) -> Seq<char> {
    match e {
        Some(x) => {
            if x == "html"@ || x == "htm"@ {
                "text/html; charset=utf-8"@
            } else if x == "css"@ {
                "text/css; charset=utf-8"@
            } else if x == "js"@ {
                "application/javascript; charset=utf-8"@
            } else if x == "json"@ {
                "application/json; charset=utf-8"@
            } else if x == "png"@ {
                "image/png"@
            } else if x == "jpg"@ || x == "jpeg"@ {
                "image/jpeg"@
            } else if x == "gif"@ {
                "image/gif"@
            } else if x == "svg"@ {
                "image/svg+xml"@
            } else if x == "ico"@ {
                "image/x-icon"@
            } else if x == "woff"@ {
                "font/woff"@
            } else if x == "woff2"@ {
                "font/woff2"@
            } else if x == "ttf"@ {
                "font/ttf"@
            } else if x == "txt"@ {
                "text/plain; charset=utf-8"@
            } else if x == "xml"@ {
                "application/xml; charset=utf-8"@
            } else if x == "pdf"@ {
                "application/pdf"@
            } else {
                "application/octet-stream"@
            }
        },
        None => "application/octet-stream"@,
    }
}

/// Guesses the content type a file should be served with from its path.
pub fn guess_content_type(path: &str) -> (r: &'static str)
    ensures
        r@ == spec_content_type(spec_ext(path@)),
{
    let d = match find_last(path, '.') {
        Some(d) => d,
        None => {
            return "application/octet-stream";
        },
    };
    let keep = match find_last(path, '/') {
        Some(sl) => d >= 1 && d - 1 > sl,
        None => d >= 1,
    };
    if !keep {
        return "application/octet-stream";
    }
    let n = path.unicode_len();
    proof {
        lemma_last_index_of(path@, '.');
    }
    let x = path.substring_char(d + 1, n);
    assert(x@ == spec_ext(path@).unwrap());
    if str_eq(x, "html") || str_eq(x, "htm") {
        "text/html; charset=utf-8"
    } else if str_eq(x, "css") {
        "text/css; charset=utf-8"
    } else if str_eq(x, "js") {
        "application/javascript; charset=utf-8"
    } else if str_eq(x, "json") {
        "application/json; charset=utf-8"
    } else if str_eq(x, "png") {
        "image/png"
    } else if str_eq(x, "jpg") || str_eq(x, "jpeg") {
        "image/jpeg"
    } else if str_eq(x, "gif") {
        "image/gif"
    } else if str_eq(x, "svg") {
        "image/svg+xml"
    } else if str_eq(x, "ico") {
        "image/x-icon"
    } else if str_eq(x, "woff") {
        "font/woff"
    } else if str_eq(x, "woff2") {
        "font/woff2"
    } else if str_eq(x, "ttf") {
        "font/ttf"
    } else if str_eq(x, "txt") {
        "text/plain; charset=utf-8"
    } else if str_eq(x, "xml") {
        "application/xml; charset=utf-8"
    } else if str_eq(x, "pdf") {
        "application/pdf"
    } else {
        "application/octet-stream"
    }
}

} // verus!
