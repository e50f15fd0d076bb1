//! A minimal HTTP/1.1 server core: request decoding, route matching with
//! path parameters, middleware composition, and response serialization,
//! including chunked transfer framing and Server-Sent Events.
//!
//! All networking lives outside this crate; the functions here work on plain
//! bytes and strings, so every decision the engine makes is verified.

pub mod meta;
pub mod middleware;
pub mod parse;
pub mod request;
pub mod response;
pub mod server;
pub mod sse;
pub mod strmap;
pub mod text;

pub use meta::guess_content_type;
pub use meta::Method;
pub use meta::ParseMethodError;
pub use meta::StatusCode;
pub use middleware::Handler;
pub use middleware::Middleware;
pub use request::Context;
pub use request::ProtocolError;
pub use request::Request;
pub use response::Body;
pub use response::Response;
pub use server::Route;
pub use server::RouteSegment;
pub use server::RouteTable;
pub use sse::SseSendResult;
pub use sse::SseSender;
