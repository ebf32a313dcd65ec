//! A small HTTP/1.1 engine: frame raw bytes into a request, route the request
//! to a registered handler, and turn the response back into bytes.

pub mod body;
pub mod error;
pub mod headers;
pub mod request;
pub mod response;
pub mod router;
pub mod server;
pub mod utils;

pub use error::{ParseError, RequestError};
pub use request::{parse_request, Request};
pub use router::Router;
