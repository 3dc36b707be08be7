//! A minimal HTTP/1.1 server core: reading a request from the bytes of a
//! connection, and writing a response back in wire form.

pub mod headers;
pub mod request;
pub mod response;
pub mod server;
pub mod vocab;

pub use headers::Headers;
pub use request::{parse_length, parse_request, HttpRequest, ParseError, PendingRequest};
pub use response::{HttpResponse, HttpResponseBuilder};
pub use server::{Connection, ConnectionAction, HttpServer};
pub use vocab::{HttpMethod, HttpStatusCode};

