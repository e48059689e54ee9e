//! The serving core's boundary: the server's configuration and the
//! handler contract. Accepting connections and moving bytes is the
//! hosting program's work; it parses with `Request::parse`, dispatches
//! through a `RequestHandler`, and serializes with `Response::write`.

use vstd::prelude::*;
use crate::http::request::{Request, RequestParseError};
use crate::http::response::{Response, Status};

verus! {

/// A server bound to one address, handling one request per connection,
/// strictly serially.
pub struct Server {
    address: String,
}

impl View for Server {
    type V = Seq<char>;

    closed spec fn view(&self) -> Seq<char> {
        self.address@
    }
}

impl Server {
    pub fn new(address: String) -> (r: Self)
        ensures
            r@ == address@,
    {
        Server { address }
    }

    /// The `host:port` string the server was constructed with.
    pub fn address(&self) -> (r: &str)
        ensures
            r@ == self@,
    {
        self.address.as_str()
    }
}

/// The boundary between the parser and request handling: a handler maps a
/// request to a response, and may override what a parse failure answers.
/// By default a parse failure answers 400 with no body.
pub trait RequestHandler {
    fn handle_request(&self, request: &Request<'_>) -> Response;

    fn handle_parse_error(&self, error: &RequestParseError) -> Response {
        Response::new(Status::BadRequest, None)
    }
}

} // verus!
