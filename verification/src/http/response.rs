//! The response writer: a status and an optional body serialize to the
//! exact message text `HTTP/1.1 <code> <reason>\r\n\r\n<body>`, with no
//! headers.

use vstd::prelude::*;
use vstd::string::*;

verus! {

/// The closed set of statuses the core emits.
#[derive(Debug, Clone, Copy, PartialEq, Eq, Structural)]
pub enum Status {
    OK,
    BadRequest,
    NotFound,
}

/// The decimal code of each status.
pub open spec fn status_code_spec(status: Status) -> int {
    match status {
        Status::OK => 200,
        Status::BadRequest => 400,
        Status::NotFound => 404,
    }
}

/// The decimal code of each status, as the digits the response carries.
pub open spec fn status_code_text_spec(status: Status) -> Seq<char> {
    match status {
        Status::OK => "200"@,
        Status::BadRequest => "400"@,
        Status::NotFound => "404"@,
    }
}

/// The canonical reason string of each status.
pub open spec fn status_message_spec(status: Status) -> Seq<char> {
    match status {
        Status::OK => "OK"@,
        Status::BadRequest => "Bad request"@,
        Status::NotFound => "Not found"@,
    }
}

impl Status {
    /// The numeric status code.
    pub fn code(&self) -> (r: u16)
        ensures
            r == status_code_spec(*self),
    {
        match self {
            Status::OK => 200,
            Status::BadRequest => 400,
            Status::NotFound => 404,
        }
    }

    /// The canonical reason string.
    pub fn message(&self) -> (r: &str)
        ensures
            r@ == status_message_spec(*self),
    {
        match self {
            Status::OK => "OK",
            Status::BadRequest => "Bad request",
            Status::NotFound => "Not found",
        }
    }

    fn code_text(&self) -> (r: &str)
        ensures
            r@ == status_code_text_spec(*self),
    {
        match self {
            Status::OK => "200",
            Status::BadRequest => "400",
            Status::NotFound => "404",
        }
    }
}

/// The spec-level shape of a response.
pub struct ResponseModel {
    pub status: Status,
    pub body: Option<Seq<char>>,
}

/// The exact text a response serializes to: status line, a blank line,
/// then the body (or nothing). No other header is emitted.
pub open spec fn response_text_spec(r: ResponseModel) -> Seq<char> {
    "HTTP/1.1 "@ + status_code_text_spec(r.status) + " "@ + status_message_spec(r.status)
        + "\r\n\r\n"@ + match r.body {
        Some(body) => body,
        None => Seq::empty(),
    }
}

/// A response: a status and an optional owned body.
#[derive(Debug)]
pub struct Response {
    status: Status,
    body: Option<String>,
}

impl View for Response {
    type V = ResponseModel;

    closed spec fn view(&self) -> ResponseModel {
        ResponseModel {
            status: self.status,
            body: match self.body {
                Some(body) => Some(body@),
                None => None,
            },
        }
    }
}

impl Response {
    pub fn new(status: Status, body: Option<String>) -> (r: Self)
        ensures
            r@.status == status,
            match body {
                Some(b) => r@.body == Some(b@),
                None => r@.body is None,
            },
    {
        Response { status, body }
    }

    /// Appends the serialized response to `sink`: exactly the message
    /// text, after whatever `sink` already held. The writer is stateless;
    /// one call emits one complete response.
    pub fn write(&self, sink: &mut String)
        ensures
            final(sink)@ == old(sink)@ + response_text_spec(self@),
    {
        sink.append("HTTP/1.1 ");
        sink.append(self.status.code_text());
        sink.append(" ");
        sink.append(self.status.message());
        sink.append("\r\n\r\n");
        match &self.body {
            Some(body) => {
                sink.append(body.as_str());
            },
            None => {},
        }
        proof {
            assert(sink@ =~= old(sink)@ + response_text_spec(self@));
        }
    }
}

} // verus!
