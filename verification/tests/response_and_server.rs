use minihttp::http::request::{Request, RequestParseError};
use minihttp::http::response::{Response, Status};
use minihttp::server::{RequestHandler, Server};

#[test]
fn response_ok_with_body_serializes_exactly() {
    let response = Response::new(Status::OK, Some("hi".to_string()));
    let mut out = String::new();
    response.write(&mut out);
    assert_eq!(out.as_bytes(), b"HTTP/1.1 200 OK\r\n\r\nhi");
    assert_eq!(out.len(), "HTTP/1.1 200 OK\r\n\r\nhi".len());
}

#[test]
fn response_not_found_without_body_serializes_exactly() {
    let response = Response::new(Status::NotFound, None);
    let mut out = String::new();
    response.write(&mut out);
    assert_eq!(out.as_bytes(), b"HTTP/1.1 404 Not found\r\n\r\n");
}

#[test]
fn response_bad_request_serializes_exactly() {
    let response = Response::new(Status::BadRequest, None);
    let mut out = String::new();
    response.write(&mut out);
    assert_eq!(out, "HTTP/1.1 400 Bad request\r\n\r\n");
}

#[test]
fn response_write_appends_to_the_sink() {
    let response = Response::new(Status::OK, Some("x".to_string()));
    let mut out = String::from("prefix|");
    response.write(&mut out);
    assert_eq!(out, "prefix|HTTP/1.1 200 OK\r\n\r\nx");
}

#[test]
fn status_codes_and_messages() {
    assert_eq!(Status::OK.code(), 200);
    assert_eq!(Status::BadRequest.code(), 400);
    assert_eq!(Status::NotFound.code(), 404);
    assert_eq!(Status::OK.message(), "OK");
    assert_eq!(Status::BadRequest.message(), "Bad request");
    assert_eq!(Status::NotFound.message(), "Not found");
}

#[test]
fn server_keeps_its_address() {
    let server = Server::new("127.0.0.1:8080".to_string());
    assert_eq!(server.address(), "127.0.0.1:8080");
}

struct EchoPathHandler;

impl RequestHandler for EchoPathHandler {
    fn handle_request(&self, request: &Request<'_>) -> Response {
        Response::new(Status::OK, Some(request.path().to_string()))
    }
}

#[test]
fn handler_default_parse_error_answer_is_bad_request() {
    let handler = EchoPathHandler;
    let response = handler.handle_parse_error(&RequestParseError::InvalidRequest);
    let mut out = String::new();
    response.write(&mut out);
    assert_eq!(out, "HTTP/1.1 400 Bad request\r\n\r\n");
}

#[test]
fn handler_dispatch_round_trip() {
    let handler = EchoPathHandler;
    let buf = b"GET /ping HTTP/1.1\r\n";
    let response = match Request::parse(buf) {
        Ok(request) => handler.handle_request(&request),
        Err(error) => handler.handle_parse_error(&error),
    };
    let mut out = String::new();
    response.write(&mut out);
    assert_eq!(out, "HTTP/1.1 200 OK\r\n\r\n/ping");
}
