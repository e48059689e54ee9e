use minihttp::http::query_string::QueryParameterValue;
use minihttp::http::request::{Method, Request, RequestParseError};

#[test]
fn parse_minimal_get() {
    let buf = b"GET / HTTP/1.1\r\n";
    let request = Request::parse(buf).unwrap();
    assert_eq!(*request.method(), Method::GET);
    assert_eq!(request.path(), "/");
    assert!(request.query_string().is_none());
}

#[test]
fn parse_with_query_and_headers() {
    let buf = b"GET /hello?name=Ada&name=Lovelace&lang=en HTTP/1.1\r\nHost: x\r\n\r\n";
    let request = Request::parse(buf).unwrap();
    assert_eq!(*request.method(), Method::GET);
    assert_eq!(request.path(), "/hello");
    let query = request.query_string().unwrap();
    match query.get("name") {
        Some(QueryParameterValue::Multiple(values)) => assert_eq!(values, &vec!["Ada", "Lovelace"]),
        other => panic!("expected Multiple under name, got {:?}", other),
    }
    match query.get("lang") {
        Some(QueryParameterValue::Single(value)) => assert_eq!(*value, "en"),
        other => panic!("expected Single under lang, got {:?}", other),
    }
}

#[test]
fn parse_path_query_split() {
    let buf = b"GET /a/b?x=1&y=2 HTTP/1.1\r\n";
    let request = Request::parse(buf).unwrap();
    assert_eq!(request.path(), "/a/b");
    let query = request.query_string().unwrap();
    match query.get("x") {
        Some(QueryParameterValue::Single(value)) => assert_eq!(*value, "1"),
        other => panic!("expected Single under x, got {:?}", other),
    }
    match query.get("y") {
        Some(QueryParameterValue::Single(value)) => assert_eq!(*value, "2"),
        other => panic!("expected Single under y, got {:?}", other),
    }
}

#[test]
fn parse_empty_key_keeps_encoded_value() {
    let buf = b"PATCH /x?=%20 HTTP/1.1\r\n";
    let request = Request::parse(buf).unwrap();
    assert_eq!(*request.method(), Method::PATCH);
    assert_eq!(request.path(), "/x");
    let query = request.query_string().unwrap();
    match query.get("") {
        Some(QueryParameterValue::Single(value)) => assert_eq!(*value, "%20"),
        other => panic!("expected Single under empty key, got {:?}", other),
    }
}

#[test]
fn parse_unsupported_protocol() {
    let buf = b"GET /x HTTP/2.0\r\n";
    match Request::parse(buf) {
        Err(RequestParseError::UnsupportedProtocol(protocol)) => {
            assert_eq!(protocol, "HTTP/2.0")
        },
        other => panic!("expected UnsupportedProtocol, got {:?}", other),
    }
}

#[test]
fn parse_protocol_reported_before_method() {
    let buf = b"FOO /x HTTP/2.0\r\n";
    match Request::parse(buf) {
        Err(RequestParseError::UnsupportedProtocol(protocol)) => {
            assert_eq!(protocol, "HTTP/2.0")
        },
        other => panic!("expected UnsupportedProtocol, got {:?}", other),
    }
}

#[test]
fn parse_unsupported_method_on_valid_protocol() {
    let buf = b"FOO /x HTTP/1.1\r\n";
    match Request::parse(buf) {
        Err(RequestParseError::UnsupportedMethod(method)) => assert_eq!(method, "FOO"),
        other => panic!("expected UnsupportedMethod, got {:?}", other),
    }
    let buf = b"WAT /x HTTP/1.1\r\n";
    match Request::parse(buf) {
        Err(RequestParseError::UnsupportedMethod(method)) => assert_eq!(method, "WAT"),
        other => panic!("expected UnsupportedMethod, got {:?}", other),
    }
}

#[test]
fn parse_missing_spaces_is_invalid() {
    match Request::parse(b"GET\r\n") {
        Err(RequestParseError::InvalidRequest) => {},
        other => panic!("expected InvalidRequest, got {:?}", other),
    }
    match Request::parse(b"GET /x\r\n") {
        Err(RequestParseError::InvalidRequest) => {},
        other => panic!("expected InvalidRequest, got {:?}", other),
    }
    match Request::parse(b"GET /x HTTP/1.1") {
        Err(RequestParseError::InvalidRequest) => {},
        other => panic!("expected InvalidRequest, got {:?}", other),
    }
}

#[test]
fn parse_invalid_utf8_is_encoding_error() {
    let buf: &[u8] = &[0xff, 0xfe, b' ', b'/', b'x', b' ', b'H', b'\r', b'\n'];
    match Request::parse(buf) {
        Err(RequestParseError::InvalidEncoding) => {},
        other => panic!("expected InvalidEncoding, got {:?}", other),
    }
    match Request::parse(&[0x80]) {
        Err(RequestParseError::InvalidEncoding) => {},
        other => panic!("expected InvalidEncoding, got {:?}", other),
    }
}

#[test]
fn parse_multibyte_path_round_trips() {
    let text = "GET /h\u{e9}llo HTTP/1.1\r\n";
    let request = Request::parse(text.as_bytes()).unwrap();
    assert_eq!(request.path(), "/h\u{e9}llo");
}

#[test]
fn parse_is_zero_copy() {
    let buf = b"GET /a/b?x=1 HTTP/1.1\r\n";
    let request = Request::parse(buf).unwrap();
    let start = buf.as_ptr() as usize;
    let end = start + buf.len();
    let path = request.path();
    let path_start = path.as_ptr() as usize;
    assert!(start <= path_start && path_start + path.len() <= end);
    let query = request.query_string().unwrap();
    match query.get("x") {
        Some(QueryParameterValue::Single(value)) => {
            let value_start = value.as_ptr() as usize;
            assert!(start <= value_start && value_start + value.len() <= end);
        },
        other => panic!("expected Single under x, got {:?}", other),
    }
}

#[test]
fn method_parse_accepts_the_nine_verbs() {
    let cases = [
        ("GET", Method::GET),
        ("PUT", Method::PUT),
        ("DELETE", Method::DELETE),
        ("POST", Method::POST),
        ("HEAD", Method::HEAD),
        ("OPTIONS", Method::OPTIONS),
        ("TRACE", Method::TRACE),
        ("CONNECT", Method::CONNECT),
        ("PATCH", Method::PATCH),
    ];
    for (token, method) in cases {
        assert_eq!(Method::parse(token).unwrap(), method);
    }
}

#[test]
fn method_parse_is_case_sensitive_and_exact() {
    for token in ["get", "Get", " GET", "GET ", "GETX", ""] {
        let error = Method::parse(token).unwrap_err();
        assert_eq!(error.method(), token);
    }
}

#[test]
fn error_messages_render() {
    assert_eq!(RequestParseError::InvalidRequest.message(), "Invalid Request");
    assert_eq!(RequestParseError::InvalidEncoding.message(), "Invalid Encoding");
    assert_eq!(
        RequestParseError::UnsupportedMethod("WAT".to_string()).message(),
        "Unsupported Method WAT"
    );
    assert_eq!(
        RequestParseError::UnsupportedProtocol("HTTP/2.0".to_string()).message(),
        "Unsupported Protocol HTTP/2.0"
    );
}

#[test]
fn parse_empty_query_fragment_yields_empty_key() {
    let buf = b"GET /x? HTTP/1.1\r\n";
    let request = Request::parse(buf).unwrap();
    assert_eq!(request.path(), "/x");
    let query = request.query_string().unwrap();
    match query.get("") {
        Some(QueryParameterValue::Single(value)) => assert_eq!(*value, ""),
        other => panic!("expected Single under empty key, got {:?}", other),
    }
}
