//! The request-line parser: a raw byte buffer becomes a validated
//! `Request` (method, path, optional query string) or a classified parse
//! error. The produced fragments are borrowed views into the buffer.

use vstd::prelude::*;
use vstd::string::*;
use vstd::utf8::{valid_utf8, decode_utf8};
use crate::http::{split_at_first_spec, next_token, str_eq};
use crate::http::query_string::{QueryString, QueryMap, query_string_spec};

verus! {

/// The nine accepted HTTP/1.1 verbs. No other token is a method.
#[derive(Debug, Clone, Copy, PartialEq, Eq, Structural)]
pub enum Method {
    GET,
    PUT,
    DELETE,
    POST,
    HEAD,
    OPTIONS,
    TRACE,
    CONNECT,
    PATCH,
}

/// The method a token denotes, or nothing: an exact, case-sensitive match
/// against the nine verbs, with no trimming and no case folding.
pub open spec fn method_of(s: Seq<char>) -> Option<Method> {
    if s == "GET"@ {
        Some(Method::GET)
    } else if s == "PUT"@ {
        Some(Method::PUT)
    } else if s == "DELETE"@ {
        Some(Method::DELETE)
    } else if s == "POST"@ {
        Some(Method::POST)
    } else if s == "HEAD"@ {
        Some(Method::HEAD)
    } else if s == "OPTIONS"@ {
        Some(Method::OPTIONS)
    } else if s == "TRACE"@ {
        Some(Method::TRACE)
    } else if s == "CONNECT"@ {
        Some(Method::CONNECT)
    } else if s == "PATCH"@ {
        Some(Method::PATCH)
    } else {
        None
    }
}

/// A rejected method token, carrying the offending text.
#[derive(Debug)]
pub struct MethodParseError {
    method: String,
}

impl View for MethodParseError {
    type V = Seq<char>;

    closed spec fn view(&self) -> Seq<char> {
        self.method@
    }
}

impl MethodParseError {
    pub fn new(method: String) -> (r: Self)
        ensures
            r@ == method@,
    {
        MethodParseError { method }
    }

    /// The offending token itself.
    pub fn method(&self) -> (r: &str)
        ensures
            r@ == self@,
    {
        self.method.as_str()
    }
}

impl Method {
    /// Matches a token against the nine verbs; anything else is an error
    /// carrying the token.
    pub fn parse(s: &str) -> (r: Result<Method, MethodParseError>)
        ensures
            match r {
                Ok(m) => method_of(s@) == Some(m),
                Err(e) => method_of(s@) is None && e@ == s@,
            },
    {
        if str_eq(s, "GET") {
            Ok(Method::GET)
        } else if str_eq(s, "PUT") {
            Ok(Method::PUT)
        } else if str_eq(s, "DELETE") {
            Ok(Method::DELETE)
        } else if str_eq(s, "POST") {
            Ok(Method::POST)
        } else if str_eq(s, "HEAD") {
            Ok(Method::HEAD)
        } else if str_eq(s, "OPTIONS") {
            Ok(Method::OPTIONS)
        } else if str_eq(s, "TRACE") {
            Ok(Method::TRACE)
        } else if str_eq(s, "CONNECT") {
            Ok(Method::CONNECT)
        } else if str_eq(s, "PATCH") {
            Ok(Method::PATCH)
        } else {
            Err(MethodParseError::new(s.to_owned()))
        }
    }
}

/// The complete taxonomy of request-parse failures.
#[derive(Debug)]
pub enum RequestParseError {
    InvalidRequest,
    InvalidEncoding,
    UnsupportedMethod(String),
    UnsupportedProtocol(String),
}

/// The spec-level shape of a parse error: the texts it carries, as
/// character sequences.
pub enum ParseErrorModel {
    InvalidRequest,
    InvalidEncoding,
    UnsupportedMethod(Seq<char>),
    UnsupportedProtocol(Seq<char>),
}

impl View for RequestParseError {
    type V = ParseErrorModel;

    open spec fn view(&self) -> ParseErrorModel {
        match self {
            RequestParseError::InvalidRequest => ParseErrorModel::InvalidRequest,
            RequestParseError::InvalidEncoding => ParseErrorModel::InvalidEncoding,
            RequestParseError::UnsupportedMethod(m) => ParseErrorModel::UnsupportedMethod(m@),
            RequestParseError::UnsupportedProtocol(p) => ParseErrorModel::UnsupportedProtocol(p@),
        }
    }
}

/// The one rendering of each error, used both as the human-readable and
/// the diagnostic text.
pub open spec fn error_message_spec(e: ParseErrorModel) -> Seq<char> {
    match e {
        ParseErrorModel::InvalidRequest => "Invalid Request"@,
        ParseErrorModel::InvalidEncoding => "Invalid Encoding"@,
        ParseErrorModel::UnsupportedMethod(m) => "Unsupported Method "@ + m,
        ParseErrorModel::UnsupportedProtocol(p) => "Unsupported Protocol "@ + p,
    }
}

impl RequestParseError {
    /// Renders the error as its user-visible message.
    pub fn message(&self) -> (r: String)
        ensures
            r@ == error_message_spec(self@),
    {
        match self {
            RequestParseError::InvalidRequest => "Invalid Request".to_owned(),
            RequestParseError::InvalidEncoding => "Invalid Encoding".to_owned(),
            RequestParseError::UnsupportedMethod(method) => {
                let mut text = "Unsupported Method ".to_owned();
                text.append(method.as_str());
                text
            },
            RequestParseError::UnsupportedProtocol(protocol) => {
                let mut text = "Unsupported Protocol ".to_owned();
                text.append(protocol.as_str());
                text
            },
        }
    }
}

/// The spec-level shape of a parsed request.
pub struct RequestModel {
    pub method: Method,
    pub path: Seq<char>,
    pub query: Option<QueryMap>,
}

/// What parsing a buffer yields, step by step: decode as UTF-8, split off
/// the method and target at spaces, split off the protocol at the first
/// carriage return, extract the query at the first `?` of the target,
/// check the protocol before the method.
pub open spec fn parse_request_spec(bytes: Seq<u8>) -> Result<RequestModel, ParseErrorModel> {
    if !valid_utf8(bytes) {
        Err(ParseErrorModel::InvalidEncoding)
    } else {
        let text = decode_utf8(bytes);
        match split_at_first_spec(text, ' ') {
            None => Err(ParseErrorModel::InvalidRequest),
            Some((method_tok, after_method)) => match split_at_first_spec(after_method, ' ') {
                None => Err(ParseErrorModel::InvalidRequest),
                Some((target, after_target)) => match split_at_first_spec(after_target, '\r') {
                    None => Err(ParseErrorModel::InvalidRequest),
                    Some((protocol, _)) => {
                        if protocol != "HTTP/1.1"@ {
                            Err(ParseErrorModel::UnsupportedProtocol(protocol))
                        } else {
                            match method_of(method_tok) {
                                None => Err(ParseErrorModel::UnsupportedMethod(method_tok)),
                                Some(method) => Ok(
                                    match split_at_first_spec(target, '?') {
                                        None => RequestModel {
                                            method,
                                            path: target,
                                            query: None,
                                        },
                                        Some((path, fragment)) => RequestModel {
                                            method,
                                            path,
                                            query: Some(query_string_spec(fragment)),
                                        },
                                    },
                                ),
                            }
                        }
                    },
                },
            },
        }
    }
}

/// A validated request: its path and query entries borrow from the parsed
/// buffer, whose lifetime bounds theirs.
#[derive(Debug)]
pub struct Request<'a> {
    method: Method,
    path: &'a str,
    query_string: Option<QueryString<'a>>,
}

impl<'a> View for Request<'a> {
    type V = RequestModel;

    closed spec fn view(&self) -> RequestModel {
        RequestModel {
            method: self.method,
            path: self.path@,
            query: match self.query_string {
                Some(q) => Some(q@),
                None => None,
            },
        }
    }
}

impl<'a> Request<'a> {
    /// The parser only builds requests whose query string is well-formed.
    pub closed spec fn wf(&self) -> bool {
        self.query_string matches Some(q) ==> q.wf()
    }

    pub fn method(&self) -> (r: &Method)
        ensures
            *r == self@.method,
    {
        &self.method
    }

    pub fn path(&self) -> (r: &'a str)
        ensures
            r@ == self@.path,
    {
        self.path
    }

    pub fn query_string(&self) -> (r: Option<&QueryString<'a>>)
        ensures
            match r {
                Some(q) => {
                    &&& self@.query == Some(q@)
                    &&& self.wf() ==> q.wf()
                },
                None => self@.query is None,
            },
    {
        self.query_string.as_ref()
    }

    /// Parses a raw buffer into a request, or classifies the failure:
    /// bytes that are not UTF-8 are an encoding error; a request line
    /// without two spaces and a carriage return is invalid; a wrong
    /// protocol is reported before a wrong method.
    pub fn parse(buf: &'a [u8]) -> (r: Result<Request<'a>, RequestParseError>)
        ensures
            match r {
                Ok(request) => {
                    &&& request.wf()
                    &&& parse_request_spec(buf@) == Ok::<RequestModel, ParseErrorModel>(request@)
                },
                Err(e) => parse_request_spec(buf@) == Err::<RequestModel, ParseErrorModel>(e@),
            },
    {
        let request_str = match decode_utf8_bytes(buf) {
            Some(s) => s,
            None => {
                return Err(RequestParseError::InvalidEncoding);
            },
        };
        let (method_tok, after_method) = match next_token(request_str, ' ') {
            Some(parts) => parts,
            None => {
                return Err(RequestParseError::InvalidRequest);
            },
        };
        let (target, after_target) = match next_token(after_method, ' ') {
            Some(parts) => parts,
            None => {
                return Err(RequestParseError::InvalidRequest);
            },
        };
        let (protocol, _discarded) = match next_token(after_target, '\r') {
            Some(parts) => parts,
            None => {
                return Err(RequestParseError::InvalidRequest);
            },
        };
        let (path, query_string) = match next_token(target, '?') {
            Some((prefix, fragment)) => (prefix, Some(QueryString::parse(fragment))),
            None => (target, None),
        };
        if !str_eq(protocol, "HTTP/1.1") {
            return Err(RequestParseError::UnsupportedProtocol(protocol.to_owned()));
        }
        let method = match Method::parse(method_tok) {
            Ok(m) => m,
            Err(e) => {
                return Err(RequestParseError::UnsupportedMethod(e.method));
            },
        };
        Ok(Request { method, path, query_string })
    }
}

/// Relies on std::str::from_utf8: it succeeds exactly on UTF-8-valid
/// bytes, and the returned text is their decoding.
#[verifier::external_body]
fn decode_utf8_bytes<'a>(buf: &'a [u8]) -> (r: Option<&'a str>)
    ensures
        r is Some <==> valid_utf8(buf@),
        r matches Some(s) ==> s@ == decode_utf8(buf@),
{
    std::str::from_utf8(buf).ok()
}

/// A byte sequence that is not valid UTF-8 is always rejected as an
/// encoding failure, whatever else it holds.
pub proof fn lemma_invalid_utf8_rejected(bytes: Seq<u8>)
    ensures
        !valid_utf8(bytes) ==> parse_request_spec(bytes)
            == Err::<RequestModel, ParseErrorModel>(ParseErrorModel::InvalidEncoding),
{
}

/// The protocol is validated before the method: on a request line whose
/// protocol token is not `HTTP/1.1`, the protocol error is reported even
/// when the method token is bogus too.
pub proof fn lemma_protocol_checked_before_method(bytes: Seq<u8>)
    ensures
        ({
            &&& valid_utf8(bytes)
            &&& split_at_first_spec(decode_utf8(bytes), ' ') matches Some((method_tok, rest))
            &&& split_at_first_spec(rest, ' ') matches Some((_target, rest2))
            &&& split_at_first_spec(rest2, '\r') matches Some((protocol, _))
            &&& protocol != "HTTP/1.1"@
        }) ==> parse_request_spec(bytes) == Err::<RequestModel, ParseErrorModel>(
            ParseErrorModel::UnsupportedProtocol(
                split_at_first_spec(
                    split_at_first_spec(
                        split_at_first_spec(decode_utf8(bytes), ' ').unwrap().1,
                        ' ',
                    ).unwrap().1,
                    '\r',
                ).unwrap().0,
            ),
        ),
{
}

} // verus!
