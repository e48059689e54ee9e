//! A minimal HTTP/1.1 request/response core: a zero-copy request-line
//! parser, a query-string decoder with duplicate-key handling, and a
//! response serializer, all with verified contracts.

pub mod http;
pub mod server;
