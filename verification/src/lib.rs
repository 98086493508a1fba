//! Construction and wire rendering of HTTP/1.1 response messages.
//!
//! A response is built from a status code, an optional header map and an
//! optional body, and is rendered as a status line, a `Content-Length` line,
//! a blank line and the body.

pub mod decimal;
pub mod headers;
pub mod httpresponse;
pub mod text;
