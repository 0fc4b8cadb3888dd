//! A small static-file HTTP server core: request framing, request-line
//! parsing, path and MIME resolution, and response building, each with a
//! verified contract. Socket and filesystem I/O live outside this crate.
use vstd::prelude::*;

pub mod cli;
pub mod decimal;
pub mod framer;
pub mod request;
pub mod response;
pub mod text;

verus! {

/// The per-connection failure conditions of the server core.
#[derive(Clone, Copy, Debug, PartialEq, Eq, Structural)]
pub enum HttpError {
    /// The request line was missing or had fewer than two tokens.
    Malformed,
    /// The peer closed the connection before the header terminator appeared.
    UnexpectedEof,
}

} // verus!
