//! Errors of the client library.

use vstd::prelude::*;

verus! {

/// What went wrong, with a human-readable message. The messages of this
/// library are fixed texts: none carries key bytes.
#[derive(Debug)]
pub enum PolishApiError {
    /// The server refused the credentials.
    Authentication { message: String },
    /// The credentials do not grant the operation.
    Authorization { message: String },
    /// The server answered with an error document.
    Api { code: String, message: String },
    /// A private key that is not a well-formed RSA key, or a PEM envelope
    /// that is missing or holds invalid base64.
    KeyFormat(String),
    /// The cryptographic signing step failed.
    Signing(String),
    /// A string that is not a compact JWS of three dot-separated segments.
    Format(String),
    /// A compact JWS whose payload segment is not empty: a regular JWS, not
    /// a detached one.
    NotDetached(String),
    /// The client is not set up for the operation (no signing key).
    Config(String),
    /// A field value that does not have the required shape.
    Validation(String),
    /// The request did not complete in time.
    Timeout,
    /// Anything else.
    Internal(String),
}

} // verus!
