//! The error taxonomy of the client.

use vstd::prelude::*;

verus! {

/// Why an inbound text could not be decoded. Decode failures are recovered
/// locally: the message is dropped and processing continues.
#[derive(Debug, Clone, Copy, PartialEq, Eq, Structural)]
pub enum DecodeError {
    /// The text is not a JSON document.
    NotJson,
    /// The document is JSON but does not have the expected shape.
    BadShape,
}

/// The errors the client surfaces to its callers.
#[derive(Debug, Clone, Copy, PartialEq, Eq, Structural)]
pub enum PoloniexError {
    /// The transport handshake failed; no connection was established.
    CannotConnect,
    /// The connection is no longer writable; the outbound send was refused.
    SendError,
    /// A frame arrived for a recognized channel this client deliberately
    /// does not handle; surfaced loudly rather than silently swallowed.
    UnhandledChannel(u32),
}

} // verus!
