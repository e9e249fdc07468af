//! Error taxonomy of the transaction layer.

use vstd::prelude::*;

verus! {

/// A failure visible to a caller of the transaction layer.
///
/// Configuration errors come from malformed trust material at build time;
/// connect errors from transport setup; connection-lost from a transport
/// I/O failure while running; decode from a payload that is not a
/// well-formed message; cancelled from dropping a request before it
/// resolved.
#[derive(Clone, Copy, Debug, PartialEq, Eq, Structural)]
pub enum ClientError {
    Configuration,
    Connect,
    ConnectionLost,
    Decode,
    Cancelled,
}

impl ClientError {
    /// A short human-readable label for the error kind.
    pub fn describe(&self) -> (r: &'static str)
        ensures
            self is Configuration ==> r@ == "invalid configuration"@,
            self is Connect ==> r@ == "connection setup failed"@,
            self is ConnectionLost ==> r@ == "connection lost"@,
            self is Decode ==> r@ == "malformed message"@,
            self is Cancelled ==> r@ == "request cancelled"@,
    {
        match self {
            ClientError::Configuration => "invalid configuration",
            ClientError::Connect => "connection setup failed",
            ClientError::ConnectionLost => "connection lost",
            ClientError::Decode => "malformed message",
            ClientError::Cancelled => "request cancelled",
        }
    }
}

} // verus!
