//! Error types of the networking core.

use vstd::prelude::*;

verus! {

/// Failure while setting up a connection: socket binding, transport
/// construction, or parsing of the user-supplied address string. All of these
/// are recoverable; the caller surfaces the message and lets the user retry.
#[derive(Clone, Copy, Debug, PartialEq, Eq, Structural)]
pub enum NetworkError {
    UnableBindSocket,
    UnableCreateServerTransport,
    UnableCreateClientTransport,
    MissingAddress,
    InvalidAddress,
    InvalidPort,
}

impl NetworkError {
    /// Human-readable description, one fixed message per variant.
    pub fn message(&self) -> (r: &'static str)
        ensures
            r@ == match *self {
                NetworkError::MissingAddress => "Missing IP address"@,
                NetworkError::InvalidAddress => "Unable to parse IP address"@,
                NetworkError::InvalidPort => "Invalid port, expected decimal number from 0 to 65535"@,
                NetworkError::UnableBindSocket => "Unable to bind socket"@,
                NetworkError::UnableCreateServerTransport => "Unable to create server transport"@,
                NetworkError::UnableCreateClientTransport => "Unable to create client transport"@,
            },
    {
        match *self {
            NetworkError::MissingAddress => "Missing IP address",
            NetworkError::InvalidAddress => "Unable to parse IP address",
            NetworkError::InvalidPort => "Invalid port, expected decimal number from 0 to 65535",
            NetworkError::UnableBindSocket => "Unable to bind socket",
            NetworkError::UnableCreateServerTransport => "Unable to create server transport",
            NetworkError::UnableCreateClientTransport => "Unable to create client transport",
        }
    }
}

/// Failure while decoding a single inbound replication payload. Fatal only
/// for that message: the connection stays up and later payloads are handled.
#[derive(Clone, Copy, Debug, PartialEq, Eq, Structural)]
pub enum DecodeError {
    /// The buffer ended before the fixed-size record was complete.
    UnexpectedEnd,
}

impl DecodeError {
    /// Human-readable description.
    pub fn message(&self) -> (r: &'static str)
        ensures
            r@ == "Replication payload ended before the record was complete"@,
    {
        "Replication payload ended before the record was complete"
    }
}

} // verus!
