//! Failure taxonomy of the transfer core.
use vstd::prelude::*;

verus! {

/// Every fallible operation of the transfer core returns one of these kinds;
/// the core never panics on any of them.
#[derive(Debug)]
pub enum DropError {
    /// A file could not be opened, read or written in full.
    IoFailure(String),
    /// A malformed or out-of-sequence transfer command, or an unknown
    /// rendezvous session identifier.
    ProtocolViolation(String),
    /// A channel-specific send, receive or close failure.
    TransportFailure(String),
    /// A chunk or whole-file digest mismatch that bounded retries did not cure.
    IntegrityFailure(String),
}

impl DropError {
    /// The message carried by the error, whichever kind it is.
    pub fn message(&self) -> (r: &String)
        ensures
            r@ == self.message_spec(),
    {
        match self {
            DropError::IoFailure(m) => m,
            DropError::ProtocolViolation(m) => m,
            DropError::TransportFailure(m) => m,
            DropError::IntegrityFailure(m) => m,
        }
    }

    /// The message carried by the error, as a sequence of characters.
    pub open spec fn message_spec(&self) -> Seq<char> {
        match self {
            DropError::IoFailure(m) => m@,
            DropError::ProtocolViolation(m) => m@,
            DropError::TransportFailure(m) => m@,
            DropError::IntegrityFailure(m) => m@,
        }
    }
}

} // verus!
