//! The bridges' error taxonomy.
//!
//! Every failure surfaced upstream falls in one of these classes; each
//! carries the rendered message that the upstream adapter reports.

use vstd::prelude::*;

verus! {

#[derive(Debug, PartialEq, Eq)]
pub enum BridgeError {
    /// No helper command could be resolved for the request.
    NoServerRegistered(String),
    /// A required argument is missing or of the wrong shape.
    InvalidParams(String),
    /// A document exceeds the inline size limit.
    DocumentTooLarge(String),
    /// A document is not present on disk.
    DocumentMissing(String),
    /// The helper answered with a protocol-level error.
    Protocol(String),
    /// The helper's stream ended or produced malformed framing.
    Transport(String),
    /// The helper process could not be started.
    Spawn(String),
    /// A named agent or approval key is unknown.
    NotFound(String),
}

impl BridgeError {
    /// The rendered message.
    pub open spec fn msg(self) -> Seq<char> {
        match self {
            BridgeError::NoServerRegistered(s) => s@,
            BridgeError::InvalidParams(s) => s@,
            BridgeError::DocumentTooLarge(s) => s@,
            BridgeError::DocumentMissing(s) => s@,
            BridgeError::Protocol(s) => s@,
            BridgeError::Transport(s) => s@,
            BridgeError::Spawn(s) => s@,
            BridgeError::NotFound(s) => s@,
        }
    }

    /// Borrow the rendered message.
    pub fn message(&self) -> (r: &String)
        ensures
            r@ == self.msg(),
    {
        match self {
            BridgeError::NoServerRegistered(s) => s,
            BridgeError::InvalidParams(s) => s,
            BridgeError::DocumentTooLarge(s) => s,
            BridgeError::DocumentMissing(s) => s,
            BridgeError::Protocol(s) => s,
            BridgeError::Transport(s) => s,
            BridgeError::Spawn(s) => s,
            BridgeError::NotFound(s) => s,
        }
    }
}

} // verus!
