//! The error kinds of this library. Finding no chat buffer at all is a
//! normal negative result, not an error, and is reported as `None` by the
//! lookup functions instead.

use vstd::prelude::*;
use vstd::string::*;

verus! {

/// What can go wrong in a user-invoked command: a named buffer that does
/// not exist or is no longer valid, a poisoned state guard, an apply block
/// without a target path, or a failed host call with the host's message.
#[derive(Debug, Clone, PartialEq, Eq)]
pub enum Error {
    BufferNotFound(String),
    InvalidBuffer(String),
    StateLockFailure,
    NoPathToEdit,
    HostApiFailure(String),
}

/// The description `message` returns for each error kind.
pub open spec fn message_spec(e: Error) -> Seq<char> {
    match e {
        Error::BufferNotFound(p) => "Buffer not found: "@ + p@,
        Error::InvalidBuffer(p) => "Invalid buffer: "@ + p@,
        Error::StateLockFailure => "Plugin state lock is poisoned"@,
        Error::NoPathToEdit => "No path to edit"@,
        Error::HostApiFailure(d) => "Host API error: "@ + d@,
    }
}

impl Error {
    /// A short description of the error, for the host's notify sink.
    pub fn message(&self) -> (r: String)
        ensures
            r@ == message_spec(*self),
    {
        match self {
            Error::BufferNotFound(p) => {
                let mut r = String::from_str("Buffer not found: ");
                r.append(p.as_str());
                r
            },
            Error::InvalidBuffer(p) => {
                let mut r = String::from_str("Invalid buffer: ");
                r.append(p.as_str());
                r
            },
            Error::StateLockFailure => String::from_str("Plugin state lock is poisoned"),
            Error::NoPathToEdit => String::from_str("No path to edit"),
            Error::HostApiFailure(d) => {
                let mut r = String::from_str("Host API error: ");
                r.append(d.as_str());
                r
            },
        }
    }
}

} // verus!
