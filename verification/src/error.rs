//! The library's error type. Each variant names one failure the
//! surrounding design distinguishes; contracts state exactly which inputs
//! produce which variant.

use vstd::prelude::*;

verus! {

/// Failures surfaced by the library.
#[derive(Debug, Clone, PartialEq, Eq)]
pub enum Error {
    /// A size string did not match the suffix grammar, or its value does
    /// not fit in 64 bits.
    BadSize,
    /// No free address is left in the managed network.
    Capacity,
    /// A lifecycle operation found the VM already running.
    AlreadyStarted,
    /// A lifecycle operation requires a running VM.
    NotStarted,
    /// A control-protocol value could not be decoded.
    Malformed,
    /// The control socket was drained without finding a reply.
    NoReply,
    /// The monitor answered a command with an error; the payload is the
    /// server's description.
    Monitor(String),
}

impl Error {
    /// A short description of the error, for display by callers.
    pub fn desc(&self) -> (r: String)
        ensures
            r@ == (match *self {
                Error::BadSize => "unparseable size string"@,
                Error::Capacity => "No more free addresses on network"@,
                Error::AlreadyStarted => "VM already started"@,
                Error::NotStarted => "VM not started"@,
                Error::Malformed => "malformed control-protocol message"@,
                Error::NoReply => "no response found"@,
                Error::Monitor(d) => d@,
            }),
    {
        match self {
            Error::BadSize => "unparseable size string".to_owned(),
            Error::Capacity => "No more free addresses on network".to_owned(),
            Error::AlreadyStarted => "VM already started".to_owned(),
            Error::NotStarted => "VM not started".to_owned(),
            Error::Malformed => "malformed control-protocol message".to_owned(),
            Error::NoReply => "no response found".to_owned(),
            Error::Monitor(d) => d.clone(),
        }
    }
}

} // verus!
