//! Application error codes that the client sends.

use vstd::prelude::*;

verus! {

/// An HTTP/3 application error code.
#[derive(Clone, Copy, Debug, PartialEq, Eq, Structural)]
pub enum Code {
    /// Datagram or Capsule parse error.
    DatagramError,
    /// There is no error to signal.
    NoError,
    /// An internal error in the HTTP stack.
    InternalError,
    /// The request or its response is cancelled.
    RequestCancelled,
    /// An HTTP message was malformed.
    MessageError,
}

impl Code {
    /// The number of the code on the wire.
    pub open spec fn number(self) -> u64 {
        match self {
            Code::DatagramError => 0x33,
            Code::NoError => 0x100,
            Code::InternalError => 0x102,
            Code::RequestCancelled => 0x10c,
            Code::MessageError => 0x10e,
        }
    }

    /// The number of the code on the wire.
    pub fn value(self) -> (v: u64)
        ensures
            v == self.number(),
    {
        match self {
            Code::DatagramError => 0x33,
            Code::NoError => 0x100,
            Code::InternalError => 0x102,
            Code::RequestCancelled => 0x10c,
            Code::MessageError => 0x10e,
        }
    }
}

} // verus!
