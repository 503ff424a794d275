//! Unreliable QUIC Datagrams.

use vstd::prelude::*;

verus! {

/// Failure to accept a QUIC Datagram into the local transport.
#[non_exhaustive]
#[derive(Clone, Copy, Debug, PartialEq, Eq, Structural)]
pub enum DatagramError {
    /// QUIC Datagrams were not enabled by both endpoints.
    Unavailable,
    /// The payload exceeds the current transport maximum.
    TooLarge,
    /// The QUIC connection failed. The transport keeps the error and finds it again by the
    /// number.
    Connection(u64),
}

impl DatagramError {
    /// What the error says, apart from the connection's own error.
    pub open spec fn text(self) -> Seq<char> {
        match self {
            DatagramError::Unavailable => "QUIC Datagrams unavailable"@,
            DatagramError::TooLarge => "QUIC Datagram too large"@,
            DatagramError::Connection(_) => "QUIC Datagram connection error"@,
        }
    }

    /// What the error says, apart from the connection's own error.
    pub fn message(self) -> (text: &'static str)
        ensures
            text@ == self.text(),
    {
        match self {
            DatagramError::Unavailable => "QUIC Datagrams unavailable",
            DatagramError::TooLarge => "QUIC Datagram too large",
            DatagramError::Connection(_) => "QUIC Datagram connection error",
        }
    }
}

} // verus!
