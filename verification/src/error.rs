//! Errors that requests, bodies and connections report.

use vstd::prelude::*;

verus! {

/// What failed.
#[derive(Clone, Copy, Debug, PartialEq, Eq, Structural)]
pub enum Kind {
    /// The request may not be sent as it is.
    InvalidRequest,
    /// A CONNECT request has a body.
    InvalidConnect,
    /// The body that the user supplied failed or breaks its declared length.
    UserBody,
    /// HTTP/3 or the QUIC transport under it failed.
    Http3,
    /// HTTP/2 failed.
    Http2,
    /// A received body failed.
    Body,
    /// A sender aborted a body.
    BodyWriteAborted,
    /// Nobody waits for the result any longer.
    Canceled,
    /// The other side of a channel or the connection has closed.
    Closed,
}

/// A failure that the library itself detected.
#[derive(Clone, Copy, Debug, PartialEq, Eq, Structural)]
pub enum Reason {
    DatagramsUnavailable,
    ExtendedConnectDisabled,
    ProtocolWithoutConnect,
    MissingSchemeOrAuthority,
    HostConflict,
    UnreadableLength,
    InvalidLength,
    LengthOverflow,
    ConflictingLength,
    TooManyFields,
    BodyTooLong,
    BodyTooShort,
    FrameAfterTrailers,
    ForeignStream,
    StopObserverMissing,
    SwitchingProtocols,
    InformationalLength,
    NoContentLength,
    ResponseTooShort,
    UnexpectedDatagram,
    InvalidDatagram,
}

impl Reason {
    /// The text of the reason.
    pub fn message(self) -> (text: &'static str)
        ensures
            text@ == self.text(),
    {
        match self {
            Reason::DatagramsUnavailable => "Datagram requests require an Extended CONNECT and a Datagram-enabled connection",
            Reason::ExtendedConnectDisabled => "peer did not enable Extended CONNECT",
            Reason::ProtocolWithoutConnect => "Extended CONNECT protocol requires CONNECT",
            Reason::MissingSchemeOrAuthority => "HTTP/3 request requires scheme and authority",
            Reason::HostConflict => "Host conflicts with HTTP/3 authority",
            Reason::UnreadableLength => "failed to convert header to a str",
            Reason::InvalidLength => "invalid content-length",
            Reason::LengthOverflow => "number too large to fit in target type",
            Reason::ConflictingLength => "conflicting content-length",
            Reason::TooManyFields => "max size reached",
            Reason::BodyTooLong => "body exceeds content-length",
            Reason::BodyTooShort => "body shorter than content-length",
            Reason::FrameAfterTrailers => "body frame after trailers",
            Reason::ForeignStream => "QUIC backend returned a non-client request stream ID",
            Reason::StopObserverMissing => "QUIC stop observer missing",
            Reason::SwitchingProtocols => "HTTP/3 response cannot use status 101",
            Reason::InformationalLength => "informational response contains content-length",
            Reason::NoContentLength => "204 response contains content-length",
            Reason::ResponseTooShort => "HTTP/3 body shorter than content-length",
            Reason::UnexpectedDatagram => "HTTP Datagram on a request without Datagram semantics",
            Reason::InvalidDatagram => "invalid stream id",
        }
    }

    /// The text of the reason.
    pub open spec fn text(self) -> Seq<char> {
        match self {
            Reason::DatagramsUnavailable => "Datagram requests require an Extended CONNECT and a Datagram-enabled connection"@,
            Reason::ExtendedConnectDisabled => "peer did not enable Extended CONNECT"@,
            Reason::ProtocolWithoutConnect => "Extended CONNECT protocol requires CONNECT"@,
            Reason::MissingSchemeOrAuthority => "HTTP/3 request requires scheme and authority"@,
            Reason::HostConflict => "Host conflicts with HTTP/3 authority"@,
            Reason::UnreadableLength => "failed to convert header to a str"@,
            Reason::InvalidLength => "invalid content-length"@,
            Reason::LengthOverflow => "number too large to fit in target type"@,
            Reason::ConflictingLength => "conflicting content-length"@,
            Reason::TooManyFields => "max size reached"@,
            Reason::BodyTooLong => "body exceeds content-length"@,
            Reason::BodyTooShort => "body shorter than content-length"@,
            Reason::FrameAfterTrailers => "body frame after trailers"@,
            Reason::ForeignStream => "QUIC backend returned a non-client request stream ID"@,
            Reason::StopObserverMissing => "QUIC stop observer missing"@,
            Reason::SwitchingProtocols => "HTTP/3 response cannot use status 101"@,
            Reason::InformationalLength => "informational response contains content-length"@,
            Reason::NoContentLength => "204 response contains content-length"@,
            Reason::ResponseTooShort => "HTTP/3 body shorter than content-length"@,
            Reason::UnexpectedDatagram => "HTTP Datagram on a request without Datagram semantics"@,
            Reason::InvalidDatagram => "invalid stream id"@,
        }
    }
}

/// Why it failed.
#[derive(Clone, Copy, Debug, PartialEq, Eq, Structural)]
pub enum Cause {
    /// There is no more to say.
    Absent,
    /// The library found the fault.
    Found(Reason),
    /// The transport or the user's body failed. The caller keeps that error and finds it
    /// again by the number.
    Outside(u64),
}

/// An error: what failed, and why.
#[derive(Clone, Copy, Debug, PartialEq, Eq, Structural)]
pub struct Error {
    pub kind: Kind,
    pub cause: Cause,
}

impl Error {
    /// An error that says only what failed.
    pub open spec fn bare(kind: Kind) -> Error {
        Error { kind, cause: Cause::Absent }
    }

    /// An error that the library found.
    pub open spec fn found(kind: Kind, reason: Reason) -> Error {
        Error { kind, cause: Cause::Found(reason) }
    }

    /// An error that came from outside.
    pub open spec fn outside(kind: Kind, token: u64) -> Error {
        Error { kind, cause: Cause::Outside(token) }
    }

    /// Whether the other side of a channel or the connection had closed.
    pub fn is_closed(&self) -> (b: bool)
        ensures
            b == (self.kind == Kind::Closed),
    {
        self.kind == Kind::Closed
    }

    /// Whether nobody waited for the result any longer.
    pub fn is_canceled(&self) -> (b: bool)
        ensures
            b == (self.kind == Kind::Canceled),
    {
        self.kind == Kind::Canceled
    }

    /// Whether a sender aborted the body.
    pub fn is_body_write_aborted(&self) -> (b: bool)
        ensures
            b == (self.kind == Kind::BodyWriteAborted),
    {
        self.kind == Kind::BodyWriteAborted
    }
}

/// An error that says only what failed.
pub fn bare(kind: Kind) -> (e: Error)
    ensures
        e == Error::bare(kind),
{
    Error { kind, cause: Cause::Absent }
}

/// An error that the library found.
pub fn found(kind: Kind, reason: Reason) -> (e: Error)
    ensures
        e == Error::found(kind, reason),
{
    Error { kind, cause: Cause::Found(reason) }
}

/// An error that came from outside.
pub fn outside(kind: Kind, token: u64) -> (e: Error)
    ensures
        e == Error::outside(kind, token),
{
    Error { kind, cause: Cause::Outside(token) }
}

} // verus!
