//! What errors, modes and clients are called, and how numbers are written.

use crate::bench::comparison::Client;
use crate::bench::matrix::Mode;
use crate::conn::datagram::SendError;
use crate::error::Cause;
use crate::error::Error;
use crate::error::Kind;
use crate::error::Reason;
use crate::h3::datagram::model::SendErrorKind;
use crate::h3::fields::decimal;
use crate::h3::length::lemma_decimal;
use crate::h3::length::number;
use crate::h3::options::Http3Options;
use crate::h3::transport::ContractError;
use crate::interop::churn;
use crate::rt::quic::datagram::DatagramError;
use crate::text::padded;
use crate::text::repeated;
use vstd::prelude::*;

verus! {

/// Why a request or its body is refused, in words.
pub proof fn lemma_request_errors_say_why()
    ensures
        Reason::DatagramsUnavailable.text()
            == "Datagram requests require an Extended CONNECT and a Datagram-enabled connection"@,
        Reason::ExtendedConnectDisabled.text() == "peer did not enable Extended CONNECT"@,
        Reason::ProtocolWithoutConnect.text() == "Extended CONNECT protocol requires CONNECT"@,
        Reason::MissingSchemeOrAuthority.text() == "HTTP/3 request requires scheme and authority"@,
        Reason::HostConflict.text() == "Host conflicts with HTTP/3 authority"@,
        Reason::InvalidLength.text() == "invalid content-length"@,
        Reason::ConflictingLength.text() == "conflicting content-length"@,
        Reason::BodyTooLong.text() == "body exceeds content-length"@,
        Reason::BodyTooShort.text() == "body shorter than content-length"@,
        Reason::FrameAfterTrailers.text() == "body frame after trailers"@,
{
}

/// Why a response or its stream is refused, in words.
pub proof fn lemma_response_errors_say_why()
    ensures
        Reason::ForeignStream.text() == "QUIC backend returned a non-client request stream ID"@,
        Reason::StopObserverMissing.text() == "QUIC stop observer missing"@,
        Reason::SwitchingProtocols.text() == "HTTP/3 response cannot use status 101"@,
        Reason::InformationalLength.text() == "informational response contains content-length"@,
        Reason::NoContentLength.text() == "204 response contains content-length"@,
        Reason::ResponseTooShort.text() == "HTTP/3 body shorter than content-length"@,
        Reason::UnexpectedDatagram.text()
            == "HTTP Datagram on a request without Datagram semantics"@,
        Reason::InvalidDatagram.text() == "invalid stream id"@,
        ContractError::NotReady.text() == "send_data called without QUIC readiness"@,
        ContractError::Inconsistent.text() == "QUIC send did not advance its buffer consistently"@,
{
}

/// Why a Datagram was not taken, in words.
pub proof fn lemma_datagram_errors_say_why(token: u64)
    ensures
        SendError::text(SendErrorKind::Unavailable) == "HTTP Datagram send rejected: Unavailable"@,
        SendError::text(SendErrorKind::TooLarge) == "HTTP Datagram send rejected: TooLarge"@,
        SendError::text(SendErrorKind::Full) == "HTTP Datagram send rejected: Full"@,
        SendError::text(SendErrorKind::Closed) == "HTTP Datagram send rejected: Closed"@,
        DatagramError::Unavailable.text() == "QUIC Datagrams unavailable"@,
        DatagramError::TooLarge.text() == "QUIC Datagram too large"@,
        DatagramError::Connection(token).text() == "QUIC Datagram connection error"@,
{
}

/// The names under which modes and clients are selected and reported.
pub proof fn lemma_names_in_reports()
    ensures
        Client::Proto.text() == "netty"@,
        Client::Direct.text() == "http3"@,
        Client::Cloned.text() == "http3-clone"@,
        Client::Task.text() == "http3-task"@,
        Mode::Single.text() == "single"@,
        Mode::Shared.text() == "shared"@,
        Mode::Sharded.text() == "sharded"@,
        churn::Mode::FixedAuthorityControl.text() == "fixed-control"@,
        churn::Mode::SensitiveControl.text() == "sensitive-control"@,
        churn::Mode::BlockedResponse.text() == "blocked-response"@,
        churn::Mode::PartialRequest.text() == "partial-request"@,
{
}

/// An error says what failed, and why as far as that is known.
pub proof fn lemma_errors_hold_kind_and_cause(kind: Kind, reason: Reason, token: u64)
    ensures
        Error::bare(kind) == (Error { kind, cause: Cause::Absent }),
        Error::found(kind, reason) == (Error { kind, cause: Cause::Found(reason) }),
        Error::outside(kind, token) == (Error { kind, cause: Cause::Outside(token) }),
{
}

/// Options for which nothing was configured: 128 requests, 64 KiB of fields, 256 KiB of
/// encoded fields, no dynamic table, no limits advertised, GREASE, no Extended CONNECT, and
/// the usual order of settings.
pub proof fn lemma_options_begin_with_the_defaults()
    ensures
        ({
            let options = Http3Options::initial();
            &&& options.max_concurrent_requests == 128
            &&& options.max_field_section_size == 64 * 1024
            &&& options.max_qpack_decode_buffer_size == 256 * 1024
            &&& options.qpack_encoder_table_capacity == 0
            &&& options.qpack_max_table_capacity is None
            &&& options.qpack_blocked_streams is None
            &&& options.send_grease && !options.enable_extended_connect
            &&& options.settings_order is None
        }),
{
}

/// A number with zeros in front is still that number, at least as wide as asked, and no wider
/// than its digits need.
pub proof fn lemma_padding_keeps_the_number(n: nat, width: nat)
    ensures
        number(padded(n, width)) == n,
        decimal(n).len() <= width ==> padded(n, width).len() == width,
        decimal(n).len() > width ==> padded(n, width) == decimal(n),
{
    lemma_decimal(n);
    if decimal(n).len() < width {
        lemma_leading_zeros((width - decimal(n).len()) as nat, decimal(n));
    }
}

proof fn lemma_leading_zeros(k: nat, s: Seq<u8>)
    ensures
        number(repeated(48, k) + s) == number(s),
    decreases s.len(),
{
    let zeros = repeated(48, k);
    if s.len() == 0 {
        assert(zeros + s =~= zeros);
        lemma_zeros(k);
    } else {
        lemma_leading_zeros(k, s.drop_last());
        assert((zeros + s).drop_last() =~= zeros + s.drop_last());
    }
}

proof fn lemma_zeros(k: nat)
    ensures
        number(repeated(48, k)) == 0,
    decreases k,
{
    if k > 0 {
        lemma_zeros((k - 1) as nat);
        assert(repeated(48, k).drop_last() =~= repeated(48, (k - 1) as nat));
    }
}

/// A repeated byte occurs so often, and nothing else does.
pub proof fn lemma_repeated_bytes(b: u8, n: nat, i: int)
    ensures
        repeated(b, n).len() == n,
        0 <= i < n ==> repeated(b, n)[i] == b,
{
}

} // verus!
