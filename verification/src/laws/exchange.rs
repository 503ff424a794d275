//! Exchanges: what is refused, what is opened, and how an exchange ends.

use crate::error::Cause;
use crate::error::Error;
use crate::error::Kind;
use crate::error::Reason;
use crate::h3::exchange::Action;
use crate::h3::exchange::Admission;
use crate::h3::exchange::Context;
use crate::h3::exchange::Event;
use crate::h3::exchange::ExchangePhase;
use crate::h3::exchange::ExchangeView;
use crate::h3::failure::first_failure;
use crate::h3::failure::reported;
use crate::h3::request::HeadView;
use crate::h3::request::Method;
use vstd::prelude::*;

verus! {

/// After the final response of a CONNECT request the caller gets a tunnel exactly if the
/// status is from 200 to 299, with a Datagram session exactly if the request declared one;
/// otherwise it gets the response, whose head was already read.
pub proof fn lemma_only_success_opens_a_tunnel(
    exchange: ExchangeView,
    context: Context,
    status: u16,
)
    ensures
        ({
            let (after, action) = exchange.next(context, Event::Response(status));
            &&& 200 <= status <= 299 ==> action == (Action::Tunnel {
                datagrams: exchange.datagram,
            })
            &&& status < 200 || status > 299 ==> action == (Action::Transfer { response: true })
            &&& after == (ExchangeView {
                phase: ExchangePhase::Transferring { upload: false, download: false },
                ..exchange
            })
        }),
{
}

/// A request that was sent on a stream of the client whose stop is observed goes on: a CONNECT
/// waits for its response, and any other request transfers both bodies. On any other stream
/// it fails.
pub proof fn lemma_opened_requests_go_on(
    exchange: ExchangeView,
    context: Context,
    id: u64,
    observed: bool,
)
    ensures
        ({
            let (after, action) = exchange.next(context, Event::Opened { id, observed });
            let cause = |own: Error|
                if exchange.failure is Some {
                    exchange.failure->0
                } else if context.published is Some {
                    context.published->0
                } else {
                    own
                };
            &&& id % 4 == 0 && observed && exchange.connect ==> action == Action::ReadResponse
                && after == (ExchangeView { phase: ExchangePhase::Connecting, ..exchange })
            &&& id % 4 == 0 && observed && !exchange.connect ==> action == (Action::Transfer {
                response: false,
            }) && after == (ExchangeView {
                phase: ExchangePhase::Transferring { upload: false, download: false },
                ..exchange
            })
            &&& id % 4 != 0 ==> action == Action::Conclude && after == (ExchangeView {
                failure: Some(
                    cause(Error { kind: Kind::Http3, cause: Cause::Found(Reason::ForeignStream) }),
                ),
                phase: ExchangePhase::Ended,
                ..exchange
            })
            &&& id % 4 == 0 && !observed ==> action == Action::Conclude && after == (ExchangeView {
                failure: Some(
                    cause(
                        Error {
                            kind: Kind::Http3,
                            cause: Cause::Found(Reason::StopObserverMissing),
                        },
                    ),
                ),
                phase: ExchangePhase::Ended,
                ..exchange
            })
        }),
{
}

/// Each direction that ends is noted, and the exchange is over when both have ended, in either
/// order; it has not failed by that.
pub proof fn lemma_directions_end_in_either_order(exchange: ExchangeView, context: Context)
    requires
        exchange.phase == (ExchangePhase::Transferring { upload: false, download: false }),
    ensures
        ({
            let (up, first) = exchange.next(context, Event::UploadDone);
            let (both, second) = up.next(context, Event::DownloadDone);
            &&& first == Action::Wait && second == Action::Conclude
            &&& up.phase == (ExchangePhase::Transferring { upload: true, download: false })
            &&& both == (ExchangeView { phase: ExchangePhase::Ended, ..exchange })
        }),
        ({
            let (down, first) = exchange.next(context, Event::DownloadDone);
            let (both, second) = down.next(context, Event::UploadDone);
            &&& first == Action::Wait && second == Action::Conclude
            &&& down.phase == (ExchangePhase::Transferring { upload: false, download: true })
            &&& both == (ExchangeView { phase: ExchangePhase::Ended, ..exchange })
        }),
{
}

/// An exchange that fails is over and keeps its first failure: an earlier one, or else the
/// cause that the connection has published, or else the error at hand. A stop without a
/// Datagram error reports the connection's error.
pub proof fn lemma_failures_are_kept(
    exchange: ExchangeView,
    context: Context,
    error: Error,
    token: u64,
)
    ensures
        ({
            let cause = |own: Error|
                if exchange.failure is Some {
                    exchange.failure->0
                } else if context.published is Some {
                    context.published->0
                } else {
                    own
                };
            let ended = |own: Error|
                (
                    ExchangeView {
                        failure: Some(cause(own)),
                        phase: ExchangePhase::Ended,
                        ..exchange
                    },
                    Action::Conclude,
                );
            &&& exchange.next(context, Event::Failed(error)) == ended(error)
            &&& exchange.next(context, Event::OpenFailed(token)) == ended(
                Error { kind: Kind::Http3, cause: Cause::Outside(token) },
            )
            &&& exchange.next(context, Event::Stopped { invalid: true }) == ended(
                Error { kind: Kind::Http3, cause: Cause::Found(Reason::UnexpectedDatagram) },
            )
            &&& exchange.next(context, Event::Stopped { invalid: false }) == ended(
                context.connection,
            )
        }),
{
}

/// What is reported is the first failure, or the connection's error if there is none; and the
/// first failure is the one that was noticed first, with the connection's published cause
/// before any other.
pub proof fn lemma_first_failure_is_reported(
    known: Option<Error>,
    published: Option<Error>,
    error: Error,
    connection: Error,
)
    ensures
        known is Some ==> first_failure(known, published, error) == known,
        known is None && published is Some ==> first_failure(known, published, error) == published,
        known is None && published is None ==> first_failure(known, published, error) == Some(
            error,
        ),
        known is Some ==> reported(known, connection) == known->0,
        known is None ==> reported(known, connection) == connection,
{
}

/// Which error a refused request gets: for Datagrams before a CONNECT's body, and for that
/// before a fault of the request. A request that is not refused waits for the peer's SETTINGS
/// exactly if it names a protocol.
pub proof fn lemma_refusals_have_their_reasons(request: HeadView, datagrams: bool)
    ensures
        ({
            let connect = request.method == Method::Connect;
            let extended = connect && request.protocol;
            let lost = request.datagram && !(datagrams && extended);
            let body = connect && !request.end_stream;
            let admission = request.admission(datagrams);
            &&& lost ==> admission == Admission::Refused(
                Error {
                    kind: Kind::InvalidRequest,
                    cause: Cause::Found(Reason::DatagramsUnavailable),
                },
            )
            &&& !lost && body ==> admission == Admission::Refused(
                Error { kind: Kind::InvalidConnect, cause: Cause::Absent },
            )
            &&& !lost && !body && request.fault() is Some ==> admission == Admission::Refused(
                Error { kind: Kind::InvalidRequest, cause: Cause::Found(request.fault()->0) },
            )
            &&& !lost && !body && request.fault() is None && request.protocol ==> admission
                == Admission::Settings
            &&& !lost && !body && request.fault() is None && !request.protocol ==> admission
                == Admission::Granted
        }),
{
}

/// An exchange begins without a failure and without a length, and knows what its request is.
pub proof fn lemma_exchanges_begin_afresh(request: HeadView, phase: ExchangePhase)
    ensures
        ({
            let fresh = ExchangeView::fresh(request, phase);
            &&& fresh.connect == (request.method == Method::Connect)
            &&& fresh.head == (request.method == Method::Head)
            &&& fresh.datagram == request.datagram
            &&& fresh.length is None && fresh.failure is None && fresh.phase == phase
        }),
{
}

/// A granted request whose size need not be announced, or that has fewer than 6554 fields, is
/// always sent.
pub proof fn lemma_granted_requests_are_sent(
    exchange: ExchangeView,
    context: Context,
    request: HeadView,
    sent: HeadView,
    after: ExchangeView,
    action: Action,
)
    requires
        exchange.opens(context, request, sent, after, action),
        !request.announces_size() || crate::h3::request::stripped(request.fields).dom().len()
            < 6554,
    ensures
        action == Action::Open,
        sent == request.as_sent(),
        after.length == request.body_length(),
        after.phase == ExchangePhase::Opening,
        after.failure == exchange.failure,
{
}

} // verus!
