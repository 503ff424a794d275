//! One request and its response, from admission to the end.

use crate::error::bare;
use crate::error::found;
use crate::error::outside;
use crate::error::Error;
use crate::error::Kind;
use crate::error::Reason;
use crate::h3::failure::first_failure;
use crate::h3::failure::reported;
use crate::h3::failure::Failure;
use crate::h3::fields::ROOMY;
use crate::h3::request::prepare;
use crate::h3::request::stripped;
use crate::h3::request::validate_request;
use crate::h3::request::HeadView;
use crate::h3::request::Method;
use crate::h3::request::RequestHead;
use vstd::prelude::*;

verus! {

/// What the connection reports at the moment.
#[derive(Clone, Copy, Debug, PartialEq, Eq, Structural)]
pub struct Context {
    /// The error that the connection's driver has published.
    pub published: Option<Error>,
    /// The error with which the connection fails its requests.
    pub connection: Error,
}

/// What happened.
#[derive(Clone, Copy, Debug, PartialEq, Eq, Structural)]
pub enum Event {
    /// The request was sent on the stream `id`; the peer's stop is observed or not.
    Opened { id: u64, observed: bool },
    /// The request could not be sent.
    OpenFailed(u64),
    /// A CONNECT request got a final response with this status.
    Response(u16),
    /// The upload is over.
    UploadDone,
    /// The download is over.
    DownloadDone,
    /// Reading the response of a CONNECT request, the upload or the download failed.
    Failed(Error),
    /// The connection closed or the caller gave up. `invalid` says that the request received
    /// a Datagram without declaring semantics.
    Stopped { invalid: bool },
}

/// What to do next.
#[derive(Clone, Copy, Debug, PartialEq, Eq, Structural)]
pub enum Action {
    /// Give the request back to the caller, with the error.
    Reject(Error),
    /// Wait for the peer's SETTINGS.
    AwaitSettings,
    /// Send the request.
    Open,
    /// Register the request for Datagrams, if the connection has them, and read the head of
    /// the response.
    ReadResponse,
    /// Hand a tunnel to the caller, with a Datagram session or without.
    Tunnel { datagrams: bool },
    /// Register the request for Datagrams, if the connection has them and that was not done
    /// yet, and transfer both bodies. `response` says that the head was already read.
    Transfer { response: bool },
    /// Wait for the other direction.
    Wait,
    /// Give everything up that is left, and report the failure to a caller that waits.
    Conclude,
}

/// How far an exchange has come.
#[derive(Clone, Copy, Debug, PartialEq, Eq, Structural)]
pub enum ExchangePhase {
    /// The peer's SETTINGS decide whether the request may be sent.
    AwaitingSettings,
    /// The request is being sent.
    Opening,
    /// The response of a CONNECT request decides.
    Connecting,
    /// The two directions are under way, or over.
    Transferring { upload: bool, download: bool },
    /// Nothing is left to do.
    Ended,
}

/// An exchange.
#[verifier::ext_equal]
pub struct ExchangeView {
    /// Whether the method is CONNECT.
    pub connect: bool,
    /// Whether the method is HEAD.
    pub head: bool,
    /// Whether the request declares HTTP Datagram semantics.
    pub datagram: bool,
    /// The length that the request body must have.
    pub length: Option<u64>,
    /// The first failure.
    pub failure: Option<Error>,
    pub phase: ExchangePhase,
}

/// What becomes of a request before anything is sent.
pub enum Admission {
    /// It is refused.
    Refused(Error),
    /// The peer must permit it first.
    Settings,
    /// It is sent.
    Granted,
}

impl HeadView {
    /// What becomes of a request on a connection with Datagrams or without.
    pub open spec fn admission(self, datagrams: bool) -> Admission {
        let connect = self.method == Method::Connect;
        if self.datagram && (!datagrams || !connect || !self.protocol) {
            Admission::Refused(Error::found(Kind::InvalidRequest, Reason::DatagramsUnavailable))
        } else if connect && !self.end_stream {
            Admission::Refused(Error::bare(Kind::InvalidConnect))
        } else if let Some(reason) = self.fault() {
            Admission::Refused(Error::found(Kind::InvalidRequest, reason))
        } else if self.protocol {
            Admission::Settings
        } else {
            Admission::Granted
        }
    }
}

impl ExchangeView {
    /// An exchange that has not begun.
    pub open spec fn fresh(head: HeadView, phase: ExchangePhase) -> ExchangeView {
        ExchangeView {
            connect: head.method == Method::Connect,
            head: head.method == Method::Head,
            datagram: head.datagram,
            length: None,
            failure: None,
            phase,
        }
    }

    pub open spec fn in_phase(self, phase: ExchangePhase) -> ExchangeView {
        ExchangeView { phase, ..self }
    }

    /// The exchange after a failure.
    pub open spec fn failed(self, context: Context, error: Error) -> ExchangeView {
        ExchangeView {
            failure: first_failure(self.failure, context.published, error),
            phase: ExchangePhase::Ended,
            ..self
        }
    }

    /// The exchange `after` and the action when a granted request was prepared for sending:
    /// it is sent, unless it has thousands of fields and cannot take another one.
    pub open spec fn opens(
        self,
        context: Context,
        request: HeadView,
        sent: HeadView,
        after: ExchangeView,
        action: Action,
    ) -> bool {
        ||| {
            &&& action == Action::Open
            &&& sent == request.as_sent()
            &&& after == (ExchangeView {
                length: request.body_length(),
                phase: ExchangePhase::Opening,
                ..self
            })
        }
        ||| {
            &&& action == Action::Conclude
            &&& request.announces_size()
            &&& stripped(request.fields).dom().len() >= ROOMY
            &&& sent == request.with_fields(stripped(request.fields))
            &&& after == self.failed(context, Error::found(Kind::Http3, Reason::TooManyFields))
        }
    }

    /// Whether an event can happen now.
    pub open spec fn expects(self, event: Event) -> bool {
        match event {
            Event::Opened { .. } | Event::OpenFailed(_) => self.phase is Opening,
            Event::Response(_) => self.phase is Connecting,
            Event::UploadDone => self.phase is Transferring && !self.phase->upload,
            Event::DownloadDone => self.phase is Transferring && !self.phase->download,
            Event::Failed(_) => self.phase is Connecting || self.phase is Transferring,
            Event::Stopped { .. } => !(self.phase is Ended),
        }
    }

    /// The exchange after an event, and what to do.
    pub open spec fn next(self, context: Context, event: Event) -> (ExchangeView, Action) {
        match event {
            Event::Opened { id, observed } => if id % 4 != 0 {
                (
                    self.failed(context, Error::found(Kind::Http3, Reason::ForeignStream)),
                    Action::Conclude,
                )
            } else if !observed {
                (
                    self.failed(context, Error::found(Kind::Http3, Reason::StopObserverMissing)),
                    Action::Conclude,
                )
            } else if self.connect {
                (self.in_phase(ExchangePhase::Connecting), Action::ReadResponse)
            } else {
                (
                    self.in_phase(ExchangePhase::Transferring { upload: false, download: false }),
                    Action::Transfer { response: false },
                )
            },
            Event::OpenFailed(token) => (
                self.failed(context, Error::outside(Kind::Http3, token)),
                Action::Conclude,
            ),
            Event::Response(status) => (
                self.in_phase(ExchangePhase::Transferring { upload: false, download: false }),
                if 200 <= status < 300 {
                    Action::Tunnel { datagrams: self.datagram }
                } else {
                    Action::Transfer { response: true }
                },
            ),
            Event::UploadDone => if self.phase->download {
                (self.in_phase(ExchangePhase::Ended), Action::Conclude)
            } else {
                (
                    self.in_phase(ExchangePhase::Transferring { upload: true, download: false }),
                    Action::Wait,
                )
            },
            Event::DownloadDone => if self.phase->upload {
                (self.in_phase(ExchangePhase::Ended), Action::Conclude)
            } else {
                (
                    self.in_phase(ExchangePhase::Transferring { upload: false, download: true }),
                    Action::Wait,
                )
            },
            Event::Failed(error) => (self.failed(context, error), Action::Conclude),
            Event::Stopped { invalid } => (
                if invalid {
                    self.failed(context, Error::found(Kind::Http3, Reason::UnexpectedDatagram))
                } else {
                    self.failed(context, reported(self.failure, context.connection))
                },
                Action::Conclude,
            ),
        }
    }
}

/// One request and its response.
pub struct Exchange {
    connect: bool,
    head: bool,
    datagram: bool,
    length: Option<u64>,
    failure: Failure,
    phase: ExchangePhase,
}

impl View for Exchange {
    type V = ExchangeView;

    closed spec fn view(&self) -> ExchangeView {
        ExchangeView {
            connect: self.connect,
            head: self.head,
            datagram: self.datagram,
            length: self.length,
            failure: self.failure@,
            phase: self.phase,
        }
    }
}

impl Exchange {
    /// Takes a request on. `datagrams` says whether the connection has HTTP Datagrams. A
    /// request that is refused stays as it is.
    pub fn start(request: &mut RequestHead, datagrams: bool, context: Context) -> (r: (
        Exchange,
        Action,
    ))
        ensures
            match old(request)@.admission(datagrams) {
                Admission::Refused(error) => {
                    &&& r.1 == Action::Reject(error)
                    &&& r.0@ == ExchangeView::fresh(old(request)@, ExchangePhase::Ended)
                    &&& final(request)@ == old(request)@
                },
                Admission::Settings => {
                    &&& r.1 == Action::AwaitSettings
                    &&& r.0@ == ExchangeView::fresh(
                        old(request)@,
                        ExchangePhase::AwaitingSettings,
                    )
                    &&& final(request)@ == old(request)@
                },
                Admission::Granted => ExchangeView::fresh(
                    old(request)@,
                    ExchangePhase::Opening,
                ).opens(context, old(request)@, final(request)@, r.0@, r.1),
            },
    {
        let connect = request.method == Method::Connect;
        let mut exchange = Exchange {
            connect,
            head: request.method == Method::Head,
            datagram: request.datagram,
            length: None,
            failure: Failure::new(),
            phase: ExchangePhase::Ended,
        };
        if request.datagram && (!datagrams || !connect || !request.protocol) {
            let error = found(Kind::InvalidRequest, Reason::DatagramsUnavailable);
            return (exchange, Action::Reject(error));
        }
        if connect && !request.end_stream {
            return (exchange, Action::Reject(bare(Kind::InvalidConnect)));
        }
        if let Err(error) = validate_request(request) {
            let error = Error { kind: Kind::InvalidRequest, cause: error.cause };
            return (exchange, Action::Reject(error));
        }
        if request.protocol {
            exchange.phase = ExchangePhase::AwaitingSettings;
            return (exchange, Action::AwaitSettings);
        }
        exchange.phase = ExchangePhase::Opening;
        let action = exchange.open(request, context);
        (exchange, action)
    }

    fn open(&mut self, request: &mut RequestHead, context: Context) -> (action: Action)
        requires
            old(request)@.fault() is None,
        ensures
            old(self)@.opens(context, old(request)@, final(request)@, final(self)@, action),
    {
        match prepare(request) {
            Ok(length) => {
                self.length = length;
                self.phase = ExchangePhase::Opening;
                Action::Open
            },
            Err(error) => self.fail(context, error),
        }
    }

    fn fail(&mut self, context: Context, error: Error) -> (action: Action)
        ensures
            final(self)@ == old(self)@.failed(context, error),
            action == Action::Conclude,
    {
        self.failure.set(context.published, error);
        self.phase = ExchangePhase::Ended;
        Action::Conclude
    }

    /// Goes on after the peer's SETTINGS: whether they permit Extended CONNECT.
    pub fn settings(
        &mut self,
        request: &mut RequestHead,
        context: Context,
        permitted: bool,
    ) -> (action: Action)
        requires
            old(self)@.phase is AwaitingSettings,
            old(request)@.fault() is None,
        ensures
            !permitted ==> {
                &&& action == Action::Reject(
                    Error::found(Kind::InvalidRequest, Reason::ExtendedConnectDisabled),
                )
                &&& final(self)@ == old(self)@.in_phase(ExchangePhase::Ended)
                &&& final(request)@ == old(request)@
            },
            permitted ==> old(self)@.opens(
                context,
                old(request)@,
                final(request)@,
                final(self)@,
                action,
            ),
    {
        if !permitted {
            self.phase = ExchangePhase::Ended;
            return Action::Reject(found(Kind::InvalidRequest, Reason::ExtendedConnectDisabled));
        }
        self.open(request, context)
    }

    /// Decides after an event.
    pub fn step(&mut self, context: Context, event: Event) -> (action: Action)
        requires
            old(self)@.expects(event),
        ensures
            (final(self)@, action) == old(self)@.next(context, event),
    {
        match event {
            Event::Opened { id, observed } => {
                if id % 4 != 0 {
                    return self.fail(context, found(Kind::Http3, Reason::ForeignStream));
                }
                if !observed {
                    return self.fail(context, found(Kind::Http3, Reason::StopObserverMissing));
                }
                if self.connect {
                    self.phase = ExchangePhase::Connecting;
                    return Action::ReadResponse;
                }
                self.phase = ExchangePhase::Transferring { upload: false, download: false };
                Action::Transfer { response: false }
            },
            Event::OpenFailed(token) => self.fail(context, outside(Kind::Http3, token)),
            Event::Response(status) => {
                self.phase = ExchangePhase::Transferring { upload: false, download: false };
                if 200 <= status && status < 300 {
                    Action::Tunnel { datagrams: self.datagram }
                } else {
                    Action::Transfer { response: true }
                }
            },
            Event::UploadDone => match self.phase {
                ExchangePhase::Transferring { download: true, .. } => {
                    self.phase = ExchangePhase::Ended;
                    Action::Conclude
                },
                _ => {
                    self.phase = ExchangePhase::Transferring { upload: true, download: false };
                    Action::Wait
                },
            },
            Event::DownloadDone => match self.phase {
                ExchangePhase::Transferring { upload: true, .. } => {
                    self.phase = ExchangePhase::Ended;
                    Action::Conclude
                },
                _ => {
                    self.phase = ExchangePhase::Transferring { upload: false, download: true };
                    Action::Wait
                },
            },
            Event::Failed(error) => self.fail(context, error),
            Event::Stopped { invalid } => {
                if invalid {
                    return self.fail(context, found(Kind::Http3, Reason::UnexpectedDatagram));
                }
                let error = self.failure.get(context.connection);
                self.fail(context, error)
            },
        }
    }

    /// The length that the request body must have.
    pub fn length(&self) -> (n: Option<u64>)
        ensures
            n == self@.length,
    {
        self.length
    }

    /// Whether the method is HEAD.
    pub fn is_head(&self) -> (b: bool)
        ensures
            b == self@.head,
    {
        self.head
    }

    /// The first failure.
    pub fn failure(&self) -> (f: Failure)
        ensures
            f@ == self@.failure,
    {
        self.failure
    }
}

/// A request is refused before anything is sent in exactly these cases: it declares Datagram
/// semantics without being an Extended CONNECT on a connection with Datagrams, it is a
/// CONNECT with a body, or it has a fault. Any other request is sent, once the peer's SETTINGS
/// permit it where it is an Extended CONNECT.
pub proof fn lemma_refusals_are_exactly_these(request: HeadView, datagrams: bool)
    ensures
        request.admission(datagrams) is Refused <==> {
            ||| request.datagram && !(datagrams && request.method == Method::Connect
                && request.protocol)
            ||| request.method == Method::Connect && !request.end_stream
            ||| request.fault() is Some
        },
        request.admission(datagrams) is Settings ==> request.protocol,
        request.admission(datagrams) is Granted ==> !request.protocol,
{
}

/// A Datagram on a request that gives it no meaning fails the request with that cause,
/// unless it had failed before or the connection published another cause.
pub proof fn lemma_unexpected_datagram_fails_the_request(exchange: ExchangeView, context: Context)
    requires
        exchange.failure is None,
        context.published is None,
    ensures
        exchange.next(context, Event::Stopped { invalid: true }).0.failure == Some(
            Error::found(Kind::Http3, Reason::UnexpectedDatagram),
        ),
{
}

/// When the connection closes, its published cause is what the request reports.
pub proof fn lemma_close_reports_the_cause(exchange: ExchangeView, context: Context, cause: Error)
    requires
        exchange.failure is None,
        context.published == Some(cause),
    ensures
        ({
            let after = exchange.next(context, Event::Stopped { invalid: false }).0;
            reported(after.failure, context.connection) == cause
        }),
{
}

/// The exchange ends well only when both directions are over.
pub proof fn lemma_both_directions_must_end(exchange: ExchangeView, context: Context, event: Event)
    requires
        exchange.expects(event),
        exchange.failure is None,
        exchange.next(context, event).1 is Conclude,
        exchange.next(context, event).0.failure is None,
    ensures
        (event is UploadDone && exchange.phase->download) || (event is DownloadDone
            && exchange.phase->upload),
{
}

} // verus!
