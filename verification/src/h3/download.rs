//! Receiving a response, as decisions between calls of the transport and the reader.

use crate::buffer;
use crate::buffer::bytes_of;
use crate::error::bare;
use crate::error::found;
use crate::error::outside;
use crate::error::Error;
use crate::error::Kind;
use crate::error::Reason;
use crate::h3::code::Code;
use crate::h3::failure::RecvGuard;
use crate::h3::fields;
use crate::h3::fields::fields_of;
use crate::h3::fields::values_of;
use crate::h3::length::consume_length;
use crate::h3::length::consumed;
use crate::h3::length::content_length;
use crate::h3::length::is_short;
use crate::h3::length::lemma_length_name;
use crate::h3::length::length_of;
use crate::h3::length::short;
use crate::h3::pace::after_chunk;
use crate::h3::pace::chunks;
use crate::h3::pace::cooperate;
use crate::h3::pace::first_chunk;
use crate::h3::pace::joined;
use crate::h3::pace::lemma_chunks_are_the_data;
use crate::h3::pace::lemma_joined_last;
use crate::h3::pace::lemma_joined_lists;
use crate::h3::pace::next_chunk;
use crate::h3::pace::PIECES;
use bytes::Bytes;
use http::HeaderMap;
use vstd::prelude::*;
use vstd::string::StringSliceAdditionalSpecFns;

verus! {

/// What a response head means for the response.
#[derive(Clone, Copy, Debug, PartialEq, Eq, Structural)]
pub enum HeadAction {
    /// It is informational: read another head, after a pause if the flag says so.
    Next(bool),
    /// It is the final head.
    Final,
    /// It is malformed.
    Fail(Error),
}

/// Whether a status is informational.
pub open spec fn informational(status: u16) -> bool {
    100 <= status < 200
}

/// Whether fields declare a length, even an invalid one.
pub open spec fn has_length(m: Map<Seq<u8>, Seq<Seq<u8>>>) -> bool {
    values_of(m, "content-length".spec_bytes()).len() > 0
}

/// What a response head means, after `budget` heads since the last pause. Informational
/// heads cannot declare a length, and HTTP/3 has no protocol switch.
pub open spec fn on_head(
    budget: nat,
    status: u16,
    m: Map<Seq<u8>, Seq<Seq<u8>>>,
) -> HeadAction {
    if status == 101 {
        HeadAction::Fail(Error::found(Kind::Http3, Reason::SwitchingProtocols))
    } else if !informational(status) {
        HeadAction::Final
    } else if has_length(m) {
        HeadAction::Fail(Error::found(Kind::Http3, Reason::InformationalLength))
    } else {
        HeadAction::Next(budget + 1 == PIECES)
    }
}

/// Reads the heads of a response up to the final one.
pub struct ResponseHeads {
    budget: usize,
}

impl View for ResponseHeads {
    type V = nat;

    closed spec fn view(&self) -> nat {
        self.budget as nat
    }
}

impl ResponseHeads {
    /// The budget is not used up.
    pub open spec fn wf(self) -> bool {
        self@ < PIECES
    }

    /// No head was read.
    pub fn new() -> (h: ResponseHeads)
        ensures
            h.wf(),
            h@ == 0,
    {
        ResponseHeads { budget: 0 }
    }

    /// Decides on a head. A malformed one is a message error of the peer.
    pub fn read(&mut self, guard: &mut RecvGuard, status: u16, headers: &HeaderMap) -> (a:
        HeadAction)
        requires
            old(self).wf(),
        ensures
            final(self).wf(),
            a == on_head(old(self)@, status, fields_of(*headers)),
            final(self)@ == if a is Next {
                (old(self)@ + 1) % PIECES as nat
            } else {
                old(self)@
            },
            *final(guard) == if a is Fail {
                RecvGuard { code: Code::MessageError, ..*old(guard) }
            } else {
                *old(guard)
            },
    {
        if status == 101 {
            guard.code = Code::MessageError;
            return HeadAction::Fail(found(Kind::Http3, Reason::SwitchingProtocols));
        }
        if status < 100 || status >= 200 {
            return HeadAction::Final;
        }
        proof {
            lemma_length_name();
        }
        if fields::contains(headers, "content-length".as_bytes()) {
            guard.code = Code::MessageError;
            return HeadAction::Fail(found(Kind::Http3, Reason::InformationalLength));
        }
        HeadAction::Next(cooperate(&mut self.budget))
    }
}

/// What a poll for data brought: first the reader is asked for, then the transport.
pub enum DataEvent {
    /// The reader is gone.
    Closed,
    /// A piece of the body.
    Data(Bytes),
    /// There is no more data.
    End,
    /// The stream failed.
    Failed(u64),
}

/// What a poll for data brought.
pub enum DataEventView {
    Closed,
    Data(Seq<u8>),
    End,
    Failed(u64),
}

impl View for DataEvent {
    type V = DataEventView;

    open spec fn view(&self) -> DataEventView {
        match *self {
            DataEvent::Closed => DataEventView::Closed,
            DataEvent::Data(data) => DataEventView::Data(bytes_of(data)),
            DataEvent::End => DataEventView::End,
            DataEvent::Failed(token) => DataEventView::Failed(token),
        }
    }
}

/// What a poll for trailers brought: first the reader is asked for, then the transport.
#[derive(Clone, Copy, Debug, PartialEq, Eq, Structural)]
pub enum TrailersEvent {
    /// The reader is gone.
    Closed,
    /// There are trailers, which the caller keeps.
    Trailers,
    /// There are none.
    End,
    /// The stream failed.
    Failed(u64),
}

/// What to do next.
pub enum DownloadAction {
    /// Hand the response to the caller, with a body of the given length.
    Deliver(Option<u64>),
    /// Ask whether the reader is gone, then ask the transport for data.
    Poll,
    /// Wait until the reader has room, and hand it the chunk.
    Push(Bytes),
    /// Ask whether the reader is gone, then ask the transport for trailers.
    PollTrailers,
    /// Hand the trailers that the caller keeps to the reader.
    PushTrailers,
    /// The response is complete: end the body, and the request's Datagram receive direction.
    Done,
    /// The reader is gone: end quietly.
    Abandon,
    /// The response failed.
    Fail(Error),
}

/// What to do next.
pub enum DownloadActionView {
    Deliver(Option<u64>),
    Poll,
    Push(Seq<u8>),
    PollTrailers,
    PushTrailers,
    Done,
    Abandon,
    Fail(Error),
}

impl View for DownloadAction {
    type V = DownloadActionView;

    open spec fn view(&self) -> DownloadActionView {
        match *self {
            DownloadAction::Deliver(length) => DownloadActionView::Deliver(length),
            DownloadAction::Poll => DownloadActionView::Poll,
            DownloadAction::Push(data) => DownloadActionView::Push(bytes_of(data)),
            DownloadAction::PollTrailers => DownloadActionView::PollTrailers,
            DownloadAction::PushTrailers => DownloadActionView::PushTrailers,
            DownloadAction::Done => DownloadActionView::Done,
            DownloadAction::Abandon => DownloadActionView::Abandon,
            DownloadAction::Fail(error) => DownloadActionView::Fail(error),
        }
    }
}

impl DownloadAction {
    /// Whether the request's Datagram receive direction ends with this action: the response
    /// is complete.
    pub open spec fn ends_datagrams(self) -> bool {
        self@ is Done
    }

    /// Whether the request's Datagram receive direction ends with this action: the response
    /// is complete.
    pub fn closes_datagrams(&self) -> (b: bool)
        ensures
            b == self.ends_datagrams(),
    {
        match self {
            DownloadAction::Done => true,
            _ => false,
        }
    }
}

/// What the download waits for.
#[derive(Clone, Copy, Debug, PartialEq, Eq, Structural)]
pub enum DownloadPhase {
    /// The caller, to take the response.
    Delivering,
    /// Data.
    Polling,
    /// The reader, to take a chunk.
    Pushing,
    /// Trailers.
    PollingTrailers,
    /// The reader, to take the trailers.
    PushingTrailers,
    /// Nothing.
    Ended,
}

/// A download.
#[verifier::ext_equal]
pub struct DownloadView {
    /// What is left of the declared length.
    pub remaining: Option<u64>,
    /// Pieces of work since the last pause.
    pub budget: nat,
    /// What is left of the current piece of data.
    pub data: Seq<u8>,
    /// The receive direction of the stream.
    pub guard: RecvGuard,
    pub phase: DownloadPhase,
}

/// A download after a decision: whether to let other tasks run first, and what to do.
pub struct DownloadTurn {
    pub download: DownloadView,
    pub pause: bool,
    pub action: DownloadActionView,
}

/// The length of a response body: the declared one, but nothing where the request or the
/// status allows no content.
pub open spec fn response_length(
    head: bool,
    status: u16,
    m: Map<Seq<u8>, Seq<Seq<u8>>>,
) -> Result<Option<u64>, Reason> {
    match length_of(m) {
        Err(reason) => Err(reason),
        Ok(declared) => if status == 204 && declared is Some {
            Err(Reason::NoContentLength)
        } else if head || status == 204 || status == 304 {
            Ok(Some(0))
        } else {
            Ok(declared)
        },
    }
}

impl DownloadView {
    /// The start of a download whose final head was read.
    pub open spec fn start(
        guard: RecvGuard,
        head: bool,
        status: u16,
        m: Map<Seq<u8>, Seq<Seq<u8>>>,
    ) -> DownloadTurn {
        let fresh = DownloadView {
            remaining: None,
            budget: 0,
            data: Seq::empty(),
            guard,
            phase: DownloadPhase::Delivering,
        };
        match response_length(head, status, m) {
            Err(reason) => fresh.malformed(Error::found(Kind::Http3, reason)),
            Ok(remaining) => DownloadTurn {
                download: DownloadView { remaining, ..fresh },
                pause: false,
                action: DownloadActionView::Deliver(remaining),
            },
        }
    }

    /// The end of the download.
    pub open spec fn ended(self, action: DownloadActionView) -> DownloadTurn {
        DownloadTurn {
            download: DownloadView { phase: DownloadPhase::Ended, ..self },
            pause: false,
            action,
        }
    }

    pub open spec fn failed(self, error: Error) -> DownloadTurn {
        self.ended(DownloadActionView::Fail(error))
    }

    /// The end because of a fault of the peer: the stream is stopped as malformed.
    pub open spec fn malformed(self, error: Error) -> DownloadTurn {
        (DownloadView {
            guard: RecvGuard { code: Code::MessageError, ..self.guard },
            ..self
        }).failed(error)
    }

    /// The response is complete.
    pub open spec fn completed(self) -> DownloadTurn {
        (DownloadView { guard: RecvGuard { finished: true, ..self.guard }, ..self }).ended(
            DownloadActionView::Done,
        )
    }

    /// Counts one piece of work.
    pub open spec fn tick(self) -> DownloadView {
        DownloadView { budget: (self.budget + 1) % PIECES as nat, ..self }
    }

    /// Whether the next piece of work is followed by a pause.
    pub open spec fn pauses(self) -> bool {
        self.budget + 1 == PIECES
    }

    /// Hands on the next chunk; asks for more data if there is none.
    pub open spec fn advance(self, pause: bool) -> DownloadTurn {
        if self.data.len() > 0 {
            DownloadTurn {
                download: DownloadView {
                    data: after_chunk(self.data),
                    phase: DownloadPhase::Pushing,
                    ..self
                },
                pause,
                action: DownloadActionView::Push(first_chunk(self.data)),
            }
        } else {
            DownloadTurn {
                download: DownloadView { phase: DownloadPhase::Polling, ..self.tick() },
                pause: pause || self.pauses(),
                action: DownloadActionView::Poll,
            }
        }
    }

    /// The decision after the response was offered to the caller.
    pub open spec fn on_delivered(self, taken: bool) -> DownloadTurn {
        if taken {
            DownloadTurn {
                download: DownloadView { phase: DownloadPhase::Polling, ..self },
                pause: false,
                action: DownloadActionView::Poll,
            }
        } else {
            self.failed(Error::bare(Kind::Canceled))
        }
    }

    /// The decision after a poll for data.
    pub open spec fn on_data(self, event: DataEventView) -> DownloadTurn {
        match event {
            DataEventView::Closed => self.ended(DownloadActionView::Abandon),
            DataEventView::Failed(token) => self.failed(Error::outside(Kind::Http3, token)),
            DataEventView::Data(data) => match consumed(self.remaining, data.len() as usize) {
                Err(reason) => self.malformed(Error::found(Kind::Http3, reason)),
                Ok(remaining) => (DownloadView { remaining, data, ..self }).advance(false),
            },
            DataEventView::End => if is_short(self.remaining) {
                self.malformed(Error::found(Kind::Body, Reason::ResponseTooShort))
            } else {
                DownloadTurn {
                    download: DownloadView { phase: DownloadPhase::PollingTrailers, ..self },
                    pause: false,
                    action: DownloadActionView::PollTrailers,
                }
            },
        }
    }

    /// The decision after a chunk or the trailers were offered to the reader.
    pub open spec fn on_pushed(self, taken: bool) -> DownloadTurn {
        if !taken {
            self.ended(DownloadActionView::Abandon)
        } else if self.phase == DownloadPhase::Pushing {
            self.tick().advance(self.pauses())
        } else {
            self.completed()
        }
    }

    /// The decision after a poll for trailers.
    pub open spec fn on_trailers(self, event: TrailersEvent) -> DownloadTurn {
        match event {
            TrailersEvent::Closed => self.ended(DownloadActionView::Abandon),
            TrailersEvent::Failed(token) => self.failed(Error::outside(Kind::Http3, token)),
            TrailersEvent::Trailers => DownloadTurn {
                download: DownloadView { phase: DownloadPhase::PushingTrailers, ..self },
                pause: false,
                action: DownloadActionView::PushTrailers,
            },
            TrailersEvent::End => self.completed(),
        }
    }
}

/// Receives a response, chunk by chunk, and checks its declared length.
pub struct Download {
    remaining: Option<u64>,
    budget: usize,
    data: Bytes,
    guard: RecvGuard,
    phase: DownloadPhase,
}

impl View for Download {
    type V = DownloadView;

    closed spec fn view(&self) -> DownloadView {
        DownloadView {
            remaining: self.remaining,
            budget: self.budget as nat,
            data: bytes_of(self.data),
            guard: self.guard,
            phase: self.phase,
        }
    }
}

impl Download {
    /// The budget is not used up.
    pub open spec fn wf(self) -> bool {
        self@.budget < PIECES
    }

    /// Starts with the final head of the response. `head` says that the request's method
    /// was HEAD.
    pub fn start(guard: RecvGuard, head: bool, status: u16, headers: &HeaderMap) -> (r: (
        Download,
        DownloadAction,
    ))
        ensures
            r.0.wf(),
            (DownloadTurn { download: r.0@, pause: false, action: r.1@ }) == DownloadView::start(
                guard,
                head,
                status,
                fields_of(*headers),
            ),
    {
        let mut download = Download {
            remaining: None,
            budget: 0,
            data: buffer::empty(),
            guard,
            phase: DownloadPhase::Delivering,
        };
        match content_length(headers) {
            Err(error) => {
                download.guard.code = Code::MessageError;
                download.phase = DownloadPhase::Ended;
                (download, DownloadAction::Fail(error))
            },
            Ok(declared) => {
                if status == 204 && declared.is_some() {
                    download.guard.code = Code::MessageError;
                    download.phase = DownloadPhase::Ended;
                    let error = found(Kind::Http3, Reason::NoContentLength);
                    return (download, DownloadAction::Fail(error));
                }
                let remaining: Option<u64> = if head || status == 204 || status == 304 {
                    Some(0)
                } else {
                    declared
                };
                download.remaining = remaining;
                (download, DownloadAction::Deliver(remaining))
            },
        }
    }

    /// The receive direction of the stream.
    pub fn guard(&self) -> (g: RecvGuard)
        ensures
            g == self@.guard,
    {
        self.guard
    }

    fn advance(&mut self, pause: bool) -> (r: (bool, DownloadAction))
        requires
            old(self).wf(),
        ensures
            final(self).wf(),
            (DownloadTurn { download: final(self)@, pause: r.0, action: r.1@ }) == old(
                self,
            )@.advance(pause),
    {
        if buffer::len(&self.data) > 0 {
            let chunk = next_chunk(&mut self.data);
            self.phase = DownloadPhase::Pushing;
            (pause, DownloadAction::Push(chunk))
        } else {
            let tired = cooperate(&mut self.budget);
            self.phase = DownloadPhase::Polling;
            (pause || tired, DownloadAction::Poll)
        }
    }

    fn end(&mut self, action: DownloadAction) -> (r: (bool, DownloadAction))
        requires
            old(self).wf(),
        ensures
            final(self).wf(),
            (DownloadTurn { download: final(self)@, pause: r.0, action: r.1@ }) == old(
                self,
            )@.ended(action@),
    {
        self.phase = DownloadPhase::Ended;
        (false, action)
    }

    fn complete(&mut self) -> (r: (bool, DownloadAction))
        requires
            old(self).wf(),
        ensures
            final(self).wf(),
            (DownloadTurn { download: final(self)@, pause: r.0, action: r.1@ }) == old(
                self,
            )@.completed(),
    {
        self.guard.finished = true;
        self.end(DownloadAction::Done)
    }

    /// Decides after [`DownloadAction::Deliver`]: whether the caller took the response.
    pub fn delivered(&mut self, taken: bool) -> (r: (bool, DownloadAction))
        requires
            old(self).wf(),
            old(self)@.phase == DownloadPhase::Delivering,
        ensures
            final(self).wf(),
            (DownloadTurn { download: final(self)@, pause: r.0, action: r.1@ }) == old(
                self,
            )@.on_delivered(taken),
    {
        if taken {
            self.phase = DownloadPhase::Polling;
            (false, DownloadAction::Poll)
        } else {
            self.end(DownloadAction::Fail(bare(Kind::Canceled)))
        }
    }

    /// Decides after [`DownloadAction::Poll`].
    pub fn data(&mut self, event: DataEvent) -> (r: (bool, DownloadAction))
        requires
            old(self).wf(),
            old(self)@.phase == DownloadPhase::Polling,
        ensures
            final(self).wf(),
            (DownloadTurn { download: final(self)@, pause: r.0, action: r.1@ }) == old(
                self,
            )@.on_data(event@),
    {
        match event {
            DataEvent::Closed => self.end(DownloadAction::Abandon),
            DataEvent::Failed(token) => self.end(
                DownloadAction::Fail(outside(Kind::Http3, token)),
            ),
            DataEvent::Data(data) => match consume_length(
                &mut self.remaining,
                buffer::len(&data),
            ) {
                Err(reason) => {
                    self.guard.code = Code::MessageError;
                    self.end(DownloadAction::Fail(found(Kind::Http3, reason)))
                },
                Ok(()) => {
                    self.data = data;
                    self.advance(false)
                },
            },
            DataEvent::End => {
                if short(self.remaining) {
                    self.guard.code = Code::MessageError;
                    return self.end(
                        DownloadAction::Fail(found(Kind::Body, Reason::ResponseTooShort)),
                    );
                }
                self.phase = DownloadPhase::PollingTrailers;
                (false, DownloadAction::PollTrailers)
            },
        }
    }

    /// Decides after [`DownloadAction::Push`] or [`DownloadAction::PushTrailers`]: whether
    /// the reader took it.
    pub fn pushed(&mut self, taken: bool) -> (r: (bool, DownloadAction))
        requires
            old(self).wf(),
            old(self)@.phase == DownloadPhase::Pushing || old(self)@.phase
                == DownloadPhase::PushingTrailers,
        ensures
            final(self).wf(),
            (DownloadTurn { download: final(self)@, pause: r.0, action: r.1@ }) == old(
                self,
            )@.on_pushed(taken),
    {
        if !taken {
            return self.end(DownloadAction::Abandon);
        }
        match self.phase {
            DownloadPhase::Pushing => {
                let tired = cooperate(&mut self.budget);
                self.advance(tired)
            },
            _ => self.complete(),
        }
    }

    /// Decides after [`DownloadAction::PollTrailers`].
    pub fn trailers(&mut self, event: TrailersEvent) -> (r: (bool, DownloadAction))
        requires
            old(self).wf(),
            old(self)@.phase == DownloadPhase::PollingTrailers,
        ensures
            final(self).wf(),
            (DownloadTurn { download: final(self)@, pause: r.0, action: r.1@ }) == old(
                self,
            )@.on_trailers(event),
    {
        match event {
            TrailersEvent::Closed => self.end(DownloadAction::Abandon),
            TrailersEvent::Failed(token) => self.end(
                DownloadAction::Fail(outside(Kind::Http3, token)),
            ),
            TrailersEvent::Trailers => {
                self.phase = DownloadPhase::PushingTrailers;
                (false, DownloadAction::PushTrailers)
            },
            TrailersEvent::End => self.complete(),
        }
    }
}

/// The chunks that follow a decision if the reader takes every one.
pub open spec fn pushes(turn: DownloadTurn) -> Seq<Seq<u8>>
    decreases turn.download.data.len(),
{
    match turn.action {
        DownloadActionView::Push(chunk) => if turn.download.data.len() == 0
            || turn.download.phase != DownloadPhase::Pushing {
            seq![chunk]
        } else {
            seq![chunk] + pushes(turn.download.on_pushed(true))
        },
        _ => Seq::empty(),
    }
}

proof fn lemma_advance_pushes_chunks(download: DownloadView, pause: bool)
    ensures
        pushes(download.advance(pause)) == chunks(download.data),
    decreases download.data.len(),
{
    if download.data.len() > 0 {
        let turn = download.advance(pause);
        if turn.download.data.len() > 0 {
            lemma_advance_pushes_chunks(turn.download.tick(), turn.download.pauses());
        } else {
            assert(chunks(after_chunk(download.data)) =~= Seq::empty());
            assert(chunks(download.data) =~= seq![first_chunk(download.data)]);
        }
    }
}

/// Data within the declared length reaches the reader whole and in order.
pub proof fn lemma_data_reaches_the_reader(download: DownloadView, data: Seq<u8>)
    requires
        data.len() <= usize::MAX,
        consumed(download.remaining, data.len() as usize) is Ok,
    ensures
        pushes(download.on_data(DataEventView::Data(data))) == chunks(data),
{
    let remaining = consumed(download.remaining, data.len() as usize)->Ok_0;
    lemma_advance_pushes_chunks(DownloadView { remaining, data, ..download }, false);
}

/// The download when the reader has taken every chunk that follows a decision.
pub open spec fn settled(turn: DownloadTurn) -> DownloadView
    decreases turn.download.data.len(),
{
    match turn.action {
        DownloadActionView::Push(_) => if turn.download.data.len() == 0 || turn.download.phase
            != DownloadPhase::Pushing {
            turn.download.on_pushed(true).download
        } else {
            settled(turn.download.on_pushed(true))
        },
        _ => turn.download,
    }
}

/// The download after some frames, and the chunks that it has handed on.
pub open spec fn after_frames(download: DownloadView, frames: Seq<Seq<u8>>) -> (
    DownloadView,
    Seq<Seq<u8>>,
)
    decreases frames.len(),
{
    if frames.len() == 0 {
        (download, Seq::empty())
    } else {
        let (before, handed) = after_frames(download, frames.drop_last());
        let turn = before.on_data(DataEventView::Data(frames.last()));
        (settled(turn), handed + pushes(turn))
    }
}

proof fn lemma_advance_settles(download: DownloadView, pause: bool)
    ensures
        settled(download.advance(pause)).remaining == download.remaining,
    decreases download.data.len(),
{
    if download.data.len() > 0 {
        let turn = download.advance(pause);
        if turn.download.data.len() > 0 {
            lemma_advance_settles(turn.download.tick(), turn.download.pauses());
        }
    }
}

/// A body that does not exceed its declared length reaches the reader whole and in order,
/// however it is cut into frames. At its end it is accepted exactly if the length was met.
pub proof fn lemma_body_reaches_the_reader(download: DownloadView, frames: Seq<Seq<u8>>)
    requires
        forall|i: int| 0 <= i < frames.len() ==> (#[trigger] frames[i]).len() <= usize::MAX,
        download.remaining matches Some(n) ==> joined(frames).len() <= n,
    ensures
        ({
            let (after, handed) = after_frames(download, frames);
            &&& joined(handed) == joined(frames)
            &&& after.remaining == match download.remaining {
                Some(n) => Some((n - joined(frames).len()) as u64),
                None => None,
            }
            &&& after.on_data(DataEventView::End).action == if is_short(after.remaining) {
                DownloadActionView::Fail(Error::found(Kind::Body, Reason::ResponseTooShort))
            } else {
                DownloadActionView::PollTrailers
            }
        }),
    decreases frames.len(),
{
    if frames.len() > 0 {
        let last = frames.last();
        let (before, handed) = after_frames(download, frames.drop_last());
        lemma_joined_last(frames);
        lemma_body_reaches_the_reader(download, frames.drop_last());
        let remaining = consumed(before.remaining, last.len() as usize)->Ok_0;
        let filled = DownloadView { remaining, data: last, ..before };
        lemma_advance_pushes_chunks(filled, false);
        lemma_advance_settles(filled, false);
        lemma_chunks_are_the_data(last);
        lemma_joined_lists(handed, chunks(last));
    }
}

/// A response that is shorter or longer than it declared is never complete: it fails, and
/// the stream is stopped as malformed.
pub proof fn lemma_wrong_length_fails(download: DownloadView, data: Seq<u8>)
    requires
        data.len() <= usize::MAX,
    ensures
        is_short(download.remaining) ==> {
            let turn = download.on_data(DataEventView::End);
            turn.action is Fail && turn.download.guard.code == Code::MessageError
        },
        consumed(download.remaining, data.len() as usize) is Err ==> {
            let turn = download.on_data(DataEventView::Data(data));
            turn.action is Fail && turn.download.guard.code == Code::MessageError
        },
{
}

/// Responses to HEAD, and those with status 204 or 304, are accepted without content, whatever
/// length the head declares, and fail with content. A response with status 204 that declares
/// a length is left out: it is malformed.
pub proof fn lemma_no_content_is_accepted(
    guard: RecvGuard,
    head: bool,
    status: u16,
    m: Map<Seq<u8>, Seq<Seq<u8>>>,
    data: Seq<u8>,
)
    requires
        head || status == 204 || status == 304,
        length_of(m) is Ok,
        status == 204 ==> !has_length(m),
        0 < data.len() <= usize::MAX,
    ensures
        ({
            let turn = DownloadView::start(guard, head, status, m);
            &&& turn.action == DownloadActionView::Deliver(Some(0u64))
            &&& turn.download.on_data(DataEventView::End).action is PollTrailers
            &&& turn.download.on_data(DataEventView::Data(data)).action is Fail
        }),
{
    if !has_length(m) {
        assert(length_of(m) == Ok::<Option<u64>, Reason>(None));
    }
}

/// A reader that goes away ends the download without a failure and leaves the stream
/// unfinished, so that only its receive direction is given up.
pub proof fn lemma_dropped_body_is_no_failure(download: DownloadView)
    ensures
        download.on_data(DataEventView::Closed).action is Abandon,
        download.on_pushed(false).action is Abandon,
        download.on_trailers(TrailersEvent::Closed).action is Abandon,
        download.on_data(DataEventView::Closed).download.guard == download.guard,
        download.on_pushed(false).download.guard == download.guard,
        download.on_trailers(TrailersEvent::Closed).download.guard == download.guard,
{
}

} // verus!
