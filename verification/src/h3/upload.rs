//! Sending a request body, as decisions between calls of the body and the transport.

use crate::buffer;
use crate::buffer::bytes_of;
use crate::error::found;
use crate::error::outside;
use crate::error::Error;
use crate::error::Kind;
use crate::error::Reason;
use crate::h3::length::consume_length;
use crate::h3::length::consumed;
use crate::h3::length::is_short;
use crate::h3::length::short;
use crate::h3::pace::after_chunk;
use crate::h3::pace::chunks;
use crate::h3::pace::cooperate;
use crate::h3::pace::first_chunk;
use crate::h3::pace::joined;
use crate::h3::pace::lemma_chunks_are_the_data;
use crate::h3::pace::lemma_joined_last;
use crate::h3::pace::lemma_joined_lists;
use crate::h3::pace::next_chunk;
use crate::h3::pace::PIECES;
use bytes::Bytes;
use vstd::prelude::*;

verus! {

/// What a poll brought: first the peer's stop is asked for, then the body.
pub enum BodyEvent {
    /// The peer wants no more of the body, or everything was acknowledged.
    Stopped,
    /// The stream failed.
    StopFailed(u64),
    /// A piece of the body.
    Data(Bytes),
    /// Trailers, which the caller keeps.
    Trailers,
    /// A frame of another sort.
    Unknown,
    /// The body failed.
    Failed(u64),
    /// The body is over.
    End,
}

/// What a poll brought.
pub enum BodyEventView {
    Stopped,
    StopFailed(u64),
    Data(Seq<u8>),
    Trailers,
    Unknown,
    Failed(u64),
    End,
}

impl View for BodyEvent {
    type V = BodyEventView;

    open spec fn view(&self) -> BodyEventView {
        match *self {
            BodyEvent::Stopped => BodyEventView::Stopped,
            BodyEvent::StopFailed(token) => BodyEventView::StopFailed(token),
            BodyEvent::Data(data) => BodyEventView::Data(bytes_of(data)),
            BodyEvent::Trailers => BodyEventView::Trailers,
            BodyEvent::Unknown => BodyEventView::Unknown,
            BodyEvent::Failed(token) => BodyEventView::Failed(token),
            BodyEvent::End => BodyEventView::End,
        }
    }
}

/// What the transport answered to a write.
#[derive(Clone, Copy, Debug, PartialEq, Eq, Structural)]
pub enum WriteEvent {
    /// It took the write.
    Accepted,
    /// The peer wants no more of the body.
    Terminated,
    /// The stream failed.
    Failed(u64),
}

/// What to do next.
pub enum UploadAction {
    /// Ask whether the peer stopped the upload, then ask the body for a frame.
    Poll,
    /// Send the chunk.
    SendData(Bytes),
    /// Send the trailers that the caller keeps.
    SendTrailers,
    /// End the stream.
    Finish,
    /// The stream has ended: end the request's Datagram send direction, and wait until the
    /// peer has acknowledged the end.
    AwaitAck,
    /// The upload is over.
    Done,
    /// The upload failed.
    Fail(Error),
}

/// What to do next.
pub enum UploadActionView {
    Poll,
    SendData(Seq<u8>),
    SendTrailers,
    Finish,
    AwaitAck,
    Done,
    Fail(Error),
}

impl View for UploadAction {
    type V = UploadActionView;

    open spec fn view(&self) -> UploadActionView {
        match *self {
            UploadAction::Poll => UploadActionView::Poll,
            UploadAction::SendData(data) => UploadActionView::SendData(bytes_of(data)),
            UploadAction::SendTrailers => UploadActionView::SendTrailers,
            UploadAction::Finish => UploadActionView::Finish,
            UploadAction::AwaitAck => UploadActionView::AwaitAck,
            UploadAction::Done => UploadActionView::Done,
            UploadAction::Fail(error) => UploadActionView::Fail(error),
        }
    }
}

impl UploadAction {
    /// Whether the request's Datagram send direction ends with this action: the stream was
    /// ended.
    pub open spec fn ends_datagrams(self) -> bool {
        self@ is AwaitAck
    }

    /// Whether the request's Datagram send direction ends with this action: the stream was
    /// ended.
    pub fn closes_datagrams(&self) -> (b: bool)
        ensures
            b == self.ends_datagrams(),
    {
        match self {
            UploadAction::AwaitAck => true,
            _ => false,
        }
    }
}

/// What the upload waits for.
#[derive(Clone, Copy, Debug, PartialEq, Eq, Structural)]
pub enum UploadPhase {
    /// A frame of the body.
    Polling,
    /// The transport, to take a chunk.
    SendingData,
    /// The transport, to take the trailers.
    SendingTrailers,
    /// The transport, to end the stream.
    Finishing,
    /// The peer, to acknowledge the end.
    Acknowledging,
    /// Nothing.
    Ended,
}

/// An upload.
#[verifier::ext_equal]
pub struct UploadView {
    /// What is left of the declared length.
    pub remaining: Option<u64>,
    pub trailers_sent: bool,
    /// Pieces of work since the last pause.
    pub budget: nat,
    /// What is left of the current frame.
    pub data: Seq<u8>,
    /// Whether the stream was ended.
    pub finished: bool,
    pub phase: UploadPhase,
}

/// An upload after a decision: whether to let other tasks run first, and what to do.
pub struct UploadTurn {
    pub upload: UploadView,
    pub pause: bool,
    pub action: UploadActionView,
}

impl UploadView {
    /// The end of the upload.
    pub open spec fn ended(self, action: UploadActionView) -> UploadTurn {
        UploadTurn {
            upload: UploadView { phase: UploadPhase::Ended, ..self },
            pause: false,
            action,
        }
    }

    pub open spec fn failed(self, error: Error) -> UploadTurn {
        self.ended(UploadActionView::Fail(error))
    }

    /// Counts one piece of work.
    pub open spec fn tick(self) -> UploadView {
        UploadView { budget: (self.budget + 1) % PIECES as nat, ..self }
    }

    /// Whether the next piece of work is followed by a pause.
    pub open spec fn pauses(self) -> bool {
        self.budget + 1 == PIECES
    }

    /// Sends the next chunk of the frame; asks for another frame if there is none.
    pub open spec fn advance(self, pause: bool) -> UploadTurn {
        if self.data.len() > 0 {
            UploadTurn {
                upload: UploadView {
                    data: after_chunk(self.data),
                    phase: UploadPhase::SendingData,
                    ..self
                },
                pause,
                action: UploadActionView::SendData(first_chunk(self.data)),
            }
        } else {
            UploadTurn {
                upload: UploadView { phase: UploadPhase::Polling, ..self.tick() },
                pause: pause || self.pauses(),
                action: UploadActionView::Poll,
            }
        }
    }

    /// The decision after a poll.
    pub open spec fn on_body(self, event: BodyEventView) -> UploadTurn {
        match event {
            BodyEventView::Stopped => self.ended(UploadActionView::Done),
            BodyEventView::StopFailed(token) => self.failed(Error::outside(Kind::Http3, token)),
            BodyEventView::Failed(token) => self.failed(Error::outside(Kind::UserBody, token)),
            BodyEventView::End => if is_short(self.remaining) {
                self.failed(Error::found(Kind::UserBody, Reason::BodyTooShort))
            } else {
                UploadTurn {
                    upload: UploadView { phase: UploadPhase::Finishing, ..self },
                    pause: false,
                    action: UploadActionView::Finish,
                }
            },
            _ if self.trailers_sent => self.failed(
                Error::found(Kind::UserBody, Reason::FrameAfterTrailers),
            ),
            BodyEventView::Data(data) => match consumed(self.remaining, data.len() as usize) {
                Err(reason) => self.failed(Error::found(Kind::UserBody, reason)),
                Ok(remaining) => (UploadView { remaining, data, ..self }).advance(false),
            },
            BodyEventView::Trailers => if is_short(self.remaining) {
                self.failed(Error::found(Kind::UserBody, Reason::BodyTooShort))
            } else {
                UploadTurn {
                    upload: UploadView { phase: UploadPhase::SendingTrailers, ..self },
                    pause: false,
                    action: UploadActionView::SendTrailers,
                }
            },
            BodyEventView::Unknown => (UploadView { data: Seq::empty(), ..self }).advance(false),
        }
    }

    /// The decision after a write.
    pub open spec fn on_write(self, event: WriteEvent) -> UploadTurn {
        match event {
            WriteEvent::Terminated => self.ended(UploadActionView::Done),
            WriteEvent::Failed(token) => self.failed(Error::outside(Kind::Http3, token)),
            WriteEvent::Accepted => match self.phase {
                UploadPhase::SendingData => self.tick().advance(self.pauses()),
                UploadPhase::SendingTrailers => (UploadView {
                    trailers_sent: true,
                    data: Seq::empty(),
                    ..self
                }).advance(false),
                _ => UploadTurn {
                    upload: UploadView {
                        finished: true,
                        phase: UploadPhase::Acknowledging,
                        ..self
                    },
                    pause: false,
                    action: UploadActionView::AwaitAck,
                },
            },
        }
    }

    /// The decision after the end was acknowledged, or the stream failed.
    pub open spec fn on_ack(self, result: Result<(), u64>) -> UploadTurn {
        match result {
            Ok(()) => self.ended(UploadActionView::Done),
            Err(token) => self.failed(Error::outside(Kind::Http3, token)),
        }
    }
}

/// Sends a body, chunk by chunk, and checks its declared length.
pub struct Upload {
    remaining: Option<u64>,
    trailers_sent: bool,
    budget: usize,
    data: Bytes,
    finished: bool,
    phase: UploadPhase,
}

impl View for Upload {
    type V = UploadView;

    closed spec fn view(&self) -> UploadView {
        UploadView {
            remaining: self.remaining,
            trailers_sent: self.trailers_sent,
            budget: self.budget as nat,
            data: bytes_of(self.data),
            finished: self.finished,
            phase: self.phase,
        }
    }
}

impl Upload {
    /// The budget is not used up.
    pub open spec fn wf(self) -> bool {
        self@.budget < PIECES
    }

    /// An upload that has sent nothing. Its first action is [`UploadAction::Poll`].
    pub fn new(length: Option<u64>) -> (u: Upload)
        ensures
            u.wf(),
            u@ == (UploadView {
                remaining: length,
                trailers_sent: false,
                budget: 0,
                data: Seq::empty(),
                finished: false,
                phase: UploadPhase::Polling,
            }),
    {
        Upload {
            remaining: length,
            trailers_sent: false,
            budget: 0,
            data: buffer::empty(),
            finished: false,
            phase: UploadPhase::Polling,
        }
    }

    /// Whether the stream was ended.
    pub fn is_finished(&self) -> (b: bool)
        ensures
            b == self@.finished,
    {
        self.finished
    }

    fn advance(&mut self, pause: bool) -> (r: (bool, UploadAction))
        requires
            old(self).wf(),
        ensures
            final(self).wf(),
            (UploadTurn { upload: final(self)@, pause: r.0, action: r.1@ }) == old(self)@.advance(
                pause,
            ),
    {
        if buffer::len(&self.data) > 0 {
            let chunk = next_chunk(&mut self.data);
            self.phase = UploadPhase::SendingData;
            (pause, UploadAction::SendData(chunk))
        } else {
            let tired = cooperate(&mut self.budget);
            self.phase = UploadPhase::Polling;
            (pause || tired, UploadAction::Poll)
        }
    }

    fn end(&mut self, action: UploadAction) -> (r: (bool, UploadAction))
        requires
            old(self).wf(),
        ensures
            final(self).wf(),
            (UploadTurn { upload: final(self)@, pause: r.0, action: r.1@ }) == old(self)@.ended(
                action@,
            ),
    {
        self.phase = UploadPhase::Ended;
        (false, action)
    }

    /// Decides after [`UploadAction::Poll`]. The first result says whether to let other
    /// tasks run before the action.
    pub fn body(&mut self, event: BodyEvent) -> (r: (bool, UploadAction))
        requires
            old(self).wf(),
            old(self)@.phase == UploadPhase::Polling,
        ensures
            final(self).wf(),
            (UploadTurn { upload: final(self)@, pause: r.0, action: r.1@ }) == old(self)@.on_body(
                event@,
            ),
    {
        match event {
            BodyEvent::Stopped => self.end(UploadAction::Done),
            BodyEvent::StopFailed(token) => self.end(
                UploadAction::Fail(outside(Kind::Http3, token)),
            ),
            BodyEvent::Failed(token) => self.end(
                UploadAction::Fail(outside(Kind::UserBody, token)),
            ),
            BodyEvent::End => {
                if short(self.remaining) {
                    return self.end(
                        UploadAction::Fail(found(Kind::UserBody, Reason::BodyTooShort)),
                    );
                }
                self.phase = UploadPhase::Finishing;
                (false, UploadAction::Finish)
            },
            BodyEvent::Data(data) => {
                if self.trailers_sent {
                    return self.end(
                        UploadAction::Fail(found(Kind::UserBody, Reason::FrameAfterTrailers)),
                    );
                }
                match consume_length(&mut self.remaining, buffer::len(&data)) {
                    Err(reason) => self.end(UploadAction::Fail(found(Kind::UserBody, reason))),
                    Ok(()) => {
                        self.data = data;
                        self.advance(false)
                    },
                }
            },
            BodyEvent::Trailers => {
                if self.trailers_sent {
                    return self.end(
                        UploadAction::Fail(found(Kind::UserBody, Reason::FrameAfterTrailers)),
                    );
                }
                if short(self.remaining) {
                    return self.end(
                        UploadAction::Fail(found(Kind::UserBody, Reason::BodyTooShort)),
                    );
                }
                self.phase = UploadPhase::SendingTrailers;
                (false, UploadAction::SendTrailers)
            },
            BodyEvent::Unknown => {
                if self.trailers_sent {
                    return self.end(
                        UploadAction::Fail(found(Kind::UserBody, Reason::FrameAfterTrailers)),
                    );
                }
                self.data = buffer::empty();
                self.advance(false)
            },
        }
    }

    /// Decides after [`UploadAction::SendData`], [`UploadAction::SendTrailers`] or
    /// [`UploadAction::Finish`].
    pub fn write(&mut self, event: WriteEvent) -> (r: (bool, UploadAction))
        requires
            old(self).wf(),
            old(self)@.phase == UploadPhase::SendingData || old(self)@.phase
                == UploadPhase::SendingTrailers || old(self)@.phase == UploadPhase::Finishing,
        ensures
            final(self).wf(),
            (UploadTurn { upload: final(self)@, pause: r.0, action: r.1@ }) == old(
                self,
            )@.on_write(event),
    {
        match event {
            WriteEvent::Terminated => self.end(UploadAction::Done),
            WriteEvent::Failed(token) => self.end(
                UploadAction::Fail(outside(Kind::Http3, token)),
            ),
            WriteEvent::Accepted => match self.phase {
                UploadPhase::SendingData => {
                    let tired = cooperate(&mut self.budget);
                    self.advance(tired)
                },
                UploadPhase::SendingTrailers => {
                    self.trailers_sent = true;
                    self.data = buffer::empty();
                    self.advance(false)
                },
                _ => {
                    self.finished = true;
                    self.phase = UploadPhase::Acknowledging;
                    (false, UploadAction::AwaitAck)
                },
            },
        }
    }

    /// Decides after [`UploadAction::AwaitAck`].
    pub fn ack(&mut self, result: Result<(), u64>) -> (r: (bool, UploadAction))
        requires
            old(self).wf(),
            old(self)@.phase == UploadPhase::Acknowledging,
        ensures
            final(self).wf(),
            (UploadTurn { upload: final(self)@, pause: r.0, action: r.1@ }) == old(self)@.on_ack(
                result,
            ),
    {
        match result {
            Ok(()) => self.end(UploadAction::Done),
            Err(token) => self.end(UploadAction::Fail(outside(Kind::Http3, token))),
        }
    }
}

/// The chunks that follow a decision if the transport takes every one.
pub open spec fn sends(turn: UploadTurn) -> Seq<Seq<u8>>
    decreases turn.upload.data.len(),
{
    match turn.action {
        UploadActionView::SendData(chunk) => if turn.upload.data.len() == 0
            || turn.upload.phase != UploadPhase::SendingData {
            seq![chunk]
        } else {
            seq![chunk] + sends(turn.upload.on_write(WriteEvent::Accepted))
        },
        _ => Seq::empty(),
    }
}

proof fn lemma_advance_sends_chunks(upload: UploadView, pause: bool)
    ensures
        sends(upload.advance(pause)) == chunks(upload.data),
    decreases upload.data.len(),
{
    if upload.data.len() > 0 {
        let turn = upload.advance(pause);
        if turn.upload.data.len() > 0 {
            lemma_advance_sends_chunks(turn.upload.tick(), turn.upload.pauses());
        } else {
            assert(chunks(after_chunk(upload.data)) =~= Seq::empty());
            assert(chunks(upload.data) =~= seq![first_chunk(upload.data)]);
        }
    }
}

/// A frame that is within the declared length is sent whole and in order.
pub proof fn lemma_frame_is_sent_whole(upload: UploadView, data: Seq<u8>)
    requires
        !upload.trailers_sent,
        data.len() <= usize::MAX,
        consumed(upload.remaining, data.len() as usize) is Ok,
    ensures
        sends(upload.on_body(BodyEventView::Data(data))) == chunks(data),
{
    let remaining = consumed(upload.remaining, data.len() as usize)->Ok_0;
    lemma_advance_sends_chunks(UploadView { remaining, data, ..upload }, false);
}

/// The upload when the transport has taken every chunk that follows a decision.
pub open spec fn settled(turn: UploadTurn) -> UploadView
    decreases turn.upload.data.len(),
{
    match turn.action {
        UploadActionView::SendData(_) => if turn.upload.data.len() == 0 || turn.upload.phase
            != UploadPhase::SendingData {
            turn.upload.on_write(WriteEvent::Accepted).upload
        } else {
            settled(turn.upload.on_write(WriteEvent::Accepted))
        },
        _ => turn.upload,
    }
}

/// The upload after some frames, and the chunks that it has handed on.
pub open spec fn after_frames(upload: UploadView, frames: Seq<Seq<u8>>) -> (
    UploadView,
    Seq<Seq<u8>>,
)
    decreases frames.len(),
{
    if frames.len() == 0 {
        (upload, Seq::empty())
    } else {
        let (before, handed) = after_frames(upload, frames.drop_last());
        let turn = before.on_body(BodyEventView::Data(frames.last()));
        (settled(turn), handed + sends(turn))
    }
}

proof fn lemma_advance_settles(upload: UploadView, pause: bool)
    ensures
        settled(upload.advance(pause)).remaining == upload.remaining,
        settled(upload.advance(pause)).trailers_sent == upload.trailers_sent,
    decreases upload.data.len(),
{
    if upload.data.len() > 0 {
        let turn = upload.advance(pause);
        if turn.upload.data.len() > 0 {
            lemma_advance_settles(turn.upload.tick(), turn.upload.pauses());
        }
    }
}

/// A body that does not exceed its declared length is sent whole and in order, however it is
/// cut into frames. At its end the stream is ended exactly if the length was met.
pub proof fn lemma_body_is_sent_whole(upload: UploadView, frames: Seq<Seq<u8>>)
    requires
        !upload.trailers_sent,
        forall|i: int| 0 <= i < frames.len() ==> (#[trigger] frames[i]).len() <= usize::MAX,
        upload.remaining matches Some(n) ==> joined(frames).len() <= n,
    ensures
        ({
            let (after, handed) = after_frames(upload, frames);
            &&& joined(handed) == joined(frames)
            &&& after.remaining == match upload.remaining {
                Some(n) => Some((n - joined(frames).len()) as u64),
                None => None,
            }
            &&& !after.trailers_sent
            &&& after.on_body(BodyEventView::End).action == if is_short(after.remaining) {
                UploadActionView::Fail(Error::found(Kind::UserBody, Reason::BodyTooShort))
            } else {
                UploadActionView::Finish
            }
        }),
    decreases frames.len(),
{
    if frames.len() > 0 {
        let last = frames.last();
        let (before, handed) = after_frames(upload, frames.drop_last());
        lemma_joined_last(frames);
        lemma_body_is_sent_whole(upload, frames.drop_last());
        let remaining = consumed(before.remaining, last.len() as usize)->Ok_0;
        let filled = UploadView { remaining, data: last, ..before };
        lemma_advance_sends_chunks(filled, false);
        lemma_advance_settles(filled, false);
        lemma_chunks_are_the_data(last);
        lemma_joined_lists(handed, chunks(last));
    }
}

/// The stream is only ended, and trailers are only sent, when the declared length was met.
pub proof fn lemma_short_body_is_never_finished(upload: UploadView, event: BodyEventView)
    ensures
        upload.on_body(event).action is Finish ==> !is_short(upload.remaining),
        upload.on_body(event).action is SendTrailers ==> !is_short(upload.remaining),
{
}

/// Nothing follows trailers but the end.
pub proof fn lemma_trailers_are_last(upload: UploadView, event: BodyEventView)
    requires
        upload.trailers_sent,
    ensures
        !(upload.on_body(event).action is SendData),
        !(upload.on_body(event).action is SendTrailers),
{
}

/// A peer that wants no more of the body ends the upload without a failure, so that its
/// response is still read; the stream is not counted as finished.
pub proof fn lemma_stop_is_no_failure(upload: UploadView)
    ensures
        upload.on_body(BodyEventView::Stopped).action is Done,
        upload.on_write(WriteEvent::Terminated).action is Done,
        upload.on_body(BodyEventView::Stopped).upload.finished == upload.finished,
        upload.on_write(WriteEvent::Terminated).upload.finished == upload.finished,
{
}

/// The Datagram send direction ends exactly when the stream is ended; an upload that fails or
/// that the peer stops leaves it as it is.
pub proof fn lemma_stream_end_ends_datagrams(upload: UploadView, event: WriteEvent)
    requires
        !upload.finished,
    ensures
        upload.on_write(event).action is AwaitAck <==> upload.on_write(event).upload.finished,
{
}

} // verus!
