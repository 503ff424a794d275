//! The two directions of a CONNECT tunnel, as decisions between calls of the transport and
//! the tunnel's user.

use crate::buffer;
use crate::buffer::bytes_of;
use crate::error::bare;
use crate::error::outside;
use crate::error::Error;
use crate::error::Kind;
use crate::h3::pace::after_chunk;
use crate::h3::pace::chunks;
use crate::h3::pace::cooperate;
use crate::h3::pace::first_chunk;
use crate::h3::pace::next_chunk;
use crate::h3::pace::PIECES;
use bytes::Bytes;
use vstd::prelude::*;

pub mod io;

verus! {

/// Whether the caller took the response that opens the tunnel; without a caller it is
/// canceled.
pub fn delivered(taken: bool) -> (r: Result<(), Error>)
    ensures
        r == if taken {
            Ok::<(), Error>(())
        } else {
            Err(Error::bare(Kind::Canceled))
        },
{
    if taken {
        Ok(())
    } else {
        Err(bare(Kind::Canceled))
    }
}

/// What a poll for work brought: first the peer's stop is asked for, then the user.
pub enum WorkEvent {
    /// The peer wants no more bytes.
    Stopped,
    /// The stream failed.
    StopFailed(u64),
    /// Bytes to send.
    Data(Bytes),
    /// The user wants to know when everything before has been sent.
    Flush,
    /// The user ends the direction.
    Finish,
    /// The user is gone.
    Closed,
}

/// What a poll for work brought.
pub enum WorkEventView {
    Stopped,
    StopFailed(u64),
    Data(Seq<u8>),
    Flush,
    Finish,
    Closed,
}

impl View for WorkEvent {
    type V = WorkEventView;

    open spec fn view(&self) -> WorkEventView {
        match *self {
            WorkEvent::Stopped => WorkEventView::Stopped,
            WorkEvent::StopFailed(token) => WorkEventView::StopFailed(token),
            WorkEvent::Data(data) => WorkEventView::Data(bytes_of(data)),
            WorkEvent::Flush => WorkEventView::Flush,
            WorkEvent::Finish => WorkEventView::Finish,
            WorkEvent::Closed => WorkEventView::Closed,
        }
    }
}

/// What the sending side does next.
pub enum TunnelAction {
    /// Ask whether the peer stopped the direction, then ask the user for work.
    Poll,
    /// Send the bytes.
    Send(Bytes),
    /// Tell the user that everything before has been sent.
    Flushed,
    /// End the request's Datagram send direction, then end the stream.
    Finish,
    /// The stream has ended: tell the user, and wait until the peer has acknowledged it.
    AwaitAck,
    /// The direction is over.
    Done,
    /// The peer stopped the direction: end the request's Datagram send direction.
    Stopped,
    /// The direction failed.
    Fail(Error),
}

/// What the sending side does next.
pub enum TunnelActionView {
    Poll,
    Send(Seq<u8>),
    Flushed,
    Finish,
    AwaitAck,
    Done,
    Stopped,
    Fail(Error),
}

impl View for TunnelAction {
    type V = TunnelActionView;

    open spec fn view(&self) -> TunnelActionView {
        match *self {
            TunnelAction::Poll => TunnelActionView::Poll,
            TunnelAction::Send(data) => TunnelActionView::Send(bytes_of(data)),
            TunnelAction::Flushed => TunnelActionView::Flushed,
            TunnelAction::Finish => TunnelActionView::Finish,
            TunnelAction::AwaitAck => TunnelActionView::AwaitAck,
            TunnelAction::Done => TunnelActionView::Done,
            TunnelAction::Stopped => TunnelActionView::Stopped,
            TunnelAction::Fail(error) => TunnelActionView::Fail(error),
        }
    }
}

impl TunnelAction {
    /// Whether the request's Datagram send direction ends with this action: the user ends it,
    /// or the peer wants no more.
    pub open spec fn ends_datagrams(self) -> bool {
        self@ is Finish || self@ is Stopped
    }

    /// Whether the request's Datagram send direction ends with this action: the user ends it,
    /// or the peer wants no more.
    pub fn closes_datagrams(&self) -> (b: bool)
        ensures
            b == self.ends_datagrams(),
    {
        match self {
            TunnelAction::Finish => true,
            TunnelAction::Stopped => true,
            _ => false,
        }
    }
}

/// What the sending side waits for.
#[derive(Clone, Copy, Debug, PartialEq, Eq, Structural)]
pub enum TunnelPhase {
    /// Work.
    Polling,
    /// The transport, to take bytes.
    Sending,
    /// The user, to be told that everything was sent.
    Flushing,
    /// The transport, to end the stream.
    Finishing,
    /// The peer, to acknowledge the end.
    Acknowledging,
    /// Nothing.
    Ended,
}

/// The sending side of a tunnel.
#[verifier::ext_equal]
pub struct TunnelUploadView {
    /// Pieces of work since the last pause.
    pub budget: nat,
    /// Whether the stream was ended.
    pub finished: bool,
    pub phase: TunnelPhase,
}

/// The sending side after a decision: whether to let other tasks run first, and what to do.
pub struct TunnelUploadTurn {
    pub upload: TunnelUploadView,
    pub pause: bool,
    pub action: TunnelActionView,
}

impl TunnelUploadView {
    pub open spec fn to(self, phase: TunnelPhase, action: TunnelActionView) -> TunnelUploadTurn {
        TunnelUploadTurn {
            upload: TunnelUploadView { phase, ..self },
            pause: false,
            action,
        }
    }

    pub open spec fn failed(self, error: Error) -> TunnelUploadTurn {
        self.to(TunnelPhase::Ended, TunnelActionView::Fail(error))
    }

    /// The decision after a poll for work. Without a user who ended the direction, the
    /// tunnel was canceled.
    pub open spec fn on_work(self, event: WorkEventView) -> TunnelUploadTurn {
        match event {
            WorkEventView::Stopped => self.to(TunnelPhase::Ended, TunnelActionView::Stopped),
            WorkEventView::StopFailed(token) => self.failed(Error::outside(Kind::Http3, token)),
            WorkEventView::Data(data) => self.to(
                TunnelPhase::Sending,
                TunnelActionView::Send(data),
            ),
            WorkEventView::Flush => self.to(TunnelPhase::Flushing, TunnelActionView::Flushed),
            WorkEventView::Finish => self.to(TunnelPhase::Finishing, TunnelActionView::Finish),
            WorkEventView::Closed => self.failed(Error::bare(Kind::Canceled)),
        }
    }

    /// The decision after something was done.
    pub open spec fn on_done(self, result: Result<(), u64>) -> TunnelUploadTurn {
        match result {
            Err(token) => self.failed(Error::outside(Kind::Http3, token)),
            Ok(()) => match self.phase {
                TunnelPhase::Finishing => (TunnelUploadView { finished: true, ..self }).to(
                    TunnelPhase::Acknowledging,
                    TunnelActionView::AwaitAck,
                ),
                TunnelPhase::Acknowledging => self.to(
                    TunnelPhase::Ended,
                    TunnelActionView::Done,
                ),
                _ => TunnelUploadTurn {
                    upload: TunnelUploadView {
                        budget: (self.budget + 1) % PIECES as nat,
                        phase: TunnelPhase::Polling,
                        ..self
                    },
                    pause: self.budget + 1 == PIECES,
                    action: TunnelActionView::Poll,
                },
            },
        }
    }
}

/// The sending side of a tunnel.
pub struct TunnelUpload {
    budget: usize,
    finished: bool,
    phase: TunnelPhase,
}

impl View for TunnelUpload {
    type V = TunnelUploadView;

    closed spec fn view(&self) -> TunnelUploadView {
        TunnelUploadView {
            budget: self.budget as nat,
            finished: self.finished,
            phase: self.phase,
        }
    }
}

impl TunnelUpload {
    /// The budget is not used up.
    pub open spec fn wf(self) -> bool {
        self@.budget < PIECES
    }

    /// A direction that has sent nothing. Its first action is [`TunnelAction::Poll`].
    pub fn new() -> (u: TunnelUpload)
        ensures
            u.wf(),
            u@ == (TunnelUploadView { budget: 0, finished: false, phase: TunnelPhase::Polling }),
    {
        TunnelUpload { budget: 0, finished: false, phase: TunnelPhase::Polling }
    }

    /// Whether the stream was ended.
    pub fn is_finished(&self) -> (b: bool)
        ensures
            b == self@.finished,
    {
        self.finished
    }

    fn to(&mut self, phase: TunnelPhase, action: TunnelAction) -> (r: (bool, TunnelAction))
        requires
            old(self).wf(),
        ensures
            final(self).wf(),
            (TunnelUploadTurn { upload: final(self)@, pause: r.0, action: r.1@ }) == old(
                self,
            )@.to(phase, action@),
    {
        self.phase = phase;
        (false, action)
    }

    /// Decides after [`TunnelAction::Poll`].
    pub fn work(&mut self, event: WorkEvent) -> (r: (bool, TunnelAction))
        requires
            old(self).wf(),
            old(self)@.phase == TunnelPhase::Polling,
        ensures
            final(self).wf(),
            (TunnelUploadTurn { upload: final(self)@, pause: r.0, action: r.1@ }) == old(
                self,
            )@.on_work(event@),
    {
        match event {
            WorkEvent::Stopped => self.to(TunnelPhase::Ended, TunnelAction::Stopped),
            WorkEvent::StopFailed(token) => self.to(
                TunnelPhase::Ended,
                TunnelAction::Fail(outside(Kind::Http3, token)),
            ),
            WorkEvent::Data(data) => self.to(TunnelPhase::Sending, TunnelAction::Send(data)),
            WorkEvent::Flush => self.to(TunnelPhase::Flushing, TunnelAction::Flushed),
            WorkEvent::Finish => self.to(TunnelPhase::Finishing, TunnelAction::Finish),
            WorkEvent::Closed => self.to(
                TunnelPhase::Ended,
                TunnelAction::Fail(bare(Kind::Canceled)),
            ),
        }
    }

    /// Decides after [`TunnelAction::Send`], [`TunnelAction::Flushed`],
    /// [`TunnelAction::Finish`] or [`TunnelAction::AwaitAck`]. The stream may have failed.
    pub fn done(&mut self, result: Result<(), u64>) -> (r: (bool, TunnelAction))
        requires
            old(self).wf(),
            old(self)@.phase != TunnelPhase::Polling,
            old(self)@.phase != TunnelPhase::Ended,
        ensures
            final(self).wf(),
            (TunnelUploadTurn { upload: final(self)@, pause: r.0, action: r.1@ }) == old(
                self,
            )@.on_done(result),
    {
        if let Err(token) = result {
            return self.to(
                TunnelPhase::Ended,
                TunnelAction::Fail(outside(Kind::Http3, token)),
            );
        }
        match self.phase {
            TunnelPhase::Finishing => {
                self.finished = true;
                self.to(TunnelPhase::Acknowledging, TunnelAction::AwaitAck)
            },
            TunnelPhase::Acknowledging => self.to(TunnelPhase::Ended, TunnelAction::Done),
            _ => {
                let tired = cooperate(&mut self.budget);
                self.phase = TunnelPhase::Polling;
                (tired, TunnelAction::Poll)
            },
        }
    }
}

/// What a poll for received bytes brought: first the user is asked for, then the transport.
pub enum ArrivalEvent {
    /// The user is gone.
    Closed,
    /// Bytes.
    Data(Bytes),
    /// There are no more.
    End,
    /// The stream failed.
    Failed(u64),
}

/// What a poll for received bytes brought.
pub enum ArrivalEventView {
    Closed,
    Data(Seq<u8>),
    End,
    Failed(u64),
}

impl View for ArrivalEvent {
    type V = ArrivalEventView;

    open spec fn view(&self) -> ArrivalEventView {
        match *self {
            ArrivalEvent::Closed => ArrivalEventView::Closed,
            ArrivalEvent::Data(data) => ArrivalEventView::Data(bytes_of(data)),
            ArrivalEvent::End => ArrivalEventView::End,
            ArrivalEvent::Failed(token) => ArrivalEventView::Failed(token),
        }
    }
}

/// How the user met a chunk.
#[derive(Clone, Copy, Debug, PartialEq, Eq, Structural)]
pub enum PushEvent {
    /// It took the chunk.
    Taken,
    /// It was gone before it had room.
    NeverReady,
    /// It was gone when the chunk was handed over.
    Refused,
}

/// How the stream ended.
#[derive(Clone, Copy, Debug, PartialEq, Eq, Structural)]
pub enum CloseEvent {
    /// The user is gone.
    Closed,
    /// With trailers or without; they mean nothing to a tunnel.
    End,
    /// The stream failed.
    Failed(u64),
}

/// What the receiving side does next.
pub enum ArrivalAction {
    /// Ask whether the user is gone, then ask the transport for bytes.
    Poll,
    /// Wait until the user has room, and hand it the chunk.
    Push(Bytes),
    /// Ask whether the user is gone, then ask the transport for the end of the stream.
    PollEnd,
    /// The direction is over: end the request's Datagram receive direction.
    Done,
    /// The direction failed.
    Fail(Error),
}

/// What the receiving side does next.
pub enum ArrivalActionView {
    Poll,
    Push(Seq<u8>),
    PollEnd,
    Done,
    Fail(Error),
}

impl View for ArrivalAction {
    type V = ArrivalActionView;

    open spec fn view(&self) -> ArrivalActionView {
        match *self {
            ArrivalAction::Poll => ArrivalActionView::Poll,
            ArrivalAction::Push(data) => ArrivalActionView::Push(bytes_of(data)),
            ArrivalAction::PollEnd => ArrivalActionView::PollEnd,
            ArrivalAction::Done => ArrivalActionView::Done,
            ArrivalAction::Fail(error) => ArrivalActionView::Fail(error),
        }
    }
}

impl ArrivalAction {
    /// Whether the request's Datagram receive direction ends with this action: the stream is
    /// over.
    pub open spec fn ends_datagrams(self) -> bool {
        self@ is Done
    }

    /// Whether the request's Datagram receive direction ends with this action: the stream is
    /// over.
    pub fn closes_datagrams(&self) -> (b: bool)
        ensures
            b == self.ends_datagrams(),
    {
        match self {
            ArrivalAction::Done => true,
            _ => false,
        }
    }
}

/// What the receiving side waits for.
#[derive(Clone, Copy, Debug, PartialEq, Eq, Structural)]
pub enum ArrivalPhase {
    /// Bytes.
    Polling,
    /// The user, to take a chunk.
    Pushing,
    /// The end of the stream.
    Closing,
    /// Nothing.
    Ended,
}

/// The receiving side of a tunnel.
#[verifier::ext_equal]
pub struct TunnelDownloadView {
    /// Pieces of work since the last pause.
    pub budget: nat,
    /// What is left of the current bytes.
    pub data: Seq<u8>,
    /// Whether the stream has ended.
    pub finished: bool,
    pub phase: ArrivalPhase,
}

/// The receiving side after a decision.
pub struct TunnelDownloadTurn {
    pub download: TunnelDownloadView,
    pub pause: bool,
    pub action: ArrivalActionView,
}

impl TunnelDownloadView {
    pub open spec fn failed(self, error: Error) -> TunnelDownloadTurn {
        TunnelDownloadTurn {
            download: TunnelDownloadView { phase: ArrivalPhase::Ended, ..self },
            pause: false,
            action: ArrivalActionView::Fail(error),
        }
    }

    /// Counts one piece of work.
    pub open spec fn tick(self) -> TunnelDownloadView {
        TunnelDownloadView { budget: (self.budget + 1) % PIECES as nat, ..self }
    }

    /// Hands on the next chunk; asks for more bytes if there is none.
    pub open spec fn advance(self, pause: bool) -> TunnelDownloadTurn {
        if self.data.len() > 0 {
            TunnelDownloadTurn {
                download: TunnelDownloadView {
                    data: after_chunk(self.data),
                    phase: ArrivalPhase::Pushing,
                    ..self
                },
                pause,
                action: ArrivalActionView::Push(first_chunk(self.data)),
            }
        } else {
            TunnelDownloadTurn {
                download: TunnelDownloadView { phase: ArrivalPhase::Polling, ..self.tick() },
                pause: pause || self.budget + 1 == PIECES,
                action: ArrivalActionView::Poll,
            }
        }
    }

    /// The decision after a poll for bytes.
    pub open spec fn on_arrival(self, event: ArrivalEventView) -> TunnelDownloadTurn {
        match event {
            ArrivalEventView::Closed => self.failed(Error::bare(Kind::Canceled)),
            ArrivalEventView::Failed(token) => self.failed(Error::outside(Kind::Http3, token)),
            ArrivalEventView::Data(data) => (TunnelDownloadView { data, ..self }).advance(false),
            ArrivalEventView::End => TunnelDownloadTurn {
                download: TunnelDownloadView { phase: ArrivalPhase::Closing, ..self },
                pause: false,
                action: ArrivalActionView::PollEnd,
            },
        }
    }

    /// The decision after a chunk was offered to the user.
    pub open spec fn on_pushed(self, event: PushEvent) -> TunnelDownloadTurn {
        match event {
            PushEvent::Taken => self.tick().advance(self.budget + 1 == PIECES),
            PushEvent::NeverReady => self.failed(Error::bare(Kind::Closed)),
            PushEvent::Refused => self.failed(Error::bare(Kind::Canceled)),
        }
    }

    /// The decision after a poll for the end.
    pub open spec fn on_close(self, event: CloseEvent) -> TunnelDownloadTurn {
        match event {
            CloseEvent::Closed => self.failed(Error::bare(Kind::Canceled)),
            CloseEvent::Failed(token) => self.failed(Error::outside(Kind::Http3, token)),
            CloseEvent::End => TunnelDownloadTurn {
                download: TunnelDownloadView {
                    finished: true,
                    phase: ArrivalPhase::Ended,
                    ..self
                },
                pause: false,
                action: ArrivalActionView::Done,
            },
        }
    }
}

/// The receiving side of a tunnel.
pub struct TunnelDownload {
    budget: usize,
    data: Bytes,
    finished: bool,
    phase: ArrivalPhase,
}

impl View for TunnelDownload {
    type V = TunnelDownloadView;

    closed spec fn view(&self) -> TunnelDownloadView {
        TunnelDownloadView {
            budget: self.budget as nat,
            data: bytes_of(self.data),
            finished: self.finished,
            phase: self.phase,
        }
    }
}

impl TunnelDownload {
    /// The budget is not used up.
    pub open spec fn wf(self) -> bool {
        self@.budget < PIECES
    }

    /// A direction that has received nothing. Its first action is [`ArrivalAction::Poll`].
    pub fn new() -> (d: TunnelDownload)
        ensures
            d.wf(),
            d@ == (TunnelDownloadView {
                budget: 0,
                data: Seq::empty(),
                finished: false,
                phase: ArrivalPhase::Polling,
            }),
    {
        TunnelDownload {
            budget: 0,
            data: buffer::empty(),
            finished: false,
            phase: ArrivalPhase::Polling,
        }
    }

    /// Whether the stream has ended.
    pub fn is_finished(&self) -> (b: bool)
        ensures
            b == self@.finished,
    {
        self.finished
    }

    fn fail(&mut self, error: Error) -> (r: (bool, ArrivalAction))
        requires
            old(self).wf(),
        ensures
            final(self).wf(),
            (TunnelDownloadTurn { download: final(self)@, pause: r.0, action: r.1@ }) == old(
                self,
            )@.failed(error),
    {
        self.phase = ArrivalPhase::Ended;
        (false, ArrivalAction::Fail(error))
    }

    fn advance(&mut self, pause: bool) -> (r: (bool, ArrivalAction))
        requires
            old(self).wf(),
        ensures
            final(self).wf(),
            (TunnelDownloadTurn { download: final(self)@, pause: r.0, action: r.1@ }) == old(
                self,
            )@.advance(pause),
    {
        if buffer::len(&self.data) > 0 {
            let chunk = next_chunk(&mut self.data);
            self.phase = ArrivalPhase::Pushing;
            (pause, ArrivalAction::Push(chunk))
        } else {
            let tired = cooperate(&mut self.budget);
            self.phase = ArrivalPhase::Polling;
            (pause || tired, ArrivalAction::Poll)
        }
    }

    /// Decides after [`ArrivalAction::Poll`].
    pub fn arrival(&mut self, event: ArrivalEvent) -> (r: (bool, ArrivalAction))
        requires
            old(self).wf(),
            old(self)@.phase == ArrivalPhase::Polling,
        ensures
            final(self).wf(),
            (TunnelDownloadTurn { download: final(self)@, pause: r.0, action: r.1@ }) == old(
                self,
            )@.on_arrival(event@),
    {
        match event {
            ArrivalEvent::Closed => self.fail(bare(Kind::Canceled)),
            ArrivalEvent::Failed(token) => self.fail(outside(Kind::Http3, token)),
            ArrivalEvent::Data(data) => {
                self.data = data;
                self.advance(false)
            },
            ArrivalEvent::End => {
                self.phase = ArrivalPhase::Closing;
                (false, ArrivalAction::PollEnd)
            },
        }
    }

    /// Decides after [`ArrivalAction::Push`].
    pub fn pushed(&mut self, event: PushEvent) -> (r: (bool, ArrivalAction))
        requires
            old(self).wf(),
            old(self)@.phase == ArrivalPhase::Pushing,
        ensures
            final(self).wf(),
            (TunnelDownloadTurn { download: final(self)@, pause: r.0, action: r.1@ }) == old(
                self,
            )@.on_pushed(event),
    {
        match event {
            PushEvent::Taken => {
                let tired = cooperate(&mut self.budget);
                self.advance(tired)
            },
            PushEvent::NeverReady => self.fail(bare(Kind::Closed)),
            PushEvent::Refused => self.fail(bare(Kind::Canceled)),
        }
    }

    /// Decides after [`ArrivalAction::PollEnd`].
    pub fn closed(&mut self, event: CloseEvent) -> (r: (bool, ArrivalAction))
        requires
            old(self).wf(),
            old(self)@.phase == ArrivalPhase::Closing,
        ensures
            final(self).wf(),
            (TunnelDownloadTurn { download: final(self)@, pause: r.0, action: r.1@ }) == old(
                self,
            )@.on_close(event),
    {
        match event {
            CloseEvent::Closed => self.fail(bare(Kind::Canceled)),
            CloseEvent::Failed(token) => self.fail(outside(Kind::Http3, token)),
            CloseEvent::End => {
                self.finished = true;
                self.phase = ArrivalPhase::Ended;
                (false, ArrivalAction::Done)
            },
        }
    }
}

/// The chunks that follow a decision if the user takes every one.
pub open spec fn pushes(turn: TunnelDownloadTurn) -> Seq<Seq<u8>>
    decreases turn.download.data.len(),
{
    match turn.action {
        ArrivalActionView::Push(chunk) => if turn.download.data.len() == 0 {
            seq![chunk]
        } else {
            seq![chunk] + pushes(turn.download.on_pushed(PushEvent::Taken))
        },
        _ => Seq::empty(),
    }
}

proof fn lemma_advance_pushes_chunks(download: TunnelDownloadView, pause: bool)
    ensures
        pushes(download.advance(pause)) == chunks(download.data),
    decreases download.data.len(),
{
    if download.data.len() > 0 {
        let turn = download.advance(pause);
        if turn.download.data.len() > 0 {
            lemma_advance_pushes_chunks(
                turn.download.tick(),
                turn.download.budget + 1 == PIECES,
            );
        } else {
            assert(chunks(after_chunk(download.data)) =~= Seq::empty());
            assert(chunks(download.data) =~= seq![first_chunk(download.data)]);
        }
    }
}

/// Bytes that arrive reach the user whole and in order.
pub proof fn lemma_arrivals_reach_the_user(download: TunnelDownloadView, data: Seq<u8>)
    ensures
        pushes(download.on_arrival(ArrivalEventView::Data(data))) == chunks(data),
{
    lemma_advance_pushes_chunks(TunnelDownloadView { data, ..download }, false);
}

/// A tunnel whose user disappears without ending it is canceled, in both directions.
pub proof fn lemma_lost_user_cancels(upload: TunnelUploadView, download: TunnelDownloadView)
    ensures
        upload.on_work(WorkEventView::Closed).action == TunnelActionView::Fail(
            Error::bare(Kind::Canceled),
        ),
        download.on_arrival(ArrivalEventView::Closed).action == ArrivalActionView::Fail(
            Error::bare(Kind::Canceled),
        ),
        !upload.finished ==> !upload.on_work(WorkEventView::Closed).upload.finished,
{
}

/// When the user ends the sending side, the stream is ended, and the direction is over once
/// the peer has acknowledged that.
pub proof fn lemma_finish_ends_the_stream(upload: TunnelUploadView)
    requires
        upload.phase == TunnelPhase::Polling,
    ensures
        ({
            let turn = upload.on_work(WorkEventView::Finish);
            let ended = turn.upload.on_done(Ok(()));
            &&& turn.action is Finish
            &&& ended.upload.finished
            &&& ended.action is AwaitAck
            &&& ended.upload.on_done(Ok(())).action is Done
        }),
{
}

} // verus!
