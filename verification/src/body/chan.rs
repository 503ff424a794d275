//! A channel from the connection to the reader of a body. It holds one chunk.

use crate::buffer::bytes_of;
use crate::error::bare;
use crate::error::Error;
use crate::error::Kind;
use crate::h3::fields::fields_of;
use crate::progress::Progress;
use bytes::Bytes;
use http::HeaderMap;
use vstd::prelude::*;

verus! {

/// A channel between a sender and a receiver.
#[verifier::ext_equal]
pub struct ChannelView {
    /// The chunk that waits.
    pub data: Option<Seq<u8>>,
    /// The trailers that wait.
    pub trailers: Option<Map<Seq<u8>, Seq<Seq<u8>>>>,
    /// The failure that waits.
    pub error: Option<Error>,
    /// Whether the receiver has asked for data.
    pub wanted: bool,
    /// Whether the sender is gone.
    pub ended: bool,
    /// Whether the receiver is gone.
    pub closed: bool,
}

/// What the receiver gets from a channel.
pub enum NextView {
    Data(Seq<u8>),
    Error(Error),
    End,
    Pending,
}

/// What the receiver gets from a channel.
pub enum Next {
    /// A chunk.
    Data(Bytes),
    /// A failure.
    Error(Error),
    /// There is no more data.
    End,
    /// Nothing has come yet.
    Pending,
}

impl View for Next {
    type V = NextView;

    open spec fn view(&self) -> NextView {
        match *self {
            Next::Data(data) => NextView::Data(bytes_of(data)),
            Next::Error(error) => NextView::Error(error),
            Next::End => NextView::End,
            Next::Pending => NextView::Pending,
        }
    }
}

impl ChannelView {
    /// A channel whose sender must wait for the receiver if `wanter` says so.
    pub open spec fn fresh(wanter: bool) -> ChannelView {
        ChannelView {
            data: None,
            trailers: None,
            error: None,
            wanted: !wanter,
            ended: false,
            closed: false,
        }
    }

    /// Whether the sender can hand a chunk over.
    pub open spec fn ready(self) -> Progress<Result<(), Error>> {
        if self.closed {
            Progress::Ready(Err(Error::bare(Kind::Closed)))
        } else if !self.wanted || self.data is Some {
            Progress::Pending
        } else {
            Progress::Ready(Ok(()))
        }
    }

    /// What the receiver gets: first the chunk that waits, then a failure, then the end.
    pub open spec fn next(self) -> (ChannelView, NextView) {
        let asked = ChannelView { wanted: true, ..self };
        match self.data {
            Some(data) => (ChannelView { data: None, ..asked }, NextView::Data(data)),
            None => match self.error {
                Some(error) => (ChannelView { error: None, ..asked }, NextView::Error(error)),
                None => if self.ended {
                    (asked, NextView::End)
                } else {
                    (asked, NextView::Pending)
                },
            },
        }
    }
}

/// A channel between a sender and a receiver.
pub struct Channel {
    data: Option<Bytes>,
    trailers: Option<HeaderMap>,
    error: Option<Error>,
    wanted: bool,
    ended: bool,
    closed: bool,
}

impl View for Channel {
    type V = ChannelView;

    closed spec fn view(&self) -> ChannelView {
        ChannelView {
            data: match self.data {
                Some(data) => Some(bytes_of(data)),
                None => None,
            },
            trailers: match self.trailers {
                Some(trailers) => Some(fields_of(trailers)),
                None => None,
            },
            error: self.error,
            wanted: self.wanted,
            ended: self.ended,
            closed: self.closed,
        }
    }
}

impl Channel {
    /// An empty channel. With `wanter`, the sender is not ready before the receiver has
    /// asked for data once.
    pub fn new(wanter: bool) -> (c: Channel)
        ensures
            c@ == ChannelView::fresh(wanter),
    {
        Channel {
            data: None,
            trailers: None,
            error: None,
            wanted: !wanter,
            ended: false,
            closed: false,
        }
    }

    /// Asks for the sender whether a chunk can be handed over.
    pub fn poll_ready(&self) -> (r: Progress<Result<(), Error>>)
        ensures
            r == self@.ready(),
    {
        if self.closed {
            return Progress::Ready(Err(bare(Kind::Closed)));
        }
        if !self.wanted || self.data.is_some() {
            return Progress::Pending;
        }
        Progress::Ready(Ok(()))
    }

    /// Hands a chunk over. It comes back if another one waits or the receiver is gone.
    pub fn send_data(&mut self, chunk: Bytes) -> (r: Result<(), Bytes>)
        ensures
            match r {
                Ok(()) => {
                    &&& old(self)@.data is None && !old(self)@.closed
                    &&& final(self)@ == (ChannelView {
                        data: Some(bytes_of(chunk)),
                        ..old(self)@
                    })
                },
                Err(back) => {
                    &&& old(self)@.data is Some || old(self)@.closed
                    &&& back == chunk
                    &&& final(self)@ == old(self)@
                },
            },
    {
        if self.closed || self.data.is_some() {
            return Err(chunk);
        }
        self.data = Some(chunk);
        Ok(())
    }

    /// Hands the trailers over. They come back if there were some already or the receiver
    /// is gone.
    pub fn send_trailers(&mut self, trailers: HeaderMap) -> (r: Result<(), HeaderMap>)
        ensures
            match r {
                Ok(()) => {
                    &&& old(self)@.trailers is None && !old(self)@.closed
                    &&& final(self)@ == (ChannelView {
                        trailers: Some(fields_of(trailers)),
                        ..old(self)@
                    })
                },
                Err(back) => {
                    &&& old(self)@.trailers is Some || old(self)@.closed
                    &&& back == trailers
                    &&& final(self)@ == old(self)@
                },
            },
    {
        if self.closed || self.trailers.is_some() {
            return Err(trailers);
        }
        self.trailers = Some(trailers);
        Ok(())
    }

    /// Fails the body. The receiver gets the failure after the chunk that waits; the first
    /// failure counts.
    pub fn send_error(&mut self, error: Error)
        ensures
            final(self)@ == if old(self)@.error is Some {
                old(self)@
            } else {
                ChannelView { error: Some(error), ..old(self)@ }
            },
    {
        if self.error.is_none() {
            self.error = Some(error);
        }
    }

    /// Gives the body up, with a failure that says so.
    pub fn abort(&mut self)
        ensures
            final(self)@ == if old(self)@.error is Some {
                ChannelView { ended: true, ..old(self)@ }
            } else {
                ChannelView {
                    error: Some(Error::bare(Kind::BodyWriteAborted)),
                    ended: true,
                    ..old(self)@
                }
            },
    {
        self.send_error(bare(Kind::BodyWriteAborted));
        self.ended = true;
    }

    /// Ends the body: the sender is gone.
    pub fn end(&mut self)
        ensures
            final(self)@ == (ChannelView { ended: true, ..old(self)@ }),
    {
        self.ended = true;
    }

    /// Whether the receiver is gone.
    pub fn is_closed(&self) -> (b: bool)
        ensures
            b == self@.closed,
    {
        self.closed
    }

    /// Takes what is next. The second result says whether the sender must be woken, because
    /// it can now go on.
    pub fn poll_next(&mut self) -> (r: (Next, bool))
        ensures
            (final(self)@, r.0@) == old(self)@.next(),
            r.1 == (old(self)@.ready() is Pending && !(final(self)@.ready() is Pending)),
    {
        let waited = !self.closed && (!self.wanted || self.data.is_some());
        self.wanted = true;
        let next = match self.data.take() {
            Some(data) => Next::Data(data),
            None => match self.error.take() {
                Some(error) => Next::Error(error),
                None => {
                    if self.ended {
                        Next::End
                    } else {
                        Next::Pending
                    }
                },
            },
        };
        (next, waited)
    }

    /// Takes the trailers.
    pub fn take_trailers(&mut self) -> (t: Option<HeaderMap>)
        ensures
            final(self)@ == (ChannelView { trailers: None, ..old(self)@ }),
            match (t, old(self)@.trailers) {
                (Some(trailers), Some(m)) => fields_of(trailers) == m,
                (None, None) => true,
                _ => false,
            },
    {
        self.trailers.take()
    }

    /// Closes the channel: the receiver is gone. A sender that waits must be woken.
    pub fn close(&mut self) -> (wake: bool)
        ensures
            final(self)@ == (ChannelView { closed: true, ..old(self)@ }),
            wake == (old(self)@.ready() is Pending),
    {
        let waited = !self.closed && (!self.wanted || self.data.is_some());
        self.closed = true;
        waited
    }
}

/// What was handed over is what the receiver gets, before any failure or the end.
pub proof fn lemma_chunk_comes_first(channel: ChannelView, chunk: Seq<u8>)
    requires
        channel.data is None,
    ensures
        (ChannelView { data: Some(chunk), ..channel }).next().1 == NextView::Data(chunk),
        (ChannelView { data: Some(chunk), ..channel }).next().0 == (ChannelView {
            wanted: true,
            ..channel
        }),
{
}

/// A reader of a body that failed does not mistake it for a complete one.
pub proof fn lemma_failure_is_not_the_end(channel: ChannelView)
    requires
        channel.error is Some,
    ensures
        !(channel.next().1 is End),
{
}

} // verus!
