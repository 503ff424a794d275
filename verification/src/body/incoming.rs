//! The body of a received message.

use crate::body::chan::Channel;
use crate::body::chan::ChannelView;
use crate::body::chan::Next;
use crate::body::chan::NextView;
use crate::body::length::DecodedLength;
use crate::buffer;
use crate::buffer::bytes_of;
use crate::error::outside;
use crate::error::Error;
use crate::error::Kind;
use crate::h3::fields::fields_of;
use bytes::Bytes;
use http::HeaderMap;
use vstd::prelude::*;

verus! {

/// Where the body comes from, and how far it has come.
#[derive(Clone, Copy, Debug, PartialEq, Eq, Structural)]
pub enum Source {
    /// HTTP/1, through a channel.
    H1 { length: DecodedLength },
    /// HTTP/2, from the stream itself.
    H2 { length: DecodedLength, data_done: bool },
    /// HTTP/3, through a channel.
    H3 { length: DecodedLength, done: bool },
    /// Nothing.
    Empty,
}

/// A piece of a body.
pub enum Frame {
    Data(Bytes),
    Trailers(HeaderMap),
}

/// A piece of a body.
pub enum FrameView {
    Data(Seq<u8>),
    Trailers(Map<Seq<u8>, Seq<Seq<u8>>>),
}

/// What a poll of a body gives.
pub enum Poll {
    /// A piece.
    Frame(Frame),
    /// The body failed.
    Error(Error),
    /// The body is over.
    End,
    /// Nothing has come yet.
    Pending,
}

/// What a poll of a body gives.
pub enum PollView {
    Frame(FrameView),
    Error(Error),
    End,
    Pending,
}

impl View for Poll {
    type V = PollView;

    open spec fn view(&self) -> PollView {
        match *self {
            Poll::Frame(Frame::Data(data)) => PollView::Frame(FrameView::Data(bytes_of(data))),
            Poll::Frame(Frame::Trailers(trailers)) => PollView::Frame(
                FrameView::Trailers(fields_of(trailers)),
            ),
            Poll::Error(error) => PollView::Error(error),
            Poll::End => PollView::End,
            Poll::Pending => PollView::Pending,
        }
    }
}

/// The number of bytes that a body still has: at least `lower`, at most `upper`.
#[derive(Clone, Copy, Debug, PartialEq, Eq, Structural)]
pub struct SizeHint {
    pub lower: u64,
    pub upper: Option<u64>,
}

/// The hint for a length that may be known.
pub open spec fn hint(exact: Option<u64>) -> SizeHint {
    match exact {
        Some(n) => SizeHint { lower: n, upper: Some(n) },
        None => SizeHint { lower: 0, upper: None },
    }
}

/// What an HTTP/2 stream answered to a poll for data.
pub enum H2Data {
    /// Nothing has come yet.
    Pending,
    /// A piece of data.
    Data(Bytes),
    /// There is no more data.
    End,
    /// The stream failed; `quiet` says that the peer reset it without an error.
    Failed { quiet: bool, token: u64 },
}

/// What an HTTP/2 stream answered to a poll for trailers.
pub enum H2Trailers {
    /// Nothing has come yet.
    Pending,
    /// Trailers.
    Trailers(HeaderMap),
    /// There are none.
    End,
    /// The stream failed; `quiet` says that the peer reset it without an error.
    Failed { quiet: bool, token: u64 },
}

/// The end of a body from a channel: its trailers, if there are any.
pub open spec fn last_frame(channel: ChannelView) -> (ChannelView, PollView) {
    (
        ChannelView { trailers: None, ..channel },
        match channel.trailers {
            Some(trailers) => PollView::Frame(FrameView::Trailers(trailers)),
            None => PollView::End,
        },
    )
}

impl Source {
    /// A poll of a body that comes through a channel.
    pub open spec fn poll(self, channel: ChannelView) -> (Source, ChannelView, PollView) {
        let (after, next) = channel.next();
        match self {
            Source::H1 { length } => match next {
                NextView::Data(data) => (
                    Source::H1 { length: length.after(data.len()) },
                    after,
                    PollView::Frame(FrameView::Data(data)),
                ),
                NextView::Error(error) => (self, after, PollView::Error(error)),
                NextView::Pending => (self, after, PollView::Pending),
                NextView::End => (self, last_frame(after).0, last_frame(after).1),
            },
            Source::H3 { length, done } => if done {
                (self, channel, PollView::End)
            } else {
                match next {
                    NextView::Data(data) => (
                        Source::H3 { length: length.after(data.len()), done },
                        after,
                        PollView::Frame(FrameView::Data(data)),
                    ),
                    NextView::Error(error) => (
                        Source::H3 { length, done: true },
                        after,
                        PollView::Error(error),
                    ),
                    NextView::Pending => (self, after, PollView::Pending),
                    NextView::End => (
                        Source::H3 { length, done: true },
                        last_frame(after).0,
                        last_frame(after).1,
                    ),
                }
            },
            _ => (self, channel, PollView::End),
        }
    }

    /// Whether the body is known to be over. `stream_over` says so of an HTTP/2 stream.
    pub open spec fn is_over(self, stream_over: bool) -> bool {
        match self {
            Source::H1 { length } => length == DecodedLength::Exact(0),
            Source::H2 { .. } => stream_over,
            Source::H3 { done, .. } => done,
            Source::Empty => true,
        }
    }

    /// The exact number of bytes that the body still has, if it is known.
    pub open spec fn remaining(self) -> Option<u64> {
        match self {
            Source::H1 { length } | Source::H2 { length, .. } => length.exact(),
            Source::H3 { length, done } => if done {
                Some(0)
            } else {
                length.exact()
            },
            Source::Empty => Some(0),
        }
    }
}

/// The body of a received message.
pub struct Incoming {
    source: Source,
}

impl View for Incoming {
    type V = Source;

    closed spec fn view(&self) -> Source {
        self.source
    }
}

impl Incoming {
    /// An empty body.
    pub fn empty() -> (b: Incoming)
        ensures
            b@ == Source::Empty,
    {
        Incoming { source: Source::Empty }
    }

    /// A body from an HTTP/1 connection, with the channel through which it comes.
    pub fn h1(content_length: DecodedLength, wanter: bool) -> (r: (Channel, Incoming))
        ensures
            r.0@ == ChannelView::fresh(wanter),
            r.1@ == (Source::H1 { length: content_length }),
    {
        (Channel::new(wanter), Incoming { source: Source::H1 { length: content_length } })
    }

    /// A body from an HTTP/3 stream, with the channel through which it comes.
    pub fn h3(content_length: DecodedLength) -> (r: (Channel, Incoming))
        ensures
            r.0@ == ChannelView::fresh(false),
            r.1@ == (Source::H3 { length: content_length, done: false }),
    {
        (
            Channel::new(false),
            Incoming { source: Source::H3 { length: content_length, done: false } },
        )
    }

    /// A body from an HTTP/2 stream. If the stream is over already, an unknown length is
    /// zero.
    pub fn h2(content_length: DecodedLength, end_stream: bool) -> (b: Incoming)
        ensures
            b@ == (Source::H2 {
                length: if content_length is Unknown && end_stream {
                    DecodedLength::Exact(0)
                } else {
                    content_length
                },
                data_done: false,
            }),
    {
        let length = if !content_length.is_exact() && end_stream {
            DecodedLength::Exact(0)
        } else {
            content_length
        };
        Incoming { source: Source::H2 { length, data_done: false } }
    }

    /// Polls a body that comes through a channel. The second result says whether the
    /// channel's sender must be woken.
    pub fn poll_frame(&mut self, channel: &mut Channel) -> (r: (Poll, bool))
        requires
            !(old(self)@ is H2),
        ensures
            (final(self)@, final(channel)@, r.0@) == old(self)@.poll(old(channel)@),
            r.1 == (old(channel)@.ready() is Pending && !(final(channel)@.ready() is Pending)),
    {
        match self.source {
            Source::H1 { length } => {
                let mut length = length;
                let (next, wake) = channel.poll_next();
                let poll = match next {
                    Next::Data(data) => {
                        length.sub_if(buffer::len(&data) as u64);
                        self.source = Source::H1 { length };
                        Poll::Frame(Frame::Data(data))
                    },
                    Next::Error(error) => Poll::Error(error),
                    Next::Pending => Poll::Pending,
                    Next::End => match channel.take_trailers() {
                        Some(trailers) => Poll::Frame(Frame::Trailers(trailers)),
                        None => Poll::End,
                    },
                };
                (poll, wake)
            },
            Source::H3 { length, done } => {
                if done {
                    return (Poll::End, false);
                }
                let mut length = length;
                let (next, wake) = channel.poll_next();
                let poll = match next {
                    Next::Data(data) => {
                        length.sub_if(buffer::len(&data) as u64);
                        self.source = Source::H3 { length, done };
                        Poll::Frame(Frame::Data(data))
                    },
                    Next::Error(error) => {
                        self.source = Source::H3 { length, done: true };
                        Poll::Error(error)
                    },
                    Next::Pending => Poll::Pending,
                    Next::End => {
                        self.source = Source::H3 { length, done: true };
                        match channel.take_trailers() {
                            Some(trailers) => Poll::Frame(Frame::Trailers(trailers)),
                            None => Poll::End,
                        }
                    },
                };
                (poll, wake)
            },
            _ => (Poll::End, false),
        }
    }

    /// Whether an HTTP/2 body still has to be polled for data, and not for trailers.
    pub fn wants_data(&self) -> (b: bool)
        requires
            self@ is H2,
        ensures
            b == !self@->data_done,
    {
        match self.source {
            Source::H2 { data_done, .. } => !data_done,
            _ => false,
        }
    }

    /// Takes the answer of an HTTP/2 stream to a poll for data. `None` means that the
    /// stream must now be polled for trailers. A reset without an error is an early
    /// response: it ends the body and does not fail it.
    pub fn h2_data(&mut self, event: H2Data) -> (r: Option<Poll>)
        requires
            old(self)@ is H2,
            !old(self)@->data_done,
        ensures
            match event {
                H2Data::Pending => {
                    &&& r matches Some(poll) && poll@ == PollView::Pending
                    &&& final(self)@ == old(self)@
                },
                H2Data::Data(data) => {
                    &&& r matches Some(poll) && poll@ == PollView::Frame(
                        FrameView::Data(bytes_of(data)),
                    )
                    &&& final(self)@ == (Source::H2 {
                        length: old(self)@->H2_length.after(bytes_of(data).len()),
                        data_done: false,
                    })
                },
                H2Data::End => {
                    &&& r is None
                    &&& final(self)@ == (Source::H2 {
                        length: old(self)@->H2_length,
                        data_done: true,
                    })
                },
                H2Data::Failed { quiet, token } => {
                    &&& r matches Some(poll) && poll@ == if quiet {
                        PollView::End
                    } else {
                        PollView::Error(Error::outside(Kind::Body, token))
                    }
                    &&& final(self)@ == old(self)@
                },
            },
    {
        let mut length = match self.source {
            Source::H2 { length, .. } => length,
            _ => DecodedLength::Unknown,
        };
        match event {
            H2Data::Pending => Some(Poll::Pending),
            H2Data::Data(data) => {
                length.sub_if(buffer::len(&data) as u64);
                self.source = Source::H2 { length, data_done: false };
                Some(Poll::Frame(Frame::Data(data)))
            },
            H2Data::End => {
                self.source = Source::H2 { length, data_done: true };
                None
            },
            H2Data::Failed { quiet, token } => {
                if quiet {
                    Some(Poll::End)
                } else {
                    Some(Poll::Error(outside(Kind::Body, token)))
                }
            },
        }
    }

    /// Takes the answer of an HTTP/2 stream to a poll for trailers.
    pub fn h2_trailers(&self, event: H2Trailers) -> (poll: Poll)
        requires
            self@ is H2,
            self@->data_done,
        ensures
            poll@ == match event {
                H2Trailers::Pending => PollView::Pending,
                H2Trailers::Trailers(trailers) => PollView::Frame(
                    FrameView::Trailers(fields_of(trailers)),
                ),
                H2Trailers::End => PollView::End,
                H2Trailers::Failed { quiet, token } => if quiet {
                    PollView::End
                } else {
                    PollView::Error(Error::outside(Kind::Http2, token))
                },
            },
    {
        match event {
            H2Trailers::Pending => Poll::Pending,
            H2Trailers::Trailers(trailers) => Poll::Frame(Frame::Trailers(trailers)),
            H2Trailers::End => Poll::End,
            H2Trailers::Failed { quiet, token } => {
                if quiet {
                    Poll::End
                } else {
                    Poll::Error(outside(Kind::Http2, token))
                }
            },
        }
    }

    /// Whether the body is known to be over. `stream_over` says so of an HTTP/2 stream.
    pub fn is_end_stream(&self, stream_over: bool) -> (b: bool)
        ensures
            b == self@.is_over(stream_over),
    {
        match self.source {
            Source::H1 { length } => match length {
                DecodedLength::Exact(n) => n == 0,
                DecodedLength::Unknown => false,
            },
            Source::H2 { .. } => stream_over,
            Source::H3 { done, .. } => done,
            Source::Empty => true,
        }
    }

    /// How many bytes the body still has.
    pub fn size_hint(&self) -> (h: SizeHint)
        ensures
            h == hint(self@.remaining()),
    {
        let exact: Option<u64> = match self.source {
            Source::H1 { length } => length.into_opt(),
            Source::H2 { length, .. } => length.into_opt(),
            Source::H3 { length, done } => {
                if done {
                    Some(0)
                } else {
                    length.into_opt()
                }
            },
            Source::Empty => Some(0),
        };
        match exact {
            Some(n) => SizeHint { lower: n, upper: Some(n) },
            None => SizeHint { lower: 0, upper: None },
        }
    }
}

/// The size hint of an HTTP/3 body goes down by exactly the data that is read.
pub proof fn lemma_hint_follows_the_data(length: u64, channel: ChannelView, data: Seq<u8>)
    requires
        channel.data == Some(data),
        data.len() <= length,
    ensures
        ({
            let body = Source::H3 { length: DecodedLength::Exact(length), done: false };
            body.poll(channel).0.remaining() == Some((length - data.len()) as u64)
        }),
{
}

/// A body of which no bytes are left can still have trailers: it is over only when they
/// were asked for.
pub proof fn lemma_trailers_are_not_hidden(
    channel: ChannelView,
    trailers: Map<Seq<u8>, Seq<Seq<u8>>>,
)
    requires
        channel.data is None,
        channel.error is None,
        channel.ended,
        channel.trailers == Some(trailers),
    ensures
        ({
            let body = Source::H3 { length: DecodedLength::Exact(0), done: false };
            let (after, rest, poll) = body.poll(channel);
            &&& !body.is_over(false)
            &&& poll == PollView::Frame(FrameView::Trailers(trailers))
            &&& after.is_over(false)
            &&& after.remaining() == Some(0u64)
            &&& after.poll(rest).2 == PollView::End
        }),
{
}

/// Once an HTTP/3 body is over, it stays over.
pub proof fn lemma_end_is_final(length: DecodedLength, channel: ChannelView)
    ensures
        ({
            let body = Source::H3 { length, done: true };
            body.poll(channel) == (body, channel, PollView::End)
        }),
{
}

} // verus!
