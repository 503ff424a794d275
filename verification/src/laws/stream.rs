//! Streams, channels and bodies: readiness, order and ends.

use crate::body::chan::ChannelView;
use crate::body::chan::Next;
use crate::body::chan::NextView;
use crate::body::incoming::hint;
use crate::body::incoming::Frame;
use crate::body::incoming::FrameView;
use crate::body::incoming::Poll;
use crate::body::incoming::PollView;
use crate::body::incoming::SizeHint;
use crate::body::incoming::Source;
use crate::body::length::DecodedLength;
use crate::buffer::bytes_of;
use crate::error::Cause;
use crate::error::Error;
use crate::error::Kind;
use crate::h3::fields::fields_of;
use crate::h3::transport::ContractError;
use crate::h3::transport::ReadyAction;
use crate::h3::transport::StreamView;
use crate::h3::transport::WriteEvent;
use crate::h3::tunnel::io::write_size;
use crate::h3::tunnel::io::AckEvent;
use crate::h3::tunnel::io::IoAction;
use crate::h3::tunnel::io::IoError;
use crate::h3::tunnel::io::IoView;
use crate::progress::Progress;
use bytes::Bytes;
use http::HeaderMap;
use vstd::prelude::*;

verus! {

/// A stream is ready exactly if nothing of its data is left; otherwise the data is offered to
/// the transport, and the count of writes begins anew.
pub proof fn lemma_ready_streams_have_nothing_left(stream: StreamView)
    ensures
        stream.pending is Some && stream.pending->0 > 0 ==> stream.poll_ready() == (
            StreamView { pending: stream.pending, writes: 0 },
            ReadyAction::Write,
        ),
        stream.pending is None || stream.pending->0 == 0 ==> stream.poll_ready() == (
            StreamView { pending: None, writes: 0 },
            ReadyAction::Ready,
        ),
{
}

/// A write is accepted exactly if the buffer got shorter by the number of bytes that the
/// transport reports, and that number is not zero. Then the stream is ready if nothing is left,
/// yields after the 32nd write, and writes on otherwise. A transport without room is waited
/// for, and one that fails fails the stream; both leave the data as it is.
pub proof fn lemma_writes_are_checked(stream: StreamView, count: usize, left: usize, token: u64)
    requires
        stream.pending is Some,
        stream.writes < 32,
    ensures
        ({
            let (after, action) = stream.wrote(WriteEvent::Wrote { count, left });
            let right = count > 0 && stream.pending->0 == left + count;
            &&& !right ==> action == ReadyAction::Breach(ContractError::Inconsistent)
            &&& right && left == 0 ==> action == ReadyAction::Ready && after.pending is None
            &&& right && left > 0 && stream.writes == 31 ==> action == ReadyAction::Wait(true)
                && after.pending == Some(left)
            &&& right && left > 0 && stream.writes < 31 ==> action == ReadyAction::Write && after
                == (StreamView { pending: Some(left), writes: stream.writes + 1 })
        }),
        stream.wrote(WriteEvent::Pending) == (stream, ReadyAction::Wait(false)),
        stream.wrote(WriteEvent::Failed(token)) == (stream, ReadyAction::Fail(token)),
{
}

/// Writing through a tunnel takes at most 16 KiB at a time, and all of less.
pub proof fn lemma_tunnel_writes_are_cut(size: usize)
    ensures
        size >= 16384 ==> write_size(size) == 16384,
        size < 16384 ==> write_size(size) == size,
{
}

/// What the answer to a flush or an end does: it is waited for; a failure, or a sending side
/// that is gone, ends the operation with that error; success goes on, and after an end the
/// stream is shut down.
pub proof fn lemma_answers_are_taken(io: IoView, error: Error)
    ensures
        io.on_ack(AckEvent::Pending) == (io, Some(IoAction::Return(Progress::Pending))),
        io.on_ack(AckEvent::Lost).1 == Some(
            IoAction::Return(Progress::Ready(Err::<usize, IoError>(IoError::Closed))),
        ),
        io.on_ack(AckEvent::Failed(error)).1 == Some(
            IoAction::Return(Progress::Ready(Err::<usize, IoError>(IoError::Failed(error)))),
        ),
        io.on_ack(AckEvent::Done).1 is None,
        io.on_ack(AckEvent::Done).0.shutdown == (io.shutdown || io.pending == Some(true)),
        io.on_ack(AckEvent::Lost).0 == (IoView { pending: None, ..io }),
        io.on_ack(AckEvent::Failed(error)).0 == (IoView { pending: None, ..io }),
        io.on_ack(AckEvent::Done).0.pending is None,
        io.on_ack(AckEvent::Done).0.data == io.data,
        io.on_ack(AckEvent::Done).0.read_closed == io.read_closed,
{
}

/// A flush or an end first waits for the answer to an earlier one. That answer is good enough
/// for a flush, and for an end if it was one; an end after a flush asks for its own, unless the
/// stream is shut down.
pub proof fn lemma_barriers_wait_for_their_answer(io: IoView, finish: bool)
    ensures
        io.pending is Some ==> io.barrier() == IoAction::PollAck,
        io.pending is None && io.shutdown ==> io.barrier() == IoAction::Return(
            Progress::Ready(Ok::<usize, IoError>(0)),
        ),
        io.pending is None && !io.shutdown ==> io.barrier() == IoAction::PollRoom,
        !finish || io.pending == Some(true) ==> io.barrier_ack(finish, AckEvent::Done).1
            == IoAction::Return(Progress::Ready(Ok::<usize, IoError>(0))),
        finish && io.pending != Some(true) && !io.shutdown ==> io.barrier_ack(
            finish,
            AckEvent::Done,
        ).1 == IoAction::PollRoom,
        io.barrier_ack(finish, AckEvent::Pending) == (io, IoAction::Return(Progress::Pending)),
        io.barrier_ack(finish, AckEvent::Lost).1 == IoAction::Return(
            Progress::Ready(Err::<usize, IoError>(IoError::Closed)),
        ),
        forall|event: AckEvent| #[trigger]
            io.barrier_ack(finish, event).0 == io.on_ack(event).0,
        forall|error: Error| #[trigger]
            io.barrier_ack(finish, AckEvent::Failed(error)).1 == IoAction::Return(
                Progress::Ready(Err::<usize, IoError>(IoError::Failed(error))),
            ),
{
}

/// A write first waits for the answer to an earlier flush or end; it is refused after an end,
/// takes nothing of nothing, and otherwise asks for room.
pub proof fn lemma_writes_ask_for_room(io: IoView, size: usize)
    ensures
        io.pending is Some ==> io.write(size) == IoAction::PollAck,
        io.pending is None && io.shutdown ==> io.write(size) == IoAction::Return(
            Progress::Ready(Err::<usize, IoError>(IoError::Closed)),
        ),
        io.pending is None && !io.shutdown && size == 0 ==> io.write(size) == IoAction::Return(
            Progress::Ready(Ok::<usize, IoError>(0)),
        ),
        io.pending is None && !io.shutdown && size > 0 ==> io.write(size) == IoAction::PollRoom,
{
}

/// A read gives as much of what was received as fits, from the front, and keeps the rest. It
/// needs another frame exactly if there is room, nothing to give, and no end.
pub proof fn lemma_reads_give_what_fits(io: IoView, room: usize)
    ensures
        io.read(room).1 + io.read(room).0.data == io.data,
        io.data.len() >= room ==> io.read(room).1.len() == room,
        io.data.len() < room ==> io.read(room).1.len() == io.data.len(),
        io.read(room).0.pending == io.pending && io.read(room).0.shutdown == io.shutdown,
        io.read(room).0.read_closed == io.read_closed,
        io.lacks(room) <==> room > 0 && io.data.len() == 0 && !io.read_closed,
{
    assert(io.read(room).1 + io.read(room).0.data =~= io.data);
}

/// A sender may hand a chunk over exactly if the receiver is there, has asked for data, and no
/// other chunk waits; without a receiver it is told that the channel is closed.
pub proof fn lemma_senders_wait_for_the_receiver(channel: ChannelView)
    ensures
        channel.closed ==> channel.ready() == Progress::Ready(
            Err::<(), Error>(Error { kind: Kind::Closed, cause: Cause::Absent }),
        ),
        !channel.closed && channel.wanted && channel.data is None ==> channel.ready()
            == Progress::Ready(Ok::<(), Error>(())),
        !channel.closed && (!channel.wanted || channel.data is Some) ==> channel.ready()
            == Progress::<Result<(), Error>>::Pending,
{
}

/// The receiver gets the chunk that waits, then a failure, then the end if the sender is gone;
/// each once, and asking counts as wanting data. Trailers stay until they are taken.
pub proof fn lemma_receivers_get_things_in_order(channel: ChannelView)
    ensures
        ({
            let (after, next) = channel.next();
            &&& channel.data is Some ==> next == NextView::Data(channel.data->0)
            &&& channel.data is None && channel.error is Some ==> next == NextView::Error(
                channel.error->0,
            )
            &&& channel.data is None && channel.error is None && channel.ended ==> next
                == NextView::End
            &&& channel.data is None && channel.error is None && !channel.ended ==> next
                == NextView::Pending
            &&& after.wanted && after.data is None
            &&& after.error == if channel.data is Some {
                channel.error
            } else {
                None
            }
            &&& after.trailers == channel.trailers && after.ended == channel.ended
            &&& after.closed == channel.closed
        }),
{
}

/// A channel begins empty and open, and wants data at once unless its receiver must ask first.
pub proof fn lemma_channels_begin_empty(wanter: bool)
    ensures
        ({
            let fresh = ChannelView::fresh(wanter);
            &&& fresh.data is None && fresh.trailers is None && fresh.error is None
            &&& !fresh.ended && !fresh.closed
            &&& fresh.wanted == !wanter
        }),
{
}

/// A known length goes down by every piece, and never below zero; an unknown one stays
/// unknown.
pub proof fn lemma_known_lengths_go_down(left: u64, n: nat)
    ensures
        n <= left ==> DecodedLength::Exact(left).after(n) == DecodedLength::Exact(
            (left - n) as u64,
        ),
        n > left ==> DecodedLength::Exact(left).after(n) == DecodedLength::Exact(0),
        DecodedLength::Unknown.after(n) == DecodedLength::Unknown,
        DecodedLength::Exact(left).exact() == Some(left),
        DecodedLength::Unknown.exact() is None,
{
}

/// A body hands on what its channel gives: data as data, with its length going down by it;
/// failures as failures; and at the end the trailers, if there are any, once.
pub proof fn lemma_bodies_hand_on_their_channel(length: DecodedLength, channel: ChannelView)
    ensures
        ({
            let (after, next) = channel.next();
            let (h3, rest3, poll3) = (Source::H3 { length, done: false }).poll(channel);
            let (h1, rest1, poll1) = (Source::H1 { length }).poll(channel);
            &&& next is Data ==> {
                let data = next->Data_0;
                &&& poll3 == PollView::Frame(FrameView::Data(data)) && poll1 == poll3
                &&& h3 == (Source::H3 { length: length.after(data.len()), done: false })
                &&& h1 == (Source::H1 { length: length.after(data.len()) })
                &&& rest3 == after && rest1 == after
            }
            &&& next is Error ==> {
                &&& poll3 == PollView::Error(next->Error_0) && poll1 == poll3
                &&& h3 == (Source::H3 { length, done: true }) && h1 == (Source::H1 { length })
                &&& rest3 == after && rest1 == after
            }
            &&& next is Pending ==> {
                &&& poll3 == PollView::Pending && poll1 == poll3
                &&& h3 == (Source::H3 { length, done: false }) && h1 == (Source::H1 { length })
                &&& rest3 == after && rest1 == after
            }
            &&& next is End ==> {
                &&& poll3 == match channel.trailers {
                    Some(trailers) => PollView::Frame(FrameView::Trailers(trailers)),
                    None => PollView::End,
                }
                &&& poll1 == poll3
                &&& h3 == (Source::H3 { length, done: true }) && h1 == (Source::H1 { length })
                &&& rest3 == (ChannelView { trailers: None, ..after }) && rest1 == rest3
            }
        }),
        (Source::H3 { length, done: true }).poll(channel).2 == PollView::End,
        Source::Empty.poll(channel) == (Source::Empty, channel, PollView::End),
{
}

/// A body is known to be over: in HTTP/1 when none of a known length is left, in HTTP/2 when
/// its stream says so, in HTTP/3 when its end was read, and always when it is empty.
pub proof fn lemma_bodies_know_their_end(length: DecodedLength, flag: bool, stream_over: bool)
    ensures
        (Source::H1 { length }).is_over(stream_over) == (length == DecodedLength::Exact(0)),
        (Source::H2 { length, data_done: flag }).is_over(stream_over) == stream_over,
        (Source::H3 { length, done: flag }).is_over(stream_over) == flag,
        Source::Empty.is_over(stream_over),
{
}

/// The size of a body is exactly what is left of a known length, zero when it is over or
/// empty, and anything otherwise.
pub proof fn lemma_bodies_know_their_size(length: DecodedLength, n: u64, flag: bool)
    ensures
        (Source::H1 { length: DecodedLength::Exact(n) }).remaining() == Some(n),
        (Source::H2 { length: DecodedLength::Exact(n), data_done: flag }).remaining() == Some(n),
        (Source::H3 { length: DecodedLength::Exact(n), done: false }).remaining() == Some(n),
        (Source::H3 { length, done: true }).remaining() == Some(0u64),
        Source::Empty.remaining() == Some(0u64),
        (Source::H1 { length: DecodedLength::Unknown }).remaining() is None,
        (Source::H2 { length: DecodedLength::Unknown, data_done: flag }).remaining() is None,
        (Source::H3 { length: DecodedLength::Unknown, done: false }).remaining() is None,
        hint(Some(n)) == (SizeHint { lower: n, upper: Some(n) }),
        hint(None) == (SizeHint { lower: 0, upper: None }),
{
}

/// What a body and its channel hand over are the bytes and fields that are meant.
pub proof fn lemma_body_bytes_are_meant(data: Bytes, trailers: HeaderMap, error: Error)
    ensures
        Next::Data(data)@ == NextView::Data(bytes_of(data)),
        Next::Error(error)@ == NextView::Error(error),
        Next::End@ is End && Next::Pending@ is Pending,
        Poll::Frame(Frame::Data(data))@ == PollView::Frame(FrameView::Data(bytes_of(data))),
        Poll::Frame(Frame::Trailers(trailers))@ == PollView::Frame(
            FrameView::Trailers(fields_of(trailers)),
        ),
        Poll::Error(error)@ == PollView::Error(error),
        Poll::End@ is End && Poll::Pending@ is Pending,
{
}

/// The chunks that a reader gets when a sender hands them over one by one, each after the one
/// before was read.
pub open spec fn passed(channel: ChannelView, chunks: Seq<Seq<u8>>) -> (
    ChannelView,
    Seq<NextView>,
)
    decreases chunks.len(),
{
    if chunks.len() == 0 {
        (channel, Seq::empty())
    } else {
        let (before, read) = passed(channel, chunks.drop_last());
        let (after, next) = (ChannelView { data: Some(chunks.last()), ..before }).next();
        (after, read.push(next))
    }
}

/// A channel passes every chunk on, in order; a failure and the end come after them.
pub proof fn lemma_channels_pass_every_chunk(channel: ChannelView, chunks: Seq<Seq<u8>>, i: int)
    requires
        channel.data is None,
    ensures
        passed(channel, chunks).0.data is None,
        passed(channel, chunks).0.error == channel.error,
        passed(channel, chunks).0.trailers == channel.trailers,
        passed(channel, chunks).0.ended == channel.ended,
        passed(channel, chunks).1.len() == chunks.len(),
        0 <= i < chunks.len() ==> passed(channel, chunks).1[i] == NextView::Data(chunks[i]),
    decreases chunks.len(),
{
    if chunks.len() > 0 {
        lemma_channels_pass_every_chunk(channel, chunks.drop_last(), i);
    }
}

} // verus!
