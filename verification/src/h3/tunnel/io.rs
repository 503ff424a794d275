//! A tunnel as a byte stream: what reading, writing, flushing and shutting down do between
//! calls of the channel to the sending side and of the received body.

use crate::buffer;
use crate::buffer::bytes_of;
use crate::error::Error;
use crate::h3::pace::CHUNK;
use crate::progress::Progress;
use bytes::Bytes;
use vstd::prelude::*;

verus! {

/// Why an operation on the stream failed.
#[derive(Clone, Copy, Debug, PartialEq, Eq, Structural)]
pub enum IoError {
    /// The tunnel is closed.
    Closed,
    /// The request failed.
    Failed(Error),
}

impl IoError {
    /// What a closed tunnel says.
    pub fn closed_message() -> (text: &'static str)
        ensures
            text@ == "HTTP/3 tunnel closed"@,
    {
        "HTTP/3 tunnel closed"
    }
}

/// What the sending side answered to a flush or to an end.
#[derive(Clone, Copy, Debug, PartialEq, Eq, Structural)]
pub enum AckEvent {
    /// Nothing yet.
    Pending,
    /// It is done.
    Done,
    /// It failed.
    Failed(Error),
    /// The sending side is gone.
    Lost,
}

/// Whether the channel to the sending side has room.
#[derive(Clone, Copy, Debug, PartialEq, Eq, Structural)]
pub enum RoomEvent {
    /// Not yet.
    Pending,
    /// It has.
    Ready,
    /// The sending side is gone.
    Closed,
}

/// What to do next.
#[derive(Debug, PartialEq, Eq)]
pub enum IoAction {
    /// Ask for the answer to the last flush or end.
    PollAck,
    /// Ask whether the channel has room.
    PollRoom,
    /// Put a flush into the channel.
    SubmitFlush,
    /// Put an end into the channel.
    SubmitFinish,
    /// Put the first so many bytes of the caller's buffer into the channel.
    SubmitData(usize),
    /// The operation is over, with a number of bytes.
    Return(Progress<Result<usize, IoError>>),
}

/// What a stream waits for and what it has closed.
#[verifier::ext_equal]
pub struct IoView {
    /// Bytes that were received and not read yet.
    pub data: Seq<u8>,
    /// A flush or an end that has no answer yet; whether it is an end.
    pub pending: Option<bool>,
    /// Whether the sending side was ended.
    pub shutdown: bool,
    /// Whether the receiving side is over.
    pub read_closed: bool,
}

pub open spec fn done(n: usize) -> IoAction {
    IoAction::Return(Progress::Ready(Ok(n)))
}

pub open spec fn failed(error: IoError) -> IoAction {
    IoAction::Return(Progress::Ready(Err(error)))
}

impl IoView {
    /// The stream after an answer, and why the operation ends now, if it does.
    pub open spec fn on_ack(self, event: AckEvent) -> (IoView, Option<IoAction>) {
        let answered = IoView { pending: None, ..self };
        match event {
            AckEvent::Pending => (self, Some(IoAction::Return(Progress::Pending))),
            AckEvent::Lost => (answered, Some(failed(IoError::Closed))),
            AckEvent::Failed(error) => (answered, Some(failed(IoError::Failed(error)))),
            AckEvent::Done => (
                IoView { shutdown: self.shutdown || self.pending == Some(true), ..answered },
                None,
            ),
        }
    }

    /// Begins a flush or an end.
    pub open spec fn barrier(self) -> IoAction {
        if self.pending is Some {
            IoAction::PollAck
        } else {
            self.barrier_open()
        }
    }

    /// Goes on with a flush or an end when no answer is missing.
    pub open spec fn barrier_open(self) -> IoAction {
        if self.shutdown {
            done(0)
        } else {
            IoAction::PollRoom
        }
    }

    /// Goes on after the answer to an earlier flush or end: it is as good as one of the same
    /// sort, and an end is as good as a flush.
    pub open spec fn barrier_ack(self, finish: bool, event: AckEvent) -> (IoView, IoAction) {
        match self.on_ack(event) {
            (after, Some(action)) => (after, action),
            (after, None) => if !finish || self.pending == Some(true) {
                (after, done(0))
            } else {
                (after, after.barrier_open())
            },
        }
    }

    /// Whether a read into `room` bytes needs another frame.
    pub open spec fn lacks(self, room: usize) -> bool {
        room > 0 && self.data.len() == 0 && !self.read_closed
    }

    /// A read into `room` bytes: as much as there is and fits.
    pub open spec fn read(self, room: usize) -> (IoView, Seq<u8>) {
        let n = if room < self.data.len() {
            room as int
        } else {
            self.data.len() as int
        };
        (IoView { data: self.data.skip(n), ..self }, self.data.take(n))
    }

    /// Begins a write of `size` bytes.
    pub open spec fn write(self, size: usize) -> IoAction {
        if self.pending is Some {
            IoAction::PollAck
        } else {
            self.write_open(size)
        }
    }

    /// Goes on with a write when no answer is missing.
    pub open spec fn write_open(self, size: usize) -> IoAction {
        if self.shutdown {
            failed(IoError::Closed)
        } else if size == 0 {
            done(0)
        } else {
            IoAction::PollRoom
        }
    }
}

/// The bytes that one write takes.
pub open spec fn write_size(size: usize) -> usize {
    if size < CHUNK {
        size
    } else {
        CHUNK
    }
}

/// What a poll of the received body brought.
pub enum FrameEvent {
    /// Nothing yet.
    Pending,
    /// Bytes.
    Data(Bytes),
    /// A frame that is no data.
    Other,
    /// The body failed.
    Failed(Error),
    /// The body is over.
    End,
}

/// What reading does next.
pub enum ReadAction {
    /// Ask the received body for a frame.
    PollFrame,
    /// The read is over, with these bytes.
    Return(Bytes),
    /// The read failed.
    Fail(Error),
    /// Nothing can be read yet.
    Wait,
}

/// A tunnel as a byte stream.
pub struct Io {
    data: Bytes,
    pending: Option<bool>,
    shutdown: bool,
    read_closed: bool,
}

impl View for Io {
    type V = IoView;

    closed spec fn view(&self) -> IoView {
        IoView {
            data: bytes_of(self.data),
            pending: self.pending,
            shutdown: self.shutdown,
            read_closed: self.read_closed,
        }
    }
}

impl Io {
    /// A stream that is open in both directions.
    pub fn new() -> (io: Io)
        ensures
            io@ == (IoView {
                data: Seq::empty(),
                pending: None,
                shutdown: false,
                read_closed: false,
            }),
    {
        Io { data: buffer::empty(), pending: None, shutdown: false, read_closed: false }
    }

    /// Takes an answer. Returns why the operation ends now, if it does.
    pub fn poll_ack(&mut self, event: AckEvent) -> (r: Option<IoAction>)
        ensures
            (final(self)@, r) == old(self)@.on_ack(event),
    {
        match event {
            AckEvent::Pending => Some(IoAction::Return(Progress::Pending)),
            AckEvent::Lost => {
                self.pending = None;
                Some(IoAction::Return(Progress::Ready(Err(IoError::Closed))))
            },
            AckEvent::Failed(error) => {
                self.pending = None;
                Some(IoAction::Return(Progress::Ready(Err(IoError::Failed(error)))))
            },
            AckEvent::Done => {
                if let Some(true) = self.pending {
                    self.shutdown = true;
                }
                self.pending = None;
                None
            },
        }
    }

    /// Begins a flush or an end.
    pub fn poll_barrier(&self) -> (action: IoAction)
        ensures
            action == self@.barrier(),
    {
        if self.pending.is_some() {
            IoAction::PollAck
        } else if self.shutdown {
            IoAction::Return(Progress::Ready(Ok(0)))
        } else {
            IoAction::PollRoom
        }
    }

    /// Goes on with a flush or an end after the answer to an earlier one.
    pub fn barrier_ack(&mut self, finish: bool, event: AckEvent) -> (action: IoAction)
        ensures
            (final(self)@, action) == old(self)@.barrier_ack(finish, event),
    {
        let earlier: Option<bool> = self.pending;
        if let Some(action) = self.poll_ack(event) {
            return action;
        }
        if !finish {
            return IoAction::Return(Progress::Ready(Ok(0)));
        }
        if let Some(true) = earlier {
            return IoAction::Return(Progress::Ready(Ok(0)));
        }
        if self.shutdown {
            IoAction::Return(Progress::Ready(Ok(0)))
        } else {
            IoAction::PollRoom
        }
    }

    /// Goes on with a flush or an end after the channel was asked for room.
    pub fn barrier_room(&self, finish: bool, event: RoomEvent) -> (action: IoAction)
        ensures
            action == match event {
                RoomEvent::Pending => IoAction::Return(Progress::Pending),
                RoomEvent::Closed => failed(IoError::Closed),
                RoomEvent::Ready => if finish {
                    IoAction::SubmitFinish
                } else {
                    IoAction::SubmitFlush
                },
            },
    {
        match event {
            RoomEvent::Pending => IoAction::Return(Progress::Pending),
            RoomEvent::Closed => IoAction::Return(Progress::Ready(Err(IoError::Closed))),
            RoomEvent::Ready => {
                if finish {
                    IoAction::SubmitFinish
                } else {
                    IoAction::SubmitFlush
                }
            },
        }
    }

    /// Goes on after a flush or an end was put into the channel: it waits for the answer,
    /// unless the sending side was gone.
    pub fn submitted(&mut self, finish: bool, taken: bool) -> (action: IoAction)
        ensures
            !taken ==> final(self)@ == old(self)@ && action == failed(IoError::Closed),
            taken ==> final(self)@ == (IoView { pending: Some(finish), ..old(self)@ }) && action
                == IoAction::PollAck,
    {
        if !taken {
            return IoAction::Return(Progress::Ready(Err(IoError::Closed)));
        }
        self.pending = Some(finish);
        IoAction::PollAck
    }

    /// Ends a flush or an end with the answer to it.
    pub fn barrier_done(&mut self, event: AckEvent) -> (action: IoAction)
        ensures
            final(self)@ == old(self)@.on_ack(event).0,
            action == match old(self)@.on_ack(event).1 {
                Some(action) => action,
                None => done(0),
            },
    {
        match self.poll_ack(event) {
            Some(action) => action,
            None => IoAction::Return(Progress::Ready(Ok(0))),
        }
    }

    /// Begins a write of `size` bytes.
    pub fn poll_write(&self, size: usize) -> (action: IoAction)
        ensures
            action == self@.write(size),
    {
        if self.pending.is_some() {
            return IoAction::PollAck;
        }
        self.write_open(size)
    }

    fn write_open(&self, size: usize) -> (action: IoAction)
        ensures
            action == self@.write_open(size),
    {
        if self.shutdown {
            IoAction::Return(Progress::Ready(Err(IoError::Closed)))
        } else if size == 0 {
            IoAction::Return(Progress::Ready(Ok(0)))
        } else {
            IoAction::PollRoom
        }
    }

    /// Goes on with a write after the answer to an earlier flush or end.
    pub fn write_ack(&mut self, size: usize, event: AckEvent) -> (action: IoAction)
        ensures
            final(self)@ == old(self)@.on_ack(event).0,
            action == match old(self)@.on_ack(event).1 {
                Some(action) => action,
                None => final(self)@.write_open(size),
            },
    {
        match self.poll_ack(event) {
            Some(action) => action,
            None => self.write_open(size),
        }
    }

    /// Goes on with a write after the channel was asked for room.
    pub fn write_room(&self, size: usize, event: RoomEvent) -> (action: IoAction)
        ensures
            action == match event {
                RoomEvent::Pending => IoAction::Return(Progress::Pending),
                RoomEvent::Closed => failed(IoError::Closed),
                RoomEvent::Ready => IoAction::SubmitData(write_size(size)),
            },
    {
        match event {
            RoomEvent::Pending => IoAction::Return(Progress::Pending),
            RoomEvent::Closed => IoAction::Return(Progress::Ready(Err(IoError::Closed))),
            RoomEvent::Ready => {
                let n: usize = if size < CHUNK {
                    size
                } else {
                    CHUNK
                };
                IoAction::SubmitData(n)
            },
        }
    }

    /// Ends a write after `n` bytes were put into the channel.
    pub fn written(&self, n: usize, taken: bool) -> (action: IoAction)
        ensures
            action == if taken {
                done(n)
            } else {
                failed(IoError::Closed)
            },
    {
        if taken {
            IoAction::Return(Progress::Ready(Ok(n)))
        } else {
            IoAction::Return(Progress::Ready(Err(IoError::Closed)))
        }
    }

    /// Begins or goes on with a read into `room` bytes: as much as there is and fits, nothing
    /// at the end, and another frame if there is nothing yet.
    pub fn poll_read(&mut self, room: usize) -> (action: ReadAction)
        ensures
            match action {
                ReadAction::PollFrame => old(self)@.lacks(room) && final(self)@ == old(self)@,
                ReadAction::Return(data) => {
                    &&& !old(self)@.lacks(room)
                    &&& bytes_of(data) == old(self)@.read(room).1
                    &&& final(self)@ == old(self)@.read(room).0
                },
                _ => false,
            },
    {
        let n: usize = buffer::len(&self.data);
        if room > 0 && n == 0 && !self.read_closed {
            return ReadAction::PollFrame;
        }
        let size: usize = if room < n {
            room
        } else {
            n
        };
        ReadAction::Return(buffer::split_to(&mut self.data, size))
    }

    /// Takes a frame, and goes on with the read.
    pub fn frame(&mut self, room: usize, event: FrameEvent) -> (action: ReadAction)
        requires
            room > 0,
            old(self)@.data.len() == 0,
            !old(self)@.read_closed,
        ensures
            match event {
                FrameEvent::Pending => action is Wait && final(self)@ == old(self)@,
                FrameEvent::Other => action is PollFrame && final(self)@ == old(self)@,
                FrameEvent::Failed(error) => action == ReadAction::Fail(error) && final(self)@
                    == (IoView { read_closed: true, ..old(self)@ }),
                FrameEvent::End => {
                    &&& action matches ReadAction::Return(data) && bytes_of(data).len() == 0
                    &&& final(self)@ == (IoView { read_closed: true, ..old(self)@ })
                },
                FrameEvent::Data(bytes) => {
                    let filled = IoView { data: bytes_of(bytes), ..old(self)@ };
                    if bytes_of(bytes).len() == 0 {
                        action is PollFrame && final(self)@ == old(self)@
                    } else {
                        &&& action matches ReadAction::Return(data) && bytes_of(data)
                            == filled.read(room).1
                        &&& final(self)@ == filled.read(room).0
                    }
                },
            },
    {
        match event {
            FrameEvent::Pending => ReadAction::Wait,
            FrameEvent::Other => ReadAction::PollFrame,
            FrameEvent::Failed(error) => {
                self.read_closed = true;
                ReadAction::Fail(error)
            },
            FrameEvent::End => {
                self.read_closed = true;
                assert(self@.data =~= old(self)@.data.skip(0));
                self.poll_read(room)
            },
            FrameEvent::Data(bytes) => {
                self.data = bytes;
                let action = self.poll_read(room);
                assert(bytes_of(bytes).len() == 0 ==> self@.data =~= old(self)@.data);
                action
            },
        }
    }
}

/// After the sending side was ended, every write is refused, and ending it again does
/// nothing.
pub proof fn lemma_shutdown_is_final(io: IoView, size: usize)
    requires
        io.shutdown,
        io.pending is None,
    ensures
        io.write(size) == failed(IoError::Closed),
        io.barrier() == done(0),
{
}

/// An end that was answered closes the sending side, and a flush does not.
pub proof fn lemma_answer_closes_after_an_end(io: IoView, finish: bool)
    requires
        io.pending == Some(finish),
    ensures
        io.on_ack(AckEvent::Done).0.shutdown == (io.shutdown || finish),
        io.on_ack(AckEvent::Done).0.pending is None,
{
}

/// A read takes the oldest bytes, as many as fit, and leaves the rest for the next one. It
/// makes progress whenever there is something to read.
pub proof fn lemma_reads_give_all_bytes(io: IoView, room: usize)
    ensures
        io.read(room).1 + io.read(room).0.data == io.data,
        io.read(room).1.len() <= room,
        room > 0 && io.data.len() > 0 ==> io.read(room).1.len() > 0,
{
    assert(io.read(room).1 + io.read(room).0.data =~= io.data);
}

} // verus!
