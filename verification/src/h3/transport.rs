//! What stands between HTTP/3 and a QUIC stream: pending writes, and the peer's stops.

use crate::h3::code::Code;
use crate::rt::quic::StreamId;
use std::collections::BTreeMap;
use vstd::prelude::*;

verus! {

broadcast use vstd::std_specs::btree::group_btree_axioms;

/// A breach of the contract between HTTP/3 and the QUIC transport.
#[derive(Clone, Copy, Debug, PartialEq, Eq, Structural)]
pub enum ContractError {
    /// Data was submitted while other data was pending.
    NotReady,
    /// A write reported another count than it took off its buffer, or none.
    Inconsistent,
}

impl ContractError {
    /// What the error says.
    pub open spec fn text(self) -> Seq<char> {
        match self {
            ContractError::NotReady => "send_data called without QUIC readiness"@,
            ContractError::Inconsistent => "QUIC send did not advance its buffer consistently"@,
        }
    }

    /// What the error says.
    pub fn message(self) -> (text: &'static str)
        ensures
            text@ == self.text(),
    {
        match self {
            ContractError::NotReady => "send_data called without QUIC readiness",
            ContractError::Inconsistent => "QUIC send did not advance its buffer consistently",
        }
    }
}

/// What the transport answered to a write of the pending data.
#[derive(Clone, Copy, Debug, PartialEq, Eq, Structural)]
pub enum WriteEvent {
    /// It has no room yet.
    Pending,
    /// The stream failed.
    Failed(u64),
    /// It reported `count` bytes; `left` bytes are left in the buffer.
    Wrote { count: usize, left: usize },
}

/// What to do next.
#[derive(Clone, Copy, Debug, PartialEq, Eq, Structural)]
pub enum ReadyAction {
    /// Offer the pending data to the transport.
    Write,
    /// Nothing is pending.
    Ready,
    /// Wait, or try again at once if the flag says so.
    Wait(bool),
    /// The stream failed.
    Fail(u64),
    /// The transport broke its contract.
    Breach(ContractError),
}

/// Writes of the transport in one poll.
pub const WRITES: usize = 32;

/// A stream's pending data: how much is left, and the writes of the current poll.
#[verifier::ext_equal]
pub struct StreamView {
    pub pending: Option<usize>,
    pub writes: nat,
}

impl StreamView {
    /// Nothing is pending.
    pub open spec fn idle(self) -> StreamView {
        StreamView { pending: None, ..self }
    }

    /// Begins a poll for readiness.
    pub open spec fn poll_ready(self) -> (StreamView, ReadyAction) {
        if self.pending is Some && self.pending != Some(0usize) {
            (StreamView { writes: 0, ..self }, ReadyAction::Write)
        } else {
            (StreamView { pending: None, writes: 0 }, ReadyAction::Ready)
        }
    }

    /// Goes on after a write.
    pub open spec fn wrote(self, event: WriteEvent) -> (StreamView, ReadyAction) {
        match event {
            WriteEvent::Pending => (self, ReadyAction::Wait(false)),
            WriteEvent::Failed(token) => (self, ReadyAction::Fail(token)),
            WriteEvent::Wrote { count, left } => {
                let before = self.pending->0;
                let after = StreamView { pending: Some(left), writes: self.writes + 1 };
                if count == 0 || before - left != count {
                    (
                        StreamView { pending: Some(left), ..self },
                        ReadyAction::Breach(ContractError::Inconsistent),
                    )
                } else if left == 0 {
                    (after.idle(), ReadyAction::Ready)
                } else if after.writes == WRITES {
                    (after, ReadyAction::Wait(true))
                } else {
                    (after, ReadyAction::Write)
                }
            },
        }
    }
}

/// The pending data of one stream.
pub struct Stream {
    pending: Option<usize>,
    writes: usize,
}

impl View for Stream {
    type V = StreamView;

    closed spec fn view(&self) -> StreamView {
        StreamView { pending: self.pending, writes: self.writes as nat }
    }
}

impl Stream {
    /// A stream without pending data.
    pub fn new() -> (s: Stream)
        ensures
            s@ == (StreamView { pending: None, writes: 0 }),
    {
        Stream { pending: None, writes: 0 }
    }

    /// Begins a poll for readiness: the stream is ready when nothing is pending.
    pub fn poll_ready(&mut self) -> (action: ReadyAction)
        ensures
            (final(self)@, action) == old(self)@.poll_ready(),
            action is Write ==> final(self)@.writes < WRITES,
    {
        self.writes = 0;
        match self.pending {
            Some(n) if n > 0 => ReadyAction::Write,
            _ => {
                self.pending = None;
                ReadyAction::Ready
            },
        }
    }

    /// Goes on after [`ReadyAction::Write`].
    pub fn wrote(&mut self, event: WriteEvent) -> (action: ReadyAction)
        requires
            old(self)@.pending is Some,
            old(self)@.writes < WRITES,
        ensures
            (final(self)@, action) == old(self)@.wrote(event),
            action is Write ==> final(self)@.writes < WRITES,
    {
        match event {
            WriteEvent::Pending => ReadyAction::Wait(false),
            WriteEvent::Failed(token) => ReadyAction::Fail(token),
            WriteEvent::Wrote { count, left } => {
                let before: usize = match self.pending {
                    Some(n) => n,
                    None => 0,
                };
                self.pending = Some(left);
                if count == 0 || left > before || before - left != count {
                    return ReadyAction::Breach(ContractError::Inconsistent);
                }
                self.writes = self.writes + 1;
                if left == 0 {
                    self.pending = None;
                    return ReadyAction::Ready;
                }
                if self.writes == WRITES {
                    return ReadyAction::Wait(true);
                }
                ReadyAction::Write
            },
        }
    }

    /// Submits `size` bytes of data.
    pub fn send_data(&mut self, size: usize) -> (r: Result<(), ContractError>)
        ensures
            old(self)@.pending is None ==> r is Ok && final(self)@ == (StreamView {
                pending: Some(size),
                ..old(self)@
            }),
            old(self)@.pending is Some ==> r == Err::<(), ContractError>(ContractError::NotReady)
                && final(self)@ == old(self)@,
    {
        if self.pending.is_some() {
            return Err(ContractError::NotReady);
        }
        self.pending = Some(size);
        Ok(())
    }

    /// Gives the pending data up, because the stream is reset.
    pub fn reset(&mut self)
        ensures
            final(self)@ == old(self)@.idle(),
    {
        self.pending = None;
    }

    /// Splits a stream: the pending data stays with the sending half.
    pub fn split(self) -> (halves: (Stream, Stream))
        ensures
            halves.0@ == self@,
            halves.1@ == (StreamView { pending: None, writes: 0 }),
    {
        (self, Stream::new())
    }
}

/// A stream that reports readiness has nothing pending, and one that was ready takes data.
pub proof fn lemma_ready_means_empty(stream: StreamView, event: WriteEvent)
    ensures
        stream.poll_ready().1 is Ready ==> stream.poll_ready().0.pending is None,
        stream.wrote(event).1 is Ready ==> stream.wrote(event).0.pending is None,
{
}

/// As long as the transport keeps its contract, every write makes the pending data shorter,
/// so that a poll ends.
pub proof fn lemma_writes_make_progress(stream: StreamView, count: usize, left: usize)
    requires
        stream.pending is Some,
    ensures
        !(stream.wrote(WriteEvent::Wrote { count, left }).1 is Breach) ==> left
            < stream.pending->0,
{
}

/// A stream that the connection accepted; none means that the peer closed without an error.
pub fn accepted<T>(stream: Option<T>) -> (r: Result<T, Code>)
    ensures
        match stream {
            Some(stream) => r == Ok::<T, Code>(stream),
            None => r == Err::<T, Code>(Code::NoError),
        },
{
    match stream {
        Some(stream) => Ok(stream),
        None => Err(Code::NoError),
    }
}

/// The observers of the peer's stops, for streams whose request is not under way yet.
pub struct Stops<T> {
    observers: BTreeMap<u64, T>,
}

impl<T> View for Stops<T> {
    type V = Map<u64, T>;

    closed spec fn view(&self) -> Map<u64, T> {
        self.observers@
    }
}

impl<T> Stops<T> {
    /// No stream is observed.
    pub fn new() -> (s: Stops<T>)
        ensures
            s@ == Map::<u64, T>::empty(),
    {
        Stops { observers: BTreeMap::new() }
    }

    /// Observes a stream that was just opened.
    pub fn insert(&mut self, id: StreamId, observer: T)
        ensures
            final(self)@ == old(self)@.insert(id@, observer),
    {
        let id: u64 = id.into_inner();
        self.observers.insert(id, observer);
    }

    /// Hands the observer of a stream over.
    pub fn take(&mut self, id: StreamId) -> (observer: Option<T>)
        ensures
            final(self)@ == old(self)@.remove(id@),
            observer == if old(self)@.contains_key(id@) {
                Some(old(self)@[id@])
            } else {
                None
            },
    {
        let id: u64 = id.into_inner();
        self.observers.remove(&id)
    }

    /// Drops the observer of a stream whose request was given up.
    pub fn forget(&mut self, id: StreamId)
        ensures
            final(self)@ == old(self)@.remove(id@),
    {
        let id: u64 = id.into_inner();
        self.observers.remove(&id);
    }
}

} // verus!
