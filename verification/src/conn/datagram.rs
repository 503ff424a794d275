//! HTTP Datagram sessions carried by an Extended CONNECT request.
//!
//! A request that declares [`DatagramRequest`] and succeeds gives its caller a
//! [`Session`]: the reliable control stream and the two Datagram directions. Capsule and
//! CONNECT-UDP Context ID encoding belong to the caller.

use crate::buffer::bytes_of;
use crate::h3::datagram::model::lemma_queued_first;
use crate::h3::datagram::model::lemma_skip_idle;
use crate::h3::datagram::model::lemma_totals_insert;
use crate::h3::datagram::model::queued;
use crate::h3::datagram::model::RegistryView;
use crate::h3::datagram::model::PACKETS;
use crate::h3::datagram::model::SESSION_BYTES;
use crate::h3::datagram::Registry;
use crate::h3::datagram::RequestState;
pub use crate::h3::datagram::SendErrorKind;
use crate::h3::datagram::Wakes;
use crate::h3::packet::packet_encode;
use crate::h3::packet::packet_prefix;
use crate::progress::Progress;
use crate::rt::quic::StreamId;
use bytes::Bytes;
use vstd::prelude::*;

verus! {

/// Declares that this Extended CONNECT protocol defines HTTP Datagram semantics.
/// It does not negotiate a protocol or assert successful proxy authorization.
#[derive(Clone, Copy, Debug)]
pub struct DatagramRequest;

/// Sends whole HTTP Datagram payloads, excluding the Quarter Stream ID prefix.
pub struct Sender {
    state: RequestState,
    waiting: Option<u64>,
}

/// Receives whole HTTP Datagram payloads for exactly one request stream.
pub struct Receiver {
    state: RequestState,
}

/// A successful CONNECT and its request-associated Datagram handles.
pub struct Session<C> {
    control: C,
    sender: Sender,
    receiver: Receiver,
}

/// A rejected send, retaining ownership of the caller's unchanged payload.
#[derive(Debug)]
pub struct SendError {
    kind: SendErrorKind,
    payload: Bytes,
}

/// A session that waits in a response to be taken.
pub struct Pending<C> {
    session: Option<Session<C>>,
}

/// A sender: the stream it sends on, and the capacity notification that it waits to pass.
#[verifier::ext_equal]
pub struct SenderView {
    pub id: u64,
    pub waiting: Option<u64>,
}

/// A sender's attempt: the state and the sender after it, whether it was done, whether the
/// sender must be polled again without waiting, and whether the driver is woken.
#[verifier::ext_equal]
pub struct Attempt {
    pub registry: RegistryView,
    pub sender: SenderView,
    pub progress: Progress<Result<(), SendErrorKind>>,
    pub wake: bool,
    pub driver: bool,
}

impl SenderView {
    /// A sender that waits for nothing.
    pub open spec fn idle(id: u64) -> SenderView {
        SenderView { id, waiting: None }
    }

    /// Tries to send. While the queues are full the sender waits for the next capacity
    /// notification; one that came since it began to wait ends the wait.
    pub open spec fn poll_send(self, registry: RegistryView, payload: Seq<u8>) -> Attempt {
        let (after, result) = registry.send(self.id, payload);
        if result != Err::<(), SendErrorKind>(SendErrorKind::Full) {
            Attempt {
                registry: after,
                sender: SenderView::idle(self.id),
                progress: Progress::Ready(result),
                wake: false,
                driver: result is Ok,
            }
        } else if self.waiting is Some && self.waiting != Some(registry.notified) {
            Attempt {
                registry,
                sender: SenderView::idle(self.id),
                progress: Progress::Pending,
                wake: true,
                driver: false,
            }
        } else {
            Attempt {
                registry,
                sender: SenderView { waiting: Some(registry.notified), ..self },
                progress: Progress::Pending,
                wake: false,
                driver: false,
            }
        }
    }
}

impl View for Sender {
    type V = SenderView;

    closed spec fn view(&self) -> SenderView {
        SenderView { id: self.state@, waiting: self.waiting }
    }
}

impl Sender {
    /// A sender for one request.
    pub fn new(state: RequestState) -> (s: Sender)
        ensures
            s@ == SenderView::idle(state@),
    {
        Sender { state, waiting: None }
    }

    /// Waits for queue space and admits exactly one payload; success is not delivery.
    /// While it is pending nothing is retained of the payload, and nothing is sent in the
    /// background. The second result says whether to poll again at once, and the third which
    /// tasks are woken.
    pub fn poll_send(&mut self, registry: &mut Registry, payload: &Bytes) -> (r: (
        Progress<Result<(), SendErrorKind>>,
        bool,
        Wakes,
    ))
        requires
            old(registry).wf(),
            old(self)@.id % 4 == 0,
        ensures
            final(registry).wf(),
            old(registry)@.balanced() ==> final(registry)@.balanced(),
            (Attempt {
                registry: final(registry)@,
                sender: final(self)@,
                progress: r.0,
                wake: r.1,
                driver: r.2.driver,
            }) == old(self)@.poll_send(old(registry)@, bytes_of(*payload)),
            !r.2.receiver && !r.2.capacity,
    {
        let (result, wakes) = self.state.send(registry, payload);
        match result {
            Err(SendErrorKind::Full) => {},
            result => {
                self.waiting = None;
                return (Progress::Ready(result), false, wakes);
            },
        }
        let now: u64 = registry.notifications();
        match self.waiting {
            Some(ticket) => {
                if ticket != now {
                    self.waiting = None;
                    return (Progress::Pending, true, wakes);
                }
            },
            None => {
                self.waiting = Some(now);
            },
        }
        (Progress::Pending, false, wakes)
    }

    /// Returns the CONNECT request's QUIC stream ID.
    pub fn stream_id(&self) -> (id: StreamId)
        ensures
            id@ == self@.id,
    {
        self.state.id()
    }

    /// Returns the latest payload limit, excluding Quarter Stream ID overhead.
    /// `None` means the send half is closed or native Datagrams are unavailable.
    pub fn max_datagram_size(&self, registry: &Registry) -> (n: Option<usize>)
        requires
            registry.wf(),
        ensures
            n == registry@.payload_limit(self@.id),
    {
        self.state.max_size(registry)
    }

    /// Admits one payload to a bounded local queue; success is not delivery. A payload
    /// that is not admitted comes back in the error. The second result says which tasks are
    /// woken.
    pub fn try_send(&self, registry: &mut Registry, payload: Bytes) -> (r: (
        Result<(), SendError>,
        Wakes,
    ))
        requires
            old(registry).wf(),
            self@.id % 4 == 0,
        ensures
            final(registry).wf(),
            old(registry)@.balanced() ==> final(registry)@.balanced(),
            final(registry)@ == old(registry)@.send(self@.id, bytes_of(payload)).0,
            match (r.0, old(registry)@.send(self@.id, bytes_of(payload)).1) {
                (Ok(()), Ok(())) => true,
                (Err(e), Err(kind)) => e@ == (kind, bytes_of(payload)),
                _ => false,
            },
            r.1 == (Wakes { receiver: false, driver: r.0 is Ok, capacity: false }),
    {
        let (result, wakes) = self.state.send(registry, &payload);
        match result {
            Ok(()) => (Ok(()), wakes),
            Err(kind) => (Err(SendError { kind, payload }), wakes),
        }
    }
}

impl Clone for Sender {
    /// Cloned senders wait independently: the clone waits for nothing yet.
    fn clone(&self) -> (s: Sender)
        ensures
            s@ == SenderView::idle(self@.id),
    {
        Sender::new(self.state)
    }
}

impl View for Receiver {
    type V = u64;

    closed spec fn view(&self) -> u64 {
        self.state@
    }
}

impl Receiver {
    /// A receiver for one request.
    pub fn new(state: RequestState) -> (r: Receiver)
        ensures
            r@ == state@,
    {
        Receiver { state }
    }

    /// Polls the next payload; `None` means this receive half or session ended.
    pub fn poll_recv(&mut self, registry: &mut Registry) -> (r: Progress<Option<Bytes>>)
        requires
            old(registry).wf(),
        ensures
            final(self)@ == old(self)@,
            final(registry).wf(),
            old(registry)@.balanced() ==> final(registry)@.balanced(),
            final(registry)@ == old(registry)@.recv(old(self)@).0,
            match (r, old(registry)@.recv(old(self)@).1) {
                (Progress::Ready(Some(data)), Progress::Ready(Some(payload))) => bytes_of(data)
                    == payload,
                (Progress::Ready(None), Progress::Ready(None)) => true,
                (Progress::Pending, Progress::Pending) => true,
                _ => false,
            },
    {
        self.state.poll_recv(registry)
    }

    /// Gives the receiver up: queued and future payloads are discarded, without closing the
    /// reliable control stream or the Datagram send direction.
    pub fn close(self, registry: &mut Registry) -> (w: Wakes)
        requires
            old(registry).wf(),
        ensures
            final(registry).wf(),
            old(registry)@.balanced() ==> final(registry)@.balanced(),
            final(registry)@ == old(registry)@.close_recv(self@),
            w == (Wakes { receiver: true, driver: false, capacity: false }),
    {
        self.state.close_recv(registry)
    }
}

impl View for SendError {
    type V = (SendErrorKind, Seq<u8>);

    closed spec fn view(&self) -> (SendErrorKind, Seq<u8>) {
        (self.kind, bytes_of(self.payload))
    }
}

impl SendError {
    /// Returns the admission failure category.
    pub fn kind(&self) -> (kind: SendErrorKind)
        ensures
            kind == self@.0,
    {
        self.kind
    }

    /// Returns the original unsent payload.
    pub fn into_payload(self) -> (payload: Bytes)
        ensures
            bytes_of(payload) == self@.1,
    {
        self.payload
    }

    /// What the error says.
    pub open spec fn text(kind: SendErrorKind) -> Seq<char> {
        match kind {
            SendErrorKind::Unavailable => "HTTP Datagram send rejected: Unavailable"@,
            SendErrorKind::TooLarge => "HTTP Datagram send rejected: TooLarge"@,
            SendErrorKind::Full => "HTTP Datagram send rejected: Full"@,
            SendErrorKind::Closed => "HTTP Datagram send rejected: Closed"@,
        }
    }

    /// What the error says.
    pub fn message(&self) -> (text: &'static str)
        ensures
            text@ == SendError::text(self@.0),
    {
        match self.kind {
            SendErrorKind::Unavailable => "HTTP Datagram send rejected: Unavailable",
            SendErrorKind::TooLarge => "HTTP Datagram send rejected: TooLarge",
            SendErrorKind::Full => "HTTP Datagram send rejected: Full",
            SendErrorKind::Closed => "HTTP Datagram send rejected: Closed",
        }
    }
}

impl<C> View for Session<C> {
    type V = (C, u64);

    closed spec fn view(&self) -> (C, u64) {
        (self.control, self.sender.state@)
    }
}

impl<C> Session<C> {
    /// Both handles belong to one request, and the sender does not wait yet.
    #[verifier::type_invariant]
    spec fn same_request(self) -> bool {
        &&& self.sender.waiting is None
        &&& self.receiver.state@ == self.sender.state@
    }

    /// Separates the reliable control stream and the two Datagram directions.
    pub fn into_parts(self) -> (parts: (C, Sender, Receiver))
        ensures
            parts.0 == self@.0,
            parts.1@ == SenderView::idle(self@.1),
            parts.2@ == self@.1,
    {
        proof {
            use_type_invariant(&self);
        }
        (self.control, self.sender, self.receiver)
    }
}

impl<C> View for Pending<C> {
    type V = Option<(C, u64)>;

    closed spec fn view(&self) -> Option<(C, u64)> {
        match self.session {
            Some(session) => Some(session@),
            None => None,
        }
    }
}

impl<C> Pending<C> {
    /// A session that was not taken yet.
    pub fn new(control: C, state: RequestState) -> (p: Pending<C>)
        ensures
            p@ == Some((control, state@)),
    {
        let session = Session { control, sender: Sender::new(state), receiver: Receiver { state } };
        Pending { session: Some(session) }
    }

    /// Takes the session; it is there once.
    pub fn take(&mut self) -> (s: Option<Session<C>>)
        ensures
            final(self)@ is None,
            match (s, old(self)@) {
                (Some(session), Some(parts)) => session@ == parts,
                (None, None) => true,
                _ => false,
            },
    {
        self.session.take()
    }
}

/// Takes the unique session from what a response holds.
/// Returns `None` for ordinary requests, failed CONNECTs, or an already-taken session.
pub fn on<C>(response: &mut Option<Pending<C>>) -> (s: Option<Session<C>>)
    ensures
        *final(response) is None,
        match (s, *old(response)) {
            (Some(session), Some(pending)) => pending@ == Some(session@),
            (None, Some(pending)) => pending@ is None,
            (None, None) => true,
            _ => false,
        },
{
    match response.take() {
        Some(pending) => {
            let mut pending = pending;
            pending.take()
        },
        None => None,
    }
}

/// While a sender has to wait, nothing of its payload is queued.
pub proof fn lemma_waiting_sender_queues_nothing(
    sender: SenderView,
    registry: RegistryView,
    payload: Seq<u8>,
)
    requires
        sender.poll_send(registry, payload).progress == Progress::<
            Result<(), SendErrorKind>,
        >::Pending,
    ensures
        sender.poll_send(registry, payload).registry == registry,
        registry.send(sender.id, payload).1 == Err::<(), SendErrorKind>(SendErrorKind::Full),
{
}

/// A waiting sender hears of every packet that leaves the queues: its next poll either
/// sends or asks to be polled again.
pub proof fn lemma_capacity_wakes_every_waiter(
    sender: SenderView,
    registry: RegistryView,
    payload: Seq<u8>,
    later: Seq<u8>,
)
    requires
        sender.poll_send(registry, payload).progress == Progress::<
            Result<(), SendErrorKind>,
        >::Pending,
        !sender.poll_send(registry, payload).wake,
        registry.next().1 is Some,
    ensures
        ({
            let waiting = sender.poll_send(registry, payload).sender;
            let attempt = waiting.poll_send(registry.next().0, later);
            attempt.progress is Ready || attempt.wake
        }),
{
}

/// Whether a packet that leaves for the session `from` makes room for a packet of `size` bytes
/// of the session `id`: it is as large, and it is the session's own, or the session itself
/// had room and only the connection was full.
pub open spec fn makes_room(
    registry: RegistryView,
    id: u64,
    size: nat,
    from: u64,
    left: Seq<u8>,
) -> bool {
    let session = registry.sessions[id];
    &&& left.len() >= size
    &&& from == id || (session.outgoing.len() < PACKETS && queued(session.outgoing) + size
        <= SESSION_BYTES)
}

/// A packet that leaves and makes room lets a waiting sender in: its next poll queues the
/// payload.
pub proof fn lemma_freed_place_lets_a_sender_in(
    sender: SenderView,
    registry: RegistryView,
    payload: Seq<u8>,
)
    requires
        registry.bounded(),
        sender.poll_send(registry, payload).progress == Progress::<
            Result<(), SendErrorKind>,
        >::Pending,
        registry.next().1 matches Some((from, left)) && makes_room(
            registry,
            sender.id,
            packet_encode(sender.id, payload).len(),
            from,
            left,
        ),
    ensures
        ({
            let waiting = sender.poll_send(registry, payload).sender;
            let later = registry.next().0;
            let attempt = waiting.poll_send(later, payload);
            &&& attempt.progress == Progress::Ready(Ok::<(), SendErrorKind>(()))
            &&& attempt.driver
            &&& attempt.registry == later.enqueue_outgoing(
                sender.id,
                packet_encode(sender.id, payload),
            )
        }),
{
    lemma_skip_idle(registry, registry.ready);
    let id = registry.skip_idle(registry.ready)[0];
    assert(registry.has_outgoing(id));
    assert(registry.sessions[id].bounded());
    assert(registry.sessions[sender.id].bounded());
    lemma_queued_first(registry.sessions[id].outgoing);
    lemma_totals_insert(registry.sessions, id, registry.sessions[id]);
    let framed = packet_prefix(sender.id).len() + payload.len();
    assert(packet_encode(sender.id, payload).len() == framed);
}

} // verus!
