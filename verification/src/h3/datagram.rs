//! HTTP Datagram queues of one connection.

use crate::buffer;
use crate::buffer::bytes_of;
use crate::error::found;
use crate::error::Error;
use crate::error::Kind;
use crate::error::Reason;
pub use crate::h3::datagram::model::CONNECTION_BYTES;
pub use crate::h3::datagram::model::PACKETS;
pub use crate::h3::datagram::model::Received;
use crate::h3::datagram::model::RegistryView;
pub use crate::h3::datagram::model::SESSION_BYTES;
pub use crate::h3::datagram::model::SendErrorKind;
use crate::h3::datagram::model::SessionView;
use crate::h3::datagram::model::lemma_joined_line;
use crate::h3::datagram::model::lemma_queued_first;
use crate::h3::datagram::model::lemma_rotate;
use crate::h3::datagram::model::lemma_same_sessions;
use crate::h3::datagram::model::lemma_skip_idle;
use crate::h3::datagram::model::lemma_totals_empty;
use crate::h3::datagram::model::lemma_totals_insert;
use crate::h3::datagram::model::lemma_totals_remove;
use crate::h3::datagram::model::lemma_update_session;
use crate::h3::datagram::model::lemma_without;
use crate::h3::datagram::model::queued;
use crate::h3::datagram::model::without;
use crate::h3::packet;
use crate::progress::Progress;
use crate::rt::quic::StreamId;
use bytes::Bytes;
use std::collections::BTreeMap;
use std::collections::VecDeque;
use vstd::prelude::*;
use vstd::std_specs::iter::IteratorSpec;

pub mod laws;
pub mod model;

verus! {

broadcast use vstd::std_specs::btree::group_btree_axioms;

/// The queues of one session.
struct Entry {
    semantics: bool,
    send_open: bool,
    recv_open: bool,
    incoming: VecDeque<Bytes>,
    outgoing: VecDeque<Bytes>,
    incoming_bytes: usize,
    outgoing_bytes: usize,
}

/// The packets of a queue.
spec fn packets(q: Seq<Bytes>) -> Seq<Seq<u8>> {
    q.map_values(|b: Bytes| bytes_of(b))
}

impl Entry {
    spec fn view(self) -> SessionView {
        SessionView {
            semantics: self.semantics,
            send_open: self.send_open,
            recv_open: self.recv_open,
            incoming: packets(self.incoming@),
            outgoing: packets(self.outgoing@),
        }
    }

    /// The byte counters are those of the queues.
    spec fn counted(self) -> bool {
        &&& self.incoming_bytes == queued(packets(self.incoming@))
        &&& self.outgoing_bytes == queued(packets(self.outgoing@))
    }
}

/// The HTTP Datagram queues of one connection, and the order in which its sessions send.
pub struct Registry {
    streams: BTreeMap<u64, Entry>,
    ready: VecDeque<u64>,
    incoming: usize,
    outgoing: usize,
    max_size: Option<usize>,
    negotiated: bool,
    closed: bool,
    notified: u64,
}

impl View for Registry {
    type V = RegistryView;

    closed spec fn view(&self) -> RegistryView {
        RegistryView {
            sessions: self.streams@.map_values(|e: Entry| e.view()),
            ready: self.ready@,
            incoming: self.incoming as nat,
            outgoing: self.outgoing as nat,
            max_size: self.max_size,
            negotiated: self.negotiated,
            closed: self.closed,
            notified: self.notified,
        }
    }
}

impl Registry {
    /// The registry's own counters are right, and its state is within bounds.
    pub closed spec fn wf(self) -> bool {
        &&& self.streams@.dom().finite()
        &&& forall|id: u64| #[trigger]
            self.streams@.contains_key(id) ==> self.streams@[id].counted()
        &&& self@.bounded()
    }

    /// A registry without sessions. `max_size` is the transport's current limit on a
    /// QUIC Datagram payload.
    pub fn new(max_size: Option<usize>) -> (r: Registry)
        ensures
            r.wf(),
            r@.balanced(),
            r@ == (RegistryView {
                sessions: Map::empty(),
                ready: Seq::empty(),
                incoming: 0,
                outgoing: 0,
                max_size,
                negotiated: false,
                closed: false,
                notified: 0,
            }),
    {
        let r = Registry {
            streams: BTreeMap::new(),
            ready: VecDeque::new(),
            incoming: 0,
            outgoing: 0,
            max_size,
            negotiated: false,
            closed: false,
            notified: 0,
        };
        proof {
            assert(r@.sessions =~= Map::empty());
            lemma_totals_empty(r@.sessions);
        }
        r
    }

    /// Adds a session. Once the connection has closed, nothing is added. A session that
    /// is already there is replaced; the connection's counters keep what it held.
    pub fn register(&mut self, id: StreamId, semantics: bool) -> (request: RequestState)
        requires
            old(self).wf(),
        ensures
            final(self).wf(),
            request@ == id@,
            final(self)@ == if old(self)@.closed {
                old(self)@
            } else {
                old(self)@.with_session(id@, SessionView::fresh(semantics))
            },
            old(self)@.balanced() && !old(self)@.sessions.contains_key(id@)
                ==> final(self)@.balanced(),
    {
        let request = RequestState { id };
        let id: u64 = id.into_inner();
        if !self.closed {
            let entry = Entry {
                semantics,
                send_open: true,
                recv_open: true,
                incoming: VecDeque::new(),
                outgoing: VecDeque::new(),
                incoming_bytes: 0,
                outgoing_bytes: 0,
            };
            let ghost before = self@;
            proof {
                assert(packets(entry.incoming@) =~= Seq::empty());
                assert(packets(entry.outgoing@) =~= Seq::empty());
                lemma_totals_insert(before.sessions, id, entry.view());
            }
            self.streams.insert(id, entry);
            proof {
                assert(self@ =~= before.with_session(id, SessionView::fresh(semantics)));
                assert forall|k: u64| #[trigger]
                    self@.has_outgoing(k) implies self@.ready.contains(k) by {
                    assert(before.has_outgoing(k));
                }
                assert forall|k: u64|
                    before.balanced() && !before.sessions.contains_key(id)
                        && #[trigger] self@.ready.contains(k) implies self@.has_outgoing(k) by {
                    assert(before.ready.contains(k));
                    assert(before.has_outgoing(k));
                }
            }
        }
        request
    }
}

proof fn lemma_packets_push(q: Seq<Bytes>, b: Bytes)
    ensures
        packets(q.push(b)) == packets(q).push(bytes_of(b)),
        queued(packets(q.push(b))) == queued(packets(q)) + bytes_of(b).len(),
{
    assert(packets(q.push(b)) =~= packets(q).push(bytes_of(b)));
    assert(packets(q.push(b)).drop_last() =~= packets(q));
}

proof fn lemma_packets_pop(q: Seq<Bytes>)
    requires
        q.len() > 0,
    ensures
        packets(q.drop_first()) == packets(q).drop_first(),
        queued(packets(q)) == bytes_of(q[0]).len() + queued(packets(q.drop_first())),
{
    assert(packets(q.drop_first()) =~= packets(q).drop_first());
    lemma_queued_first(packets(q));
}

impl Registry {
    /// Hands a packet from the transport to its session. Packets for sessions that are
    /// unknown or gone are dropped, and so is the newest where the queue is full.
    pub fn receive(&mut self, packet: Bytes) -> (r: Result<Received, Error>)
        requires
            old(self).wf(),
        ensures
            final(self).wf(),
            old(self)@.balanced() ==> final(self)@.balanced(),
            match r {
                Ok(outcome) => old(self)@.receive(bytes_of(packet)) == Some(
                    (final(self)@, outcome),
                ),
                Err(e) => {
                    &&& e == Error::found(Kind::Http3, Reason::InvalidDatagram)
                    &&& old(self)@.receive(bytes_of(packet)) is None
                    &&& final(self)@ == old(self)@
                },
            },
    {
        let (id, payload): (u64, Bytes) = match packet::decode(packet) {
            Ok(d) => d,
            Err(_) => {
                return Err(found(Kind::Http3, Reason::InvalidDatagram));
            },
        };
        let ghost before = self@;
        let size: usize = buffer::len(&payload);
        match self.streams.get(&id) {
            None => {
                return Ok(Received::Dropped);
            },
            Some(entry) => {
                assert(before.sessions.contains_key(id));
                assert(before.sessions[id] == entry.view());
                assert(entry.view().bounded());
                if !entry.recv_open {
                    return Ok(Received::Dropped);
                }
                if !entry.semantics {
                    return Ok(Received::Invalid(id));
                }
                if entry.incoming.len() == PACKETS || size > SESSION_BYTES - entry.incoming_bytes
                    || size > CONNECTION_BYTES - self.incoming {
                    return Ok(Received::Dropped);
                }
            },
        }
        if let Some(mut entry) = self.streams.remove(&id) {
            let ghost old_entry = entry;
            proof {
                lemma_packets_push(entry.incoming@, payload);
            }
            entry.incoming.push_back(payload);
            entry.incoming_bytes = entry.incoming_bytes + size;
            self.incoming = self.incoming + size;
            let ghost s = entry.view();
            self.streams.insert(id, entry);
            proof {
                assert(self@.sessions =~= before.sessions.insert(id, s));
                if s.outgoing.len() > 0 {
                    assert(before.has_outgoing(id));
                }
                lemma_update_session(before, self@, id, s);
                if before.balanced() && self@.ready.contains(id) {
                    assert(before.ready.contains(id));
                    assert(before.has_outgoing(id));
                }
                assert(self@ =~= before.enqueue_incoming(id, bytes_of(payload)));
            }
        }
        Ok(Received::Queued(id))
    }
}

impl Registry {
    /// Takes the next packet to send: the sessions that have any are served in turn.
    /// Senders that wait for capacity are notified.
    pub fn next(&mut self) -> (packet: Option<(u64, Bytes)>)
        requires
            old(self).wf(),
        ensures
            final(self).wf(),
            old(self)@.balanced() ==> final(self)@.balanced(),
            old(self)@.next().0 == final(self)@,
            match packet {
                Some((id, data)) => old(self)@.next().1 == Some((id, bytes_of(data))),
                None => old(self)@.next().1 is None,
            },
    {
        let ghost before = self@;
        proof {
            lemma_skip_idle(before, before.ready);
        }
        while self.ready.len() > 0
            invariant
                before == old(self)@,
                self.wf_but_ready(),
                self@ == (RegistryView { ready: self.ready@, ..before }),
                before.skip_idle(self.ready@) == before.skip_idle(before.ready),
                before.bounded(),
                forall|k: u64|
                    before.has_outgoing(k) ==> #[trigger] before.skip_idle(before.ready).contains(
                        k,
                    ),
                forall|k: u64| #[trigger]
                    before.skip_idle(before.ready).contains(k) ==> before.ready.contains(k),
                before.balanced() ==> before.skip_idle(before.ready).no_duplicates(),
            decreases self.ready.len(),
        {
            let ghost line = self.ready@;
            if let Some(id) = self.ready.pop_front() {
                assert(self.ready@ =~= line.drop_first());
                let mut found = false;
                if let Some(entry) = self.streams.get(&id) {
                    assert(before.sessions[id] == entry.view());
                    found = entry.outgoing.len() > 0;
                }
                assert(found == before.has_outgoing(id));
                if found {
                    if let Some(mut entry) = self.streams.remove(&id) {
                        let ghost q = entry.outgoing@;
                        assert(entry.view() == before.sessions[id]);
                        proof {
                            lemma_packets_pop(q);
                            lemma_totals_insert(before.sessions, id, entry.view());
                        }
                        if let Some(packet) = entry.outgoing.pop_front() {
                            assert(entry.outgoing@ =~= q.drop_first());
                            let size: usize = buffer::len(&packet);
                            entry.outgoing_bytes = entry.outgoing_bytes - size;
                            let more = entry.outgoing.len() > 0;
                            if more {
                                self.ready.push_back(id);
                            }
                            self.outgoing = self.outgoing - size;
                            self.notified = self.notified.wrapping_add(1);
                            let ghost s = entry.view();
                            self.streams.insert(id, entry);
                            proof {
                                assert(line == before.skip_idle(before.ready));
                                lemma_rotate(line, more, self.ready@);
                                assert forall|k: u64|
                                    k != id && before.has_outgoing(
                                        k,
                                    ) implies #[trigger] self@.ready.contains(k) by {
                                    assert(line.contains(k));
                                }
                                assert(self@.sessions =~= before.sessions.insert(id, s));
                                lemma_update_session(before, self@, id, s);
                                assert(self@ =~= before.next().0);
                            }
                            return Some((id, packet));
                        }
                    }
                }
            }
        }
        proof {
            assert(before.skip_idle(before.ready) == self.ready@);
            assert(self@ =~= before.next().0);
            assert forall|k: u64| #[trigger] self@.has_outgoing(k) implies self@.ready.contains(
                k,
            ) by {
                assert(before.has_outgoing(k));
            }
        }
        None
    }

    /// As [`Self::wf`], except that sessions may be missing from the line.
    spec fn wf_but_ready(self) -> bool {
        &&& self.streams@.dom().finite()
        &&& forall|id: u64| #[trigger]
            self.streams@.contains_key(id) ==> self.streams@[id].counted()
    }
}

/// One request's place in the registry.
#[derive(Clone, Copy, Debug, PartialEq, Eq, Structural)]
pub struct RequestState {
    id: StreamId,
}

impl View for RequestState {
    type V = u64;

    closed spec fn view(&self) -> u64 {
        self.id@
    }
}

impl RequestState {
    /// The place of the request on the stream `id`.
    pub fn new(id: StreamId) -> (r: RequestState)
        ensures
            r@ == id@,
    {
        RequestState { id }
    }

    /// The request's stream ID.
    pub fn id(&self) -> (id: StreamId)
        ensures
            id@ == self@,
    {
        self.id
    }

    /// The largest payload that can be sent now; `None` if the send half is closed,
    /// Datagrams are unavailable, or not even the prefix fits.
    pub fn max_size(&self, registry: &Registry) -> (n: Option<usize>)
        requires
            registry.wf(),
        ensures
            n == registry@.payload_limit(self@),
    {
        let id: u64 = self.id.into_inner();
        match registry.streams.get(&id) {
            None => None,
            Some(entry) => {
                assert(registry@.sessions[id] == entry.view());
                if !registry.negotiated || !entry.send_open {
                    return None;
                }
                match registry.max_size {
                    None => None,
                    Some(max) => max.checked_sub(packet::prefix_size(self.id)),
                }
            },
        }
    }

    /// Frames a payload and puts it into the session's send queue, or leaves everything
    /// as it is. A packet that was queued wakes the driver.
    pub fn send(&self, registry: &mut Registry, payload: &Bytes) -> (r: (
        Result<(), SendErrorKind>,
        Wakes,
    ))
        requires
            old(registry).wf(),
            self@ % 4 == 0,
        ensures
            final(registry).wf(),
            old(registry)@.balanced() ==> final(registry)@.balanced(),
            (final(registry)@, r.0) == old(registry)@.send(self@, bytes_of(*payload)),
            r.1 == (Wakes { receiver: false, driver: r.0 is Ok, capacity: false }),
    {
        let result = self.enqueue(registry, payload);
        let driver = result.is_ok();
        (result, Wakes { receiver: false, driver, capacity: false })
    }

    fn enqueue(&self, registry: &mut Registry, payload: &Bytes) -> (r: Result<(), SendErrorKind>)
        requires
            old(registry).wf(),
            self@ % 4 == 0,
        ensures
            final(registry).wf(),
            old(registry)@.balanced() ==> final(registry)@.balanced(),
            (final(registry)@, r) == old(registry)@.send(self@, bytes_of(*payload)),
    {
        let ghost before = registry@;
        let id: u64 = self.id.into_inner();
        let prefix: usize = packet::prefix_size(self.id);
        let size: usize = match registry.streams.get(&id) {
            None => {
                return Err(SendErrorKind::Closed);
            },
            Some(entry) => {
                assert(before.sessions.contains_key(id));
                assert(before.sessions[id] == entry.view());
                assert(entry.view().bounded());
                if !entry.send_open {
                    return Err(SendErrorKind::Closed);
                }
                if !registry.negotiated {
                    return Err(SendErrorKind::Unavailable);
                }
                let max: usize = match registry.max_size {
                    Some(max) => max,
                    None => {
                        return Err(SendErrorKind::Unavailable);
                    },
                };
                let size: usize = match buffer::len(payload).checked_add(prefix) {
                    Some(size) => size,
                    None => {
                        return Err(SendErrorKind::TooLarge);
                    },
                };
                if size > max || size > SESSION_BYTES {
                    return Err(SendErrorKind::TooLarge);
                }
                if entry.outgoing.len() == PACKETS || size > SESSION_BYTES - entry.outgoing_bytes
                    || size > CONNECTION_BYTES - registry.outgoing {
                    return Err(SendErrorKind::Full);
                }
                size
            },
        };
        let packet = packet::encode(self.id, payload);
        if let Some(mut entry) = registry.streams.remove(&id) {
            proof {
                lemma_packets_push(entry.outgoing@, packet);
            }
            let ghost line = registry.ready@;
            let empty = entry.outgoing.len() == 0;
            entry.outgoing.push_back(packet);
            entry.outgoing_bytes = entry.outgoing_bytes + size;
            registry.outgoing = registry.outgoing + size;
            if empty {
                registry.ready.push_back(id);
            }
            let ghost s = entry.view();
            registry.streams.insert(id, entry);
            proof {
                assert(registry@.sessions =~= before.sessions.insert(id, s));
                lemma_joined_line(line, id);
                if !empty {
                    assert(before.has_outgoing(id));
                }
                assert forall|k: u64|
                    k != id && before.has_outgoing(k) implies #[trigger] registry@.ready.contains(
                    k,
                ) by {
                    assert(line.contains(k));
                }
                if before.balanced() && empty && line.contains(id) {
                    assert(before.ready.contains(id));
                    assert(before.has_outgoing(id));
                }
                lemma_update_session(before, registry@, id, s);
                assert(registry@ =~= before.enqueue_outgoing(id, bytes_of(packet)));
            }
        }
        Ok(())
    }
}

/// The tasks that a change of the registry may allow to go on.
#[derive(Clone, Copy, Debug, PartialEq, Eq, Structural)]
pub struct Wakes {
    /// The receiver of the session.
    pub receiver: bool,
    /// The connection's driver.
    pub driver: bool,
    /// The senders that wait for capacity.
    pub capacity: bool,
}

/// Removes a session from a line.
fn leave(line: &mut VecDeque<u64>, id: u64)
    ensures
        final(line)@ == without(old(line)@, id),
{
    let mut kept: VecDeque<u64> = VecDeque::new();
    let n: usize = line.len();
    proof {
        reveal(Seq::filter);
    }
    assert(line@.take(0) =~= Seq::empty());
    for i in 0..n
        invariant
            n == line@.len(),
            line@ == old(line)@,
            kept@ == without(line@.take(i as int), id),
    {
        let k: u64 = line[i];
        proof {
            reveal(Seq::filter);
            assert(line@.take(i + 1).drop_last() =~= line@.take(i as int));
        }
        if k != id {
            kept.push_back(k);
        }
    }
    assert(line@.take(n as int) =~= line@);
    *line = kept;
}

impl RequestState {
    /// Takes the oldest payload that was received; `None` once no more can come.
    pub fn poll_recv(&self, registry: &mut Registry) -> (r: Progress<Option<Bytes>>)
        requires
            old(registry).wf(),
        ensures
            final(registry).wf(),
            old(registry)@.balanced() ==> final(registry)@.balanced(),
            final(registry)@ == old(registry)@.recv(self@).0,
            match (r, old(registry)@.recv(self@).1) {
                (Progress::Ready(Some(data)), Progress::Ready(Some(payload))) => bytes_of(data)
                    == payload,
                (Progress::Ready(None), Progress::Ready(None)) => true,
                (Progress::Pending, Progress::Pending) => true,
                _ => false,
            },
    {
        let ghost before = registry@;
        let id: u64 = self.id.into_inner();
        match registry.streams.get(&id) {
            None => {
                return Progress::Ready(None);
            },
            Some(entry) => {
                assert(before.sessions[id] == entry.view());
                if entry.incoming.len() == 0 {
                    if !entry.recv_open {
                        return Progress::Ready(None);
                    }
                    return Progress::Pending;
                }
            },
        }
        if let Some(mut entry) = registry.streams.remove(&id) {
            let ghost q = entry.incoming@;
            assert(entry.view() == before.sessions[id]);
            proof {
                lemma_packets_pop(q);
                lemma_totals_insert(before.sessions, id, entry.view());
            }
            if let Some(packet) = entry.incoming.pop_front() {
                assert(entry.incoming@ =~= q.drop_first());
                let size: usize = buffer::len(&packet);
                entry.incoming_bytes = entry.incoming_bytes - size;
                registry.incoming = registry.incoming - size;
                let ghost s = entry.view();
                registry.streams.insert(id, entry);
                proof {
                    assert(registry@.sessions =~= before.sessions.insert(id, s));
                    if s.outgoing.len() > 0 {
                        assert(before.has_outgoing(id));
                    }
                    if before.balanced() && registry@.ready.contains(id) {
                        assert(before.ready.contains(id));
                        assert(before.has_outgoing(id));
                    }
                    lemma_update_session(before, registry@, id, s);
                    assert(registry@ =~= before.recv(id).0);
                }
                return Progress::Ready(Some(packet));
            }
        }
        Progress::Pending
    }

    /// Ends the session's send direction.
    pub fn close_send(&self, registry: &mut Registry) -> (w: Wakes)
        requires
            old(registry).wf(),
        ensures
            final(registry).wf(),
            old(registry)@.balanced() ==> final(registry)@.balanced(),
            final(registry)@ == old(registry)@.close_send(self@),
            w == (Wakes { receiver: false, driver: true, capacity: true }),
    {
        let ghost before = registry@;
        let id: u64 = self.id.into_inner();
        if let Some(mut entry) = registry.streams.remove(&id) {
            assert(entry.view() == before.sessions[id]);
            proof {
                lemma_totals_insert(before.sessions, id, entry.view());
                lemma_without(before.ready, id);
            }
            let size: usize = entry.outgoing_bytes;
            entry.send_open = false;
            entry.outgoing_bytes = 0;
            entry.outgoing.clear();
            assert(packets(entry.outgoing@) =~= Seq::empty());
            registry.outgoing = registry.outgoing - size;
            leave(&mut registry.ready, id);
            registry.notified = registry.notified.wrapping_add(1);
            let ghost s = entry.view();
            registry.streams.insert(id, entry);
            proof {
                assert(registry@.sessions =~= before.sessions.insert(id, s));
                assert forall|k: u64|
                    k != id && before.has_outgoing(k) implies #[trigger] registry@.ready.contains(
                    k,
                ) by {
                    assert(before.ready.contains(k));
                }
                lemma_update_session(before, registry@, id, s);
                assert(registry@ =~= before.close_send(id));
            }
        } else {
            registry.notified = registry.notified.wrapping_add(1);
            proof {
                assert(registry@.sessions =~= before.sessions);
                lemma_same_sessions(before, registry@);
                assert(registry@ =~= before.close_send(id));
            }
        }
        Wakes { receiver: false, driver: true, capacity: true }
    }

    /// Ends the session's receive direction.
    pub fn close_recv(&self, registry: &mut Registry) -> (w: Wakes)
        requires
            old(registry).wf(),
        ensures
            final(registry).wf(),
            old(registry)@.balanced() ==> final(registry)@.balanced(),
            final(registry)@ == old(registry)@.close_recv(self@),
            w == (Wakes { receiver: true, driver: false, capacity: false }),
    {
        let ghost before = registry@;
        let id: u64 = self.id.into_inner();
        if let Some(mut entry) = registry.streams.remove(&id) {
            assert(entry.view() == before.sessions[id]);
            proof {
                lemma_totals_insert(before.sessions, id, entry.view());
            }
            let size: usize = entry.incoming_bytes;
            entry.recv_open = false;
            entry.incoming_bytes = 0;
            entry.incoming.clear();
            assert(packets(entry.incoming@) =~= Seq::empty());
            registry.incoming = registry.incoming - size;
            let ghost s = entry.view();
            registry.streams.insert(id, entry);
            proof {
                assert(registry@.sessions =~= before.sessions.insert(id, s));
                if s.outgoing.len() > 0 {
                    assert(before.has_outgoing(id));
                }
                if before.balanced() && registry@.ready.contains(id) {
                    assert(before.ready.contains(id));
                    assert(before.has_outgoing(id));
                }
                lemma_update_session(before, registry@, id, s);
                assert(registry@ =~= before.close_recv(id));
            }
        } else {
            proof {
                assert(registry@.sessions =~= before.sessions);
                lemma_same_sessions(before, registry@);
                assert(registry@ =~= before.close_recv(id));
            }
        }
        Wakes { receiver: true, driver: false, capacity: false }
    }

    /// Ends the session.
    pub fn close(&self, registry: &mut Registry) -> (w: Wakes)
        requires
            old(registry).wf(),
        ensures
            final(registry).wf(),
            old(registry)@.balanced() ==> final(registry)@.balanced(),
            final(registry)@ == old(registry)@.close_session(self@),
            w == (Wakes { receiver: true, driver: true, capacity: true }),
    {
        let ghost before = registry@;
        let id: u64 = self.id.into_inner();
        if let Some(entry) = registry.streams.remove(&id) {
            assert(entry.view() == before.sessions[id]);
            proof {
                lemma_totals_insert(before.sessions, id, entry.view());
                lemma_totals_remove(before.sessions, id);
                lemma_without(before.ready, id);
            }
            registry.incoming = registry.incoming - entry.incoming_bytes;
            registry.outgoing = registry.outgoing - entry.outgoing_bytes;
            leave(&mut registry.ready, id);
            registry.notified = registry.notified.wrapping_add(1);
            proof {
                assert(registry@.sessions =~= before.sessions.remove(id));
                assert(registry@ =~= before.close_session(id));
                assert forall|k: u64| #[trigger]
                    registry@.has_outgoing(k) implies registry@.ready.contains(k) by {
                    assert(before.has_outgoing(k));
                    assert(before.ready.contains(k));
                }
                assert forall|k: u64| before.balanced() && #[trigger] registry@.ready.contains(
                    k,
                ) implies registry@.has_outgoing(k) by {
                    assert(before.ready.contains(k));
                    assert(before.has_outgoing(k));
                }
            }
        } else {
            registry.notified = registry.notified.wrapping_add(1);
            proof {
                assert(registry@.sessions =~= before.sessions);
                lemma_same_sessions(before, registry@);
                assert(registry@ =~= before.close_session(id));
            }
        }
        Wakes { receiver: true, driver: true, capacity: true }
    }
}

impl Registry {
    /// Records whether both endpoints enabled HTTP Datagrams.
    pub fn negotiated(&mut self, enabled: bool)
        requires
            old(self).wf(),
        ensures
            final(self).wf(),
            old(self)@.balanced() ==> final(self)@.balanced(),
            final(self)@ == (RegistryView { negotiated: enabled, ..old(self)@ }),
    {
        self.negotiated = enabled;
        proof {
            lemma_same_sessions(old(self)@, self@);
        }
    }

    /// Records the transport's current limit on a QUIC Datagram payload.
    pub fn set_max_size(&mut self, max_size: Option<usize>)
        requires
            old(self).wf(),
        ensures
            final(self).wf(),
            old(self)@.balanced() ==> final(self)@.balanced(),
            final(self)@ == (RegistryView { max_size, ..old(self)@ }),
    {
        self.max_size = max_size;
        proof {
            lemma_same_sessions(old(self)@, self@);
        }
    }

    /// The bytes that wait to be taken by receivers.
    pub fn incoming(&self) -> (n: usize)
        ensures
            n == self@.incoming,
    {
        self.incoming
    }

    /// The bytes that wait to be sent.
    pub fn outgoing(&self) -> (n: usize)
        ensures
            n == self@.outgoing,
    {
        self.outgoing
    }

    /// The sessions that stand in line to send.
    pub fn waiting(&self) -> (n: usize)
        ensures
            n == self@.ready.len(),
    {
        self.ready.len()
    }

    /// The packets that a session has queued: those to be taken, and those to be sent.
    pub fn queue_lengths(&self, id: StreamId) -> (n: Option<(usize, usize)>)
        ensures
            n == if self@.sessions.contains_key(id@) {
                Some(
                    (
                        self@.sessions[id@].incoming.len() as usize,
                        self@.sessions[id@].outgoing.len() as usize,
                    ),
                )
            } else {
                None
            },
    {
        let id: u64 = id.into_inner();
        match self.streams.get(&id) {
            None => None,
            Some(entry) => {
                assert(self@.sessions[id] == entry.view());
                Some((entry.incoming.len(), entry.outgoing.len()))
            },
        }
    }

    /// How often senders that wait for capacity have been notified.
    pub fn notifications(&self) -> (n: u64)
        ensures
            n == self@.notified,
    {
        self.notified
    }

    /// Whether the session `id` can still send.
    pub fn is_send_open(&self, id: u64) -> (b: bool)
        requires
            self.wf(),
        ensures
            b == (self@.sessions.contains_key(id) && self@.sessions[id].send_open),
    {
        match self.streams.get(&id) {
            None => false,
            Some(entry) => {
                assert(self@.sessions[id] == entry.view());
                entry.send_open
            },
        }
    }

    /// Ends every session and refuses new ones. Returns the sessions whose receivers are
    /// woken, and the tasks that are woken: these receivers, the driver and the senders that
    /// wait for capacity.
    pub fn close(&mut self) -> (r: (Vec<u64>, Wakes))
        requires
            old(self).wf(),
        ensures
            final(self).wf(),
            final(self)@.balanced(),
            final(self)@ == old(self)@.close(),
            r.0@.no_duplicates(),
            forall|id: u64| #[trigger]
                r.0@.contains(id) <==> old(self)@.sessions.contains_key(id),
            r.1 == (Wakes { receiver: true, driver: true, capacity: true }),
    {
        let ghost before = self@;
        let mut woken: Vec<u64> = Vec::new();
        for id in it: self.streams.keys()
            invariant
                woken@ == it.seq().unref().take(it.index()),
        {
            woken.push(*id);
            assert(woken@ =~= it.seq().unref().take(it.index() + 1));
        }
        proof {
            let keys = self.streams.keys();
            assert(woken@ =~= keys.remaining().unref());
            assert forall|id: u64| #[trigger] woken@.contains(id) <==> before.sessions.contains_key(
                id,
            ) by {
                assert(woken@.to_set().contains(id) <==> self.streams@.dom().contains(id));
            }
        }
        self.closed = true;
        self.incoming = 0;
        self.outgoing = 0;
        self.ready.clear();
        self.streams.clear();
        self.notified = self.notified.wrapping_add(1);
        proof {
            assert(self@ =~= before.close());
            lemma_totals_empty(self@.sessions);
        }
        (woken, Wakes { receiver: true, driver: true, capacity: true })
    }
}

/// Every registry is within its bounds.
pub proof fn lemma_registry_is_bounded(registry: Registry)
    requires
        registry.wf(),
    ensures
        registry@.bounded(),
{
}

} // verus!
