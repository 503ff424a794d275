//! The datagram queues of a connection as mathematical values, and what each operation
//! does to them.

use crate::h3::packet::packet_decode;
use crate::h3::packet::packet_encode;
use crate::h3::packet::packet_prefix;
use crate::progress::Progress;
use vstd::prelude::*;

verus! {

/// Packets that one direction of a session may queue.
pub const PACKETS: usize = 64;

/// Bytes that one direction of a session may queue.
pub const SESSION_BYTES: usize = 128 * 1024;

/// Bytes that one direction of the connection may queue.
pub const CONNECTION_BYTES: usize = 1024 * 1024;

/// What one session holds: the packets of its two queues, oldest first.
#[verifier::ext_equal]
pub struct SessionView {
    pub semantics: bool,
    pub send_open: bool,
    pub recv_open: bool,
    pub incoming: Seq<Seq<u8>>,
    pub outgoing: Seq<Seq<u8>>,
}

/// What the connection holds.
#[verifier::ext_equal]
pub struct RegistryView {
    pub sessions: Map<u64, SessionView>,
    pub ready: Seq<u64>,
    pub incoming: nat,
    pub outgoing: nat,
    pub max_size: Option<usize>,
    pub negotiated: bool,
    pub closed: bool,
    pub notified: u64,
}

/// The bytes of a queue of packets.
pub open spec fn queued(q: Seq<Seq<u8>>) -> nat
    decreases q.len(),
{
    if q.len() == 0 {
        0
    } else {
        queued(q.drop_last()) + q.last().len()
    }
}

/// The sum of a finite map's values.
pub open spec fn total(m: Map<u64, nat>) -> nat
    decreases m.dom().len(),
    when m.dom().finite()
{
    if m.dom().len() == 0 {
        0
    } else {
        let k = m.dom().choose();
        m[k] + total(m.remove(k))
    }
}

pub(crate) proof fn lemma_total_remove(m: Map<u64, nat>, k: u64)
    requires
        m.dom().finite(),
        m.contains_key(k),
    ensures
        total(m) == m[k] + total(m.remove(k)),
    decreases m.dom().len(),
{
    let c = m.dom().choose();
    assert(m.dom().contains(c)) by {
        assert(m.dom().len() != 0) by {
            if m.dom().len() == 0 {
                assert(m.dom() =~= Set::empty());
            }
        }
    }
    if c != k {
        lemma_total_remove(m.remove(c), k);
        lemma_total_remove(m.remove(k), c);
        assert(m.remove(c).remove(k) =~= m.remove(k).remove(c));
    }
}

pub(crate) proof fn lemma_queued_first(q: Seq<Seq<u8>>)
    requires
        q.len() > 0,
    ensures
        queued(q) == q[0].len() + queued(q.drop_first()),
    decreases q.len(),
{
    if q.len() == 1 {
        assert(q.drop_last() =~= Seq::empty());
        assert(q.drop_first() =~= Seq::empty());
        assert(queued(q.drop_last()) == 0);
    } else {
        lemma_queued_first(q.drop_last());
        assert(q.drop_last().drop_first() =~= q.drop_first().drop_last());
    }
}

/// The bytes that the sessions hold in their receive queues.
pub open spec fn total_incoming(sessions: Map<u64, SessionView>) -> nat {
    total(sessions.map_values(|s: SessionView| queued(s.incoming)))
}

/// The bytes that the sessions hold in their send queues.
pub open spec fn total_outgoing(sessions: Map<u64, SessionView>) -> nat {
    total(sessions.map_values(|s: SessionView| queued(s.outgoing)))
}

impl SessionView {
    /// The queues are bounded, and a closed direction holds nothing.
    pub open spec fn bounded(self) -> bool {
        &&& self.incoming.len() <= PACKETS
        &&& self.outgoing.len() <= PACKETS
        &&& queued(self.incoming) <= SESSION_BYTES
        &&& queued(self.outgoing) <= SESSION_BYTES
        &&& !self.recv_open ==> self.incoming.len() == 0
        &&& !self.send_open ==> self.outgoing.len() == 0
    }

    /// A session that was just registered.
    pub open spec fn fresh(semantics: bool) -> SessionView {
        SessionView {
            semantics,
            send_open: true,
            recv_open: true,
            incoming: Seq::empty(),
            outgoing: Seq::empty(),
        }
    }
}

impl RegistryView {
    /// Whether a session has a packet to send.
    pub open spec fn has_outgoing(self, id: u64) -> bool {
        self.sessions.contains_key(id) && self.sessions[id].outgoing.len() > 0
    }

    /// Holds in every state: the queues stay within their limits, the connection's
    /// counters cover what the sessions hold, and no session waits unseen.
    pub open spec fn bounded(self) -> bool {
        &&& self.sessions.dom().finite()
        &&& forall|id: u64| #[trigger]
            self.sessions.contains_key(id) ==> self.sessions[id].bounded()
        &&& total_incoming(self.sessions) <= self.incoming <= CONNECTION_BYTES
        &&& total_outgoing(self.sessions) <= self.outgoing <= CONNECTION_BYTES
        &&& forall|id: u64| #[trigger] self.has_outgoing(id) ==> self.ready.contains(id)
        &&& self.closed ==> self.sessions.dom().len() == 0
    }

    /// Holds as long as no stream ID is registered twice at a time: the counters are
    /// exact, and the sessions with something to send stand in line once each.
    pub open spec fn balanced(self) -> bool {
        &&& self.bounded()
        &&& self.incoming == total_incoming(self.sessions)
        &&& self.outgoing == total_outgoing(self.sessions)
        &&& self.ready.no_duplicates()
        &&& forall|id: u64| #[trigger] self.ready.contains(id) ==> self.has_outgoing(id)
    }

    /// The state after one session was replaced.
    pub open spec fn with_session(self, id: u64, s: SessionView) -> RegistryView {
        RegistryView { sessions: self.sessions.insert(id, s), ..self }
    }
}

/// Replacing one session changes the totals by what it holds more or less.
pub(crate) proof fn lemma_totals_insert(sessions: Map<u64, SessionView>, id: u64, s: SessionView)
    requires
        sessions.dom().finite(),
    ensures
        sessions.insert(id, s).dom().finite(),
        sessions.contains_key(id) ==> {
            &&& total_incoming(sessions.insert(id, s)) == total_incoming(sessions) - queued(
                sessions[id].incoming,
            ) + queued(s.incoming)
            &&& total_outgoing(sessions.insert(id, s)) == total_outgoing(sessions) - queued(
                sessions[id].outgoing,
            ) + queued(s.outgoing)
            &&& queued(sessions[id].incoming) <= total_incoming(sessions)
            &&& queued(sessions[id].outgoing) <= total_outgoing(sessions)
        },
        !sessions.contains_key(id) ==> {
            &&& total_incoming(sessions.insert(id, s)) == total_incoming(sessions) + queued(
                s.incoming,
            )
            &&& total_outgoing(sessions.insert(id, s)) == total_outgoing(sessions) + queued(
                s.outgoing,
            )
        },
{
    let fi = |s: SessionView| queued(s.incoming);
    let fo = |s: SessionView| queued(s.outgoing);
    let after = sessions.insert(id, s);
    let (bi, bo) = (sessions.map_values(fi), sessions.map_values(fo));
    let (ai, ao) = (after.map_values(fi), after.map_values(fo));
    assert(bi.dom() =~= sessions.dom() && bo.dom() =~= sessions.dom());
    assert(ai.dom() =~= after.dom() && ao.dom() =~= after.dom());
    lemma_total_remove(ai, id);
    lemma_total_remove(ao, id);
    if sessions.contains_key(id) {
        lemma_total_remove(bi, id);
        lemma_total_remove(bo, id);
        assert(ai.remove(id) =~= bi.remove(id));
        assert(ao.remove(id) =~= bo.remove(id));
    } else {
        assert(ai.remove(id) =~= bi);
        assert(ao.remove(id) =~= bo);
    }
}

/// Removing a session takes what it holds off the totals.
pub(crate) proof fn lemma_totals_remove(sessions: Map<u64, SessionView>, id: u64)
    requires
        sessions.dom().finite(),
        sessions.contains_key(id),
    ensures
        sessions.remove(id).dom().finite(),
        total_incoming(sessions.remove(id)) == total_incoming(sessions) - queued(
            sessions[id].incoming,
        ),
        total_outgoing(sessions.remove(id)) == total_outgoing(sessions) - queued(
            sessions[id].outgoing,
        ),
{
    let fi = |s: SessionView| queued(s.incoming);
    let fo = |s: SessionView| queued(s.outgoing);
    let (bi, bo) = (sessions.map_values(fi), sessions.map_values(fo));
    assert(bi.dom() =~= sessions.dom() && bo.dom() =~= sessions.dom());
    lemma_total_remove(bi, id);
    lemma_total_remove(bo, id);
    assert(sessions.remove(id).map_values(fi) =~= bi.remove(id));
    assert(sessions.remove(id).map_values(fo) =~= bo.remove(id));
}

pub(crate) proof fn lemma_totals_empty(sessions: Map<u64, SessionView>)
    requires
        sessions.dom().finite(),
        sessions.dom().len() == 0,
    ensures
        total_incoming(sessions) == 0,
        total_outgoing(sessions) == 0,
{
    assert(sessions.map_values(|s: SessionView| queued(s.incoming)).dom() =~= sessions.dom());
    assert(sessions.map_values(|s: SessionView| queued(s.outgoing)).dom() =~= sessions.dom());
}

/// What became of a received packet.
#[derive(Clone, Copy, Debug, PartialEq, Eq, Structural)]
pub enum Received {
    /// Nobody takes it: the session is unknown, closed or full.
    Dropped,
    /// It belongs to a request that gives Datagrams no meaning.
    Invalid(u64),
    /// It was queued for the session.
    Queued(u64),
}

impl RegistryView {
    /// Whether a payload of `size` bytes fits the receive queue of the session `id`.
    pub open spec fn has_room(self, id: u64, size: nat) -> bool {
        let s = self.sessions[id];
        &&& s.incoming.len() < PACKETS
        &&& queued(s.incoming) + size <= SESSION_BYTES
        &&& self.incoming + size <= CONNECTION_BYTES
    }

    /// The state with one more payload queued for the session `id`.
    pub open spec fn enqueue_incoming(self, id: u64, payload: Seq<u8>) -> RegistryView {
        let s = self.sessions[id];
        RegistryView {
            sessions: self.sessions.insert(
                id,
                SessionView { incoming: s.incoming.push(payload), ..s },
            ),
            incoming: self.incoming + payload.len(),
            ..self
        }
    }

    /// What a received packet does; nothing if it is malformed.
    pub open spec fn receive(self, packet: Seq<u8>) -> Option<(RegistryView, Received)> {
        match packet_decode(packet) {
            None => None,
            Some((id, payload)) => Some(
                if !self.sessions.contains_key(id) || !self.sessions[id].recv_open {
                    (self, Received::Dropped)
                } else if !self.sessions[id].semantics {
                    (self, Received::Invalid(id))
                } else if !self.has_room(id, payload.len()) {
                    (self, Received::Dropped)
                } else {
                    (self.enqueue_incoming(id, payload), Received::Queued(id))
                },
            ),
        }
    }
}

/// A changed session keeps the registry within bounds if it does so itself, the
/// connection's counters move along with it, and it stays in line while it has something
/// to send.
pub(crate) proof fn lemma_update_session(
    before: RegistryView,
    after: RegistryView,
    id: u64,
    s: SessionView,
)
    requires
        before.bounded(),
        before.sessions.contains_key(id),
        s.bounded(),
        after.sessions == before.sessions.insert(id, s),
        after.closed == before.closed,
        after.incoming == before.incoming - queued(before.sessions[id].incoming) + queued(
            s.incoming,
        ),
        after.outgoing == before.outgoing - queued(before.sessions[id].outgoing) + queued(
            s.outgoing,
        ),
        after.incoming <= CONNECTION_BYTES,
        after.outgoing <= CONNECTION_BYTES,
        s.outgoing.len() > 0 ==> after.ready.contains(id),
        forall|k: u64|
            k != id && before.has_outgoing(k) ==> #[trigger] after.ready.contains(k),
        forall|k: u64|
            k != id && #[trigger] after.ready.contains(k) ==> before.ready.contains(k),
    ensures
        after.bounded(),
        before.balanced() && after.ready.no_duplicates() && (after.ready.contains(id)
            ==> s.outgoing.len() > 0) ==> after.balanced(),
{
    lemma_totals_insert(before.sessions, id, s);
    assert(!before.closed) by {
        if before.closed {
            assert(before.sessions.dom() =~= Set::empty());
        }
    }
    assert forall|k: u64| #[trigger] after.has_outgoing(k) implies after.ready.contains(k) by {
        if k != id {
            assert(before.has_outgoing(k));
        }
    }
    assert forall|k: u64|
        before.balanced() && k != id && #[trigger] after.ready.contains(
            k,
        ) implies after.has_outgoing(k) by {
        assert(before.ready.contains(k));
        assert(before.has_outgoing(k));
    }
}

impl RegistryView {
    /// A line of sessions without those at its front that have nothing to send.
    pub open spec fn skip_idle(self, line: Seq<u64>) -> Seq<u64>
        decreases line.len(),
    {
        if line.len() == 0 || self.has_outgoing(line[0]) {
            line
        } else {
            self.skip_idle(line.drop_first())
        }
    }

    /// Takes the oldest packet of the first session in line. If the session has more, it
    /// goes to the end of the line.
    pub open spec fn next(self) -> (RegistryView, Option<(u64, Seq<u8>)>) {
        let line = self.skip_idle(self.ready);
        if line.len() == 0 {
            (RegistryView { ready: line, ..self }, None)
        } else {
            let id = line[0];
            let s = self.sessions[id];
            let rest = s.outgoing.drop_first();
            (
                RegistryView {
                    sessions: self.sessions.insert(id, SessionView { outgoing: rest, ..s }),
                    ready: if rest.len() == 0 {
                        line.drop_first()
                    } else {
                        line.drop_first().push(id)
                    },
                    outgoing: (self.outgoing - s.outgoing[0].len()) as nat,
                    notified: following(self.notified),
                    ..self
                },
                Some((id, s.outgoing[0])),
            )
        }
    }
}

/// The number after `n`; the largest is followed by zero.
pub open spec fn following(n: u64) -> u64 {
    if n == u64::MAX {
        0
    } else {
        (n + 1) as u64
    }
}

pub(crate) proof fn lemma_skip_idle(r: RegistryView, line: Seq<u64>)
    ensures
        forall|k: u64| #[trigger] r.skip_idle(line).contains(k) ==> line.contains(k),
        forall|k: u64| r.has_outgoing(k) && #[trigger] line.contains(k) ==> r.skip_idle(
            line,
        ).contains(k),
        r.skip_idle(line).len() > 0 ==> r.has_outgoing(r.skip_idle(line)[0]),
        line.no_duplicates() ==> r.skip_idle(line).no_duplicates(),
    decreases line.len(),
{
    if line.len() != 0 && !r.has_outgoing(line[0]) {
        let rest = line.drop_first();
        lemma_skip_idle(r, rest);
        assert forall|k: u64| #[trigger] rest.contains(k) implies line.contains(k) by {
            let i = choose|i: int| 0 <= i < rest.len() && rest[i] == k;
            assert(line[i + 1] == k);
        }
        assert forall|k: u64|
            r.has_outgoing(k) && #[trigger] line.contains(k) implies r.skip_idle(line).contains(
            k,
        ) by {
            let i = choose|i: int| 0 <= i < line.len() && line[i] == k;
            assert(rest[i - 1] == k);
            assert(rest.contains(k));
        }
    }
}

/// Taking the head of a line and perhaps putting it at the end changes nothing else.
pub(crate) proof fn lemma_rotate(line: Seq<u64>, again: bool, after: Seq<u64>)
    requires
        line.len() > 0,
        again ==> after == line.drop_first().push(line[0]),
        !again ==> after == line.drop_first(),
    ensures
        forall|k: u64| k != line[0] ==> (#[trigger] after.contains(k) <==> line.contains(k)),
        again ==> after.contains(line[0]),
        line.no_duplicates() ==> after.no_duplicates() && (after.contains(line[0]) ==> again),
{
    assert forall|k: u64| k != line[0] implies (#[trigger] after.contains(k) <==> line.contains(
        k,
    )) by {
        if after.contains(k) {
            let i = choose|i: int| 0 <= i < after.len() && after[i] == k;
            assert(line[i + 1] == k);
        }
        if line.contains(k) {
            let i = choose|i: int| 0 <= i < line.len() && line[i] == k;
            assert(after[i - 1] == k);
        }
    }
    if again {
        assert(after[after.len() - 1] == line[0]);
    }
}

/// Why an HTTP Datagram was not admitted to the local send queue.
#[derive(Clone, Copy, Debug, PartialEq, Eq, Structural)]
pub enum SendErrorKind {
    /// HTTP Datagrams or the QUIC Datagram transport are unavailable.
    Unavailable,
    /// The payload exceeds the current transport or local buffer limit.
    TooLarge,
    /// The bounded session or connection queue has no capacity.
    Full,
    /// The request send half or its connection has closed.
    Closed,
}

impl RegistryView {
    /// Whether the session `id` may queue a payload of `size` bytes now.
    pub open spec fn admits(self, id: u64, size: nat) -> Result<(), SendErrorKind> {
        let s = self.sessions[id];
        let framed = packet_prefix(id).len() + size;
        if !self.sessions.contains_key(id) || !s.send_open {
            Err(SendErrorKind::Closed)
        } else if !self.negotiated || self.max_size is None {
            Err(SendErrorKind::Unavailable)
        } else if framed > self.max_size->0 || framed > SESSION_BYTES {
            Err(SendErrorKind::TooLarge)
        } else if s.outgoing.len() >= PACKETS || queued(s.outgoing) + framed > SESSION_BYTES
            || self.outgoing + framed > CONNECTION_BYTES {
            Err(SendErrorKind::Full)
        } else {
            Ok(())
        }
    }

    /// The state with one more packet to send for the session `id`.
    pub open spec fn enqueue_outgoing(self, id: u64, packet: Seq<u8>) -> RegistryView {
        let s = self.sessions[id];
        RegistryView {
            sessions: self.sessions.insert(
                id,
                SessionView { outgoing: s.outgoing.push(packet), ..s },
            ),
            outgoing: self.outgoing + packet.len(),
            ready: if s.outgoing.len() == 0 {
                self.ready.push(id)
            } else {
                self.ready
            },
            ..self
        }
    }

    /// What sending a payload does: it is framed and queued if it is admitted.
    pub open spec fn send(self, id: u64, payload: Seq<u8>) -> (
        RegistryView,
        Result<(), SendErrorKind>,
    ) {
        match self.admits(id, payload.len()) {
            Ok(()) => (self.enqueue_outgoing(id, packet_encode(id, payload)), Ok(())),
            Err(kind) => (self, Err(kind)),
        }
    }
}

pub(crate) proof fn lemma_joined_line(line: Seq<u64>, id: u64)
    ensures
        line.push(id).contains(id),
        forall|k: u64| k != id ==> (#[trigger] line.push(id).contains(k) <==> line.contains(k)),
        line.no_duplicates() && !line.contains(id) ==> line.push(id).no_duplicates(),
{
    let after = line.push(id);
    assert(after[line.len() as int] == id);
    assert forall|k: u64| k != id implies (#[trigger] after.contains(k) <==> line.contains(
        k,
    )) by {
        if line.contains(k) {
            let i = choose|i: int| 0 <= i < line.len() && line[i] == k;
            assert(after[i] == k);
        }
    }
}

impl RegistryView {
    /// The largest payload that the session `id` can send now.
    pub open spec fn payload_limit(self, id: u64) -> Option<usize> {
        if !self.sessions.contains_key(id) || !self.negotiated || !self.sessions[id].send_open {
            None
        } else {
            match self.max_size {
                Some(max) if packet_prefix(id).len() <= max => Some(
                    (max - packet_prefix(id).len()) as usize,
                ),
                _ => None,
            }
        }
    }
}

/// A line of sessions without `id`.
pub open spec fn without(line: Seq<u64>, id: u64) -> Seq<u64> {
    line.filter(|k: u64| k != id)
}

impl RegistryView {
    /// Takes the oldest payload that the session `id` has received.
    pub open spec fn recv(self, id: u64) -> (RegistryView, Progress<Option<Seq<u8>>>) {
        let s = self.sessions[id];
        if !self.sessions.contains_key(id) {
            (self, Progress::Ready(None))
        } else if s.incoming.len() > 0 {
            (
                RegistryView {
                    sessions: self.sessions.insert(
                        id,
                        SessionView { incoming: s.incoming.drop_first(), ..s },
                    ),
                    incoming: (self.incoming - s.incoming[0].len()) as nat,
                    ..self
                },
                Progress::Ready(Some(s.incoming[0])),
            )
        } else if !s.recv_open {
            (self, Progress::Ready(None))
        } else {
            (self, Progress::Pending)
        }
    }

    /// The session `id` sends no more: what it had queued is discarded.
    pub open spec fn close_send(self, id: u64) -> RegistryView {
        let s = self.sessions[id];
        let notified = following(self.notified);
        if !self.sessions.contains_key(id) {
            RegistryView { notified, ..self }
        } else {
            RegistryView {
                sessions: self.sessions.insert(
                    id,
                    SessionView { send_open: false, outgoing: Seq::empty(), ..s },
                ),
                outgoing: (self.outgoing - queued(s.outgoing)) as nat,
                ready: without(self.ready, id),
                notified,
                ..self
            }
        }
    }

    /// The session `id` receives no more: what it had not taken is discarded.
    pub open spec fn close_recv(self, id: u64) -> RegistryView {
        let s = self.sessions[id];
        if !self.sessions.contains_key(id) {
            self
        } else {
            RegistryView {
                sessions: self.sessions.insert(
                    id,
                    SessionView { recv_open: false, incoming: Seq::empty(), ..s },
                ),
                incoming: (self.incoming - queued(s.incoming)) as nat,
                ..self
            }
        }
    }

    /// The session `id` is gone, with everything it had queued.
    pub open spec fn close_session(self, id: u64) -> RegistryView {
        let s = self.sessions[id];
        let notified = following(self.notified);
        if !self.sessions.contains_key(id) {
            RegistryView { notified, ..self }
        } else {
            RegistryView {
                sessions: self.sessions.remove(id),
                incoming: (self.incoming - queued(s.incoming)) as nat,
                outgoing: (self.outgoing - queued(s.outgoing)) as nat,
                ready: without(self.ready, id),
                notified,
                ..self
            }
        }
    }

    /// The connection is gone, with all sessions.
    pub open spec fn close(self) -> RegistryView {
        RegistryView {
            sessions: Map::empty(),
            ready: Seq::empty(),
            incoming: 0,
            outgoing: 0,
            closed: true,
            notified: following(self.notified),
            ..self
        }
    }
}

pub(crate) proof fn lemma_without(line: Seq<u64>, id: u64)
    ensures
        !without(line, id).contains(id),
        forall|k: u64|
            k != id ==> (#[trigger] without(line, id).contains(k) <==> line.contains(k)),
        line.no_duplicates() ==> without(line, id).no_duplicates(),
    decreases line.len(),
{
    reveal(Seq::filter);
    if line.len() > 0 {
        let rest = line.drop_last();
        lemma_without(rest, id);
        assert(line =~= rest.push(line.last()));
        lemma_joined_line(rest, line.last());
        lemma_joined_line(without(rest, id), line.last());
        assert(line.no_duplicates() ==> !rest.contains(line.last()));
    }
}

/// A change that leaves the sessions, the line and the counters alone keeps the bounds.
pub(crate) proof fn lemma_same_sessions(before: RegistryView, after: RegistryView)
    requires
        before.bounded(),
        after.sessions == before.sessions,
        after.ready == before.ready,
        after.incoming == before.incoming,
        after.outgoing == before.outgoing,
        after.closed == before.closed,
    ensures
        after.bounded(),
        before.balanced() ==> after.balanced(),
{
    assert forall|k: u64| #[trigger] after.has_outgoing(k) implies after.ready.contains(k) by {
        assert(before.has_outgoing(k));
    }
    assert forall|k: u64| before.balanced() && #[trigger] after.ready.contains(
        k,
    ) implies after.has_outgoing(k) by {
        assert(before.ready.contains(k));
        assert(before.has_outgoing(k));
    }
}

} // verus!
