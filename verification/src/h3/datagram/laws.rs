//! What holds of the datagram queues as a whole.

use crate::h3::datagram::model::lemma_rotate;
use crate::h3::datagram::model::lemma_skip_idle;
use crate::h3::datagram::model::lemma_queued_first;
use crate::h3::datagram::model::lemma_totals_empty;
use crate::h3::datagram::model::lemma_totals_insert;
use crate::h3::datagram::model::lemma_update_session;
use crate::h3::datagram::model::queued;
use crate::h3::datagram::model::total_incoming;
use crate::h3::datagram::model::total_outgoing;
use crate::h3::datagram::model::Received;
use crate::h3::datagram::model::RegistryView;
use crate::h3::datagram::model::SendErrorKind;
use crate::h3::datagram::model::SessionView;
use crate::h3::datagram::model::CONNECTION_BYTES;
use crate::h3::datagram::model::PACKETS;
use crate::h3::datagram::model::SESSION_BYTES;
use crate::h3::packet::lemma_packet_round_trip;
use crate::h3::packet::packet_decode;
use crate::h3::packet::packet_encode;
use crate::progress::Progress;
use crate::varint::VARINT_LIMIT;
use vstd::prelude::*;

verus! {

/// Each direction of a session queues at most 64 packets and 128 KiB, and all sessions
/// together at most 1 MiB.
pub proof fn lemma_queues_are_bounded(r: RegistryView, id: u64)
    requires
        r.bounded(),
        r.sessions.contains_key(id),
    ensures
        r.sessions[id].incoming.len() <= PACKETS,
        r.sessions[id].outgoing.len() <= PACKETS,
        queued(r.sessions[id].incoming) <= SESSION_BYTES,
        queued(r.sessions[id].outgoing) <= SESSION_BYTES,
        total_incoming(r.sessions) <= CONNECTION_BYTES,
        total_outgoing(r.sessions) <= CONNECTION_BYTES,
{
}

/// A payload that is refused changes nothing.
pub proof fn lemma_refused_send_changes_nothing(r: RegistryView, id: u64, payload: Seq<u8>)
    requires
        r.send(id, payload).1 is Err,
    ensures
        r.send(id, payload).0 == r,
{
}

/// A payload that is admitted goes behind everything that its session has queued, and the
/// other sessions do not change.
pub proof fn lemma_sends_are_queued_in_order(
    r: RegistryView,
    id: u64,
    payload: Seq<u8>,
    other: u64,
)
    requires
        r.send(id, payload).1 is Ok,
        other != id,
    ensures
        r.send(id, payload).0.sessions[id].outgoing == r.sessions[id].outgoing.push(
            packet_encode(id, payload),
        ),
        r.send(id, payload).0.sessions[id].incoming == r.sessions[id].incoming,
        r.send(id, payload).0.sessions.contains_key(other) == r.sessions.contains_key(other),
        r.send(id, payload).0.sessions[other] == r.sessions[other],
{
}

/// The state after the session `id` has taken `n` payloads.
pub open spec fn after_payloads(r: RegistryView, id: u64, n: nat) -> RegistryView
    decreases n,
{
    if n == 0 {
        r
    } else {
        after_payloads(r.recv(id).0, id, (n - 1) as nat)
    }
}

/// A session takes its payloads in the order in which they were queued.
pub proof fn lemma_payloads_are_taken_in_order(r: RegistryView, id: u64, n: nat)
    requires
        r.sessions.contains_key(id),
        n < r.sessions[id].incoming.len(),
    ensures
        after_payloads(r, id, n).recv(id).1 == Progress::Ready(
            Some(r.sessions[id].incoming[n as int]),
        ),
    decreases n,
{
    if n > 0 {
        let after = r.recv(id).0;
        assert(after.sessions[id].incoming == r.sessions[id].incoming.drop_first());
        lemma_payloads_are_taken_in_order(after, id, (n - 1) as nat);
    }
}

/// What one endpoint sends on a request is what the other endpoint takes from the same
/// request, after everything older, if it has room for the payload.
pub proof fn lemma_payload_arrives(
    here: RegistryView,
    there: RegistryView,
    id: u64,
    payload: Seq<u8>,
)
    requires
        id < VARINT_LIMIT,
        id % 4 == 0,
        here.send(id, payload).1 is Ok,
        there.sessions.contains_key(id),
        there.sessions[id].semantics,
        there.sessions[id].recv_open,
        there.has_room(id, payload.len()),
    ensures
        ({
            let packet = here.send(id, payload).0.sessions[id].outgoing.last();
            let older = there.sessions[id].incoming.len();
            let arrived = there.enqueue_incoming(id, payload);
            &&& there.receive(packet) == Some((arrived, Received::Queued(id)))
            &&& after_payloads(arrived, id, older).recv(id).1 == Progress::Ready(Some(payload))
        }),
{
    lemma_packet_round_trip(id, payload);
    let older = there.sessions[id].incoming.len();
    lemma_payloads_are_taken_in_order(there.enqueue_incoming(id, payload), id, older);
}

/// A packet for a session that is unknown, or that receives no more, is dropped.
pub proof fn lemma_late_packets_are_dropped(r: RegistryView, packet: Seq<u8>)
    requires
        packet_decode(packet) matches Some((id, _)) && (!r.sessions.contains_key(id)
            || !r.sessions[id].recv_open),
    ensures
        r.receive(packet) == Some((r, Received::Dropped)),
{
}

/// A full receive queue drops the newest packet and keeps what it has.
pub proof fn lemma_overflow_drops_the_newest(r: RegistryView, packet: Seq<u8>)
    requires
        packet_decode(packet) matches Some((id, payload)) && r.sessions.contains_key(id)
            && r.sessions[id].recv_open && r.sessions[id].semantics && !r.has_room(
            id,
            payload.len(),
        ),
    ensures
        r.receive(packet) == Some((r, Received::Dropped)),
{
}

/// Closing a session, or one direction of it, leaves every other session as it is.
pub proof fn lemma_closing_leaves_others(r: RegistryView, id: u64, other: u64)
    requires
        id != other,
    ensures
        r.close_session(id).sessions.contains_key(other) == r.sessions.contains_key(other),
        r.close_send(id).sessions.contains_key(other) == r.sessions.contains_key(other),
        r.close_recv(id).sessions.contains_key(other) == r.sessions.contains_key(other),
        r.sessions.contains_key(other) ==> {
            &&& r.close_session(id).sessions[other] == r.sessions[other]
            &&& r.close_send(id).sessions[other] == r.sessions[other]
            &&& r.close_recv(id).sessions[other] == r.sessions[other]
        },
{
}

/// The two directions of a session close apart: ending one leaves the other as it is.
pub proof fn lemma_directions_close_apart(r: RegistryView, id: u64)
    requires
        r.sessions.contains_key(id),
    ensures
        ({
            let before = r.sessions[id];
            let (sent, received) = (r.close_send(id).sessions[id], r.close_recv(id).sessions[id]);
            &&& sent == (SessionView { send_open: false, outgoing: Seq::empty(), ..before })
            &&& received == (SessionView { recv_open: false, incoming: Seq::empty(), ..before })
            &&& r.close_send(id).incoming == r.incoming
            &&& r.close_recv(id).outgoing == r.outgoing
            &&& r.close_recv(id).ready == r.ready
        }),
{
}

/// A session that is closed gives its share of the connection's budget back.
pub proof fn lemma_closing_frees_the_budget(r: RegistryView, id: u64)
    requires
        r.bounded(),
        r.sessions.contains_key(id),
    ensures
        r.close_session(id).incoming + queued(r.sessions[id].incoming) == r.incoming,
        r.close_session(id).outgoing + queued(r.sessions[id].outgoing) == r.outgoing,
        r.close_send(id).outgoing + queued(r.sessions[id].outgoing) == r.outgoing,
        r.close_recv(id).incoming + queued(r.sessions[id].incoming) == r.incoming,
{
    lemma_totals_insert(r.sessions, id, r.sessions[id]);
}

/// After a session's send half has closed, nothing more is admitted for it.
pub proof fn lemma_closed_send_admits_nothing(r: RegistryView, id: u64, payload: Seq<u8>)
    ensures
        r.close_send(id).send(id, payload).1 == Err::<(), SendErrorKind>(SendErrorKind::Closed),
        r.close_session(id).send(id, payload).1 == Err::<(), SendErrorKind>(
            SendErrorKind::Closed,
        ),
        r.close().send(id, payload).1 == Err::<(), SendErrorKind>(SendErrorKind::Closed),
{
}

/// When the last session is gone, the connection's whole budget is free.
pub proof fn lemma_no_session_holds_nothing(r: RegistryView)
    requires
        r.balanced(),
        r.sessions.dom().len() == 0,
    ensures
        r.incoming == 0,
        r.outgoing == 0,
        r.ready.len() == 0,
{
    lemma_totals_empty(r.sessions);
    if r.ready.len() > 0 {
        assert(r.ready.contains(r.ready[0]));
        assert(r.has_outgoing(r.ready[0]));
        assert(r.sessions.dom() =~= Set::empty());
    }
}

/// Taking a packet keeps the registry balanced.
proof fn lemma_next_keeps_balance(r: RegistryView)
    requires
        r.balanced(),
    ensures
        r.next().0.balanced(),
{
    lemma_skip_idle(r, r.ready);
    if r.ready.len() > 0 {
        assert(r.ready.contains(r.ready[0]));
        let id = r.ready[0];
        assert(r.has_outgoing(id));
        let s = r.sessions[id];
        let rest = s.outgoing.drop_first();
        let after = r.next().0;
        lemma_queued_first(s.outgoing);
        lemma_totals_insert(r.sessions, id, s);
        lemma_rotate(r.ready, rest.len() > 0, after.ready);
        assert forall|k: u64| k != id && r.has_outgoing(k) implies #[trigger] after.ready.contains(
            k,
        ) by {
            assert(r.ready.contains(k));
        }
        lemma_update_session(r, after, id, SessionView { outgoing: rest, ..s });
    } else {
        assert(r.next().0 == r);
    }
}

/// The state after `n` packets were taken.
pub open spec fn after_packets(r: RegistryView, n: nat) -> RegistryView
    decreases n,
{
    if n == 0 {
        r
    } else {
        after_packets(r.next().0, (n - 1) as nat)
    }
}

/// The sessions are served in turn: of the sessions that have something to send, each
/// gives up its oldest packet before any of them gives up a second one.
pub proof fn lemma_round_robin(r: RegistryView, i: nat)
    requires
        r.balanced(),
        i < r.ready.len(),
    ensures
        after_packets(r, i).next().1 == Some(
            (r.ready[i as int], r.sessions[r.ready[i as int]].outgoing[0]),
        ),
    decreases i,
{
    assert(r.ready.contains(r.ready[0]));
    assert(r.has_outgoing(r.ready[0]));
    if i > 0 {
        let after = r.next().0;
        lemma_next_keeps_balance(r);
        assert(after.ready[i - 1] == r.ready[i as int]);
        lemma_round_robin(after, (i - 1) as nat);
        assert(r.ready[i as int] != r.ready[0]);
    }
}

/// Every session that has something to send is in line, so that [`lemma_round_robin`]
/// speaks of it.
pub proof fn lemma_no_session_is_forgotten(r: RegistryView, id: u64)
    requires
        r.balanced(),
        r.has_outgoing(id),
    ensures
        exists|i: int| 0 <= i < r.ready.len() && r.ready[i] == id,
{
    assert(r.ready.contains(id));
}

} // verus!
