//! HTTP Datagrams: which packets are queued, which are sent, and who may send.

use crate::conn::datagram::SenderView;
use crate::h3::datagram::model::lemma_skip_idle;
use crate::h3::datagram::model::lemma_without;
use crate::h3::datagram::model::queued;
use crate::h3::datagram::model::without;
use crate::h3::datagram::model::Received;
use crate::h3::datagram::model::RegistryView;
use crate::h3::datagram::model::SendErrorKind;
use crate::h3::datagram::model::SessionView;
use crate::h3::packet::packet_decode;
use crate::h3::packet::packet_encode;
use crate::h3::packet::packet_prefix;
use crate::progress::Progress;
use crate::varint::lemma_varint_round_trip;
use vstd::prelude::*;

verus! {

/// The bytes of a queue are those of its packets together.
pub proof fn lemma_queued_bytes(q: Seq<Seq<u8>>, packet: Seq<u8>)
    ensures
        queued(Seq::empty()) == 0,
        queued(q.push(packet)) == queued(q) + packet.len(),
{
    assert(q.push(packet).drop_last() =~= q);
}

/// A packet that is not well formed changes nothing and is reported. A well-formed one for an
/// unknown session, or for one that receives no more, is dropped. One for a request that
/// gives Datagrams no meaning is reported as such. Any other is queued, exactly if the session
/// holds fewer than 64 packets, its bytes and the payload are at most 128 KiB together, and
/// those of the connection and the payload at most 1 MiB; if not, it is dropped.
pub proof fn lemma_received_packets_are_queued(
    r: RegistryView,
    packet: Seq<u8>,
    id: u64,
    payload: Seq<u8>,
)
    ensures
        packet_decode(packet) is None ==> r.receive(packet) is None,
        packet_decode(packet) == Some((id, payload)) ==> {
            let s = r.sessions[id];
            let open = r.sessions.contains_key(id) && s.recv_open;
            let fits = s.incoming.len() < 64 && queued(s.incoming) + payload.len() <= 131072
                && r.incoming + payload.len() <= 1048576;
            &&& !open ==> r.receive(packet) == Some((r, Received::Dropped))
            &&& open && !s.semantics ==> r.receive(packet) == Some((r, Received::Invalid(id)))
            &&& open && s.semantics && !fits ==> r.receive(packet) == Some((r, Received::Dropped))
            &&& open && s.semantics && fits ==> {
                &&& r.receive(packet) matches Some((after, outcome))
                &&& outcome == Received::Queued(id)
                &&& after == (RegistryView {
                    sessions: r.sessions.insert(
                        id,
                        SessionView { incoming: s.incoming.push(payload), ..s },
                    ),
                    incoming: r.incoming + payload.len(),
                    ..r
                })
            }
        },
{
}

/// A session that has nothing to take and can take something waits; what it takes is the
/// oldest payload, which leaves the queue and the connection's count. A session that is gone,
/// or that receives no more and has nothing left, has come to its end.
pub proof fn lemma_payloads_are_taken_from_the_front(r: RegistryView, id: u64)
    ensures
        !r.sessions.contains_key(id) ==> r.recv(id) == (r, Progress::Ready(None::<Seq<u8>>)),
        r.sessions.contains_key(id) ==> {
            let s = r.sessions[id];
            let (after, taken) = r.recv(id);
            &&& s.incoming.len() == 0 && s.recv_open ==> after == r && taken
                == Progress::<Option<Seq<u8>>>::Pending
            &&& s.incoming.len() == 0 && !s.recv_open ==> after == r && taken
                == Progress::Ready(None::<Seq<u8>>)
            &&& s.incoming.len() > 0 ==> {
                &&& taken == Progress::Ready(Some(s.incoming[0]))
                &&& r.incoming >= s.incoming[0].len() ==> after == (RegistryView {
                    sessions: r.sessions.insert(
                        id,
                        SessionView { incoming: s.incoming.skip(1), ..s },
                    ),
                    incoming: (r.incoming - s.incoming[0].len()) as nat,
                    ..r
                })
            }
        },
{
    if r.sessions.contains_key(id) && r.sessions[id].incoming.len() > 0 {
        assert(r.sessions[id].incoming.skip(1) =~= r.sessions[id].incoming.drop_first());
    }
}

/// The bytes that the Quarter Stream ID takes in a packet.
pub open spec fn prefix_len(id: u64) -> nat {
    if id / 4 < 64 {
        1
    } else if id / 4 < 16384 {
        2
    } else if id / 4 < 1073741824 {
        4
    } else {
        8
    }
}

proof fn lemma_prefix_len(id: u64)
    requires
        id < 0x4000_0000_0000_0000,
    ensures
        packet_prefix(id).len() == prefix_len(id),
{
    lemma_varint_round_trip((id / 4) as nat, Seq::empty());
}

/// A payload is refused because its session sends no more, because Datagrams are not
/// available, because with its prefix it is larger than the transport's limit or 128 KiB, or
/// because the session holds 64 packets already, or the session's 128 KiB or the connection's
/// 1 MiB would be exceeded: the first of these reasons that holds, and nothing changes. If
/// none holds it is queued behind the session's other packets, framed, and the session stands
/// in line.
pub proof fn lemma_sent_payloads_are_queued(r: RegistryView, id: u64, payload: Seq<u8>)
    requires
        id < 0x4000_0000_0000_0000,
    ensures
        ({
            let s = r.sessions[id];
            let size = prefix_len(id) + payload.len();
            let gone = !r.sessions.contains_key(id) || !s.send_open;
            let unavailable = !r.negotiated || r.max_size is None;
            let large = r.max_size is Some && size > r.max_size->0 || size > 131072;
            let full = s.outgoing.len() >= 64 || queued(s.outgoing) + size > 131072
                || r.outgoing + size > 1048576;
            let (after, result) = r.send(id, payload);
            &&& gone ==> result == Err::<(), SendErrorKind>(SendErrorKind::Closed)
            &&& !gone && unavailable ==> result == Err::<(), SendErrorKind>(
                SendErrorKind::Unavailable,
            )
            &&& !gone && !unavailable && large ==> result == Err::<(), SendErrorKind>(
                SendErrorKind::TooLarge,
            )
            &&& !gone && !unavailable && !large && full ==> result == Err::<(), SendErrorKind>(
                SendErrorKind::Full,
            )
            &&& !gone && !unavailable && !large && !full ==> {
                &&& result is Ok
                &&& after == (RegistryView {
                    sessions: r.sessions.insert(
                        id,
                        SessionView { outgoing: s.outgoing.push(packet_encode(id, payload)), ..s },
                    ),
                    outgoing: r.outgoing + size,
                    ready: if s.outgoing.len() == 0 {
                        r.ready.push(id)
                    } else {
                        r.ready
                    },
                    ..r
                })
            }
            &&& result is Err ==> after == r
        }),
{
    lemma_prefix_len(id);
    assert(packet_encode(id, payload).len() == prefix_len(id) + payload.len());
}

/// The reported payload limit is the largest payload that is not too large, up to the local
/// buffer limit; where there is none, no payload can be sent.
pub proof fn lemma_payload_limit_is_the_largest(r: RegistryView, id: u64, payload: Seq<u8>)
    requires
        id < 0x4000_0000_0000_0000,
    ensures
        match r.payload_limit(id) {
            Some(limit) => {
                let result = r.send(id, payload).1;
                &&& payload.len() > limit ==> result == Err::<(), SendErrorKind>(
                    SendErrorKind::TooLarge,
                )
                &&& payload.len() <= limit && payload.len() + prefix_len(id) <= 131072 ==> (
                result is Ok || result == Err::<(), SendErrorKind>(SendErrorKind::Full))
            },
            None => r.send(id, payload).1 is Err && r.send(id, payload).1 != Err::<
                (),
                SendErrorKind,
            >(SendErrorKind::Full),
        },
{
    lemma_prefix_len(id);
}

/// The next packet is the oldest of the first session in line that has one. It leaves its
/// queue and the connection's count, senders that wait are told, and the session goes to the
/// end of the line if it has more. Nothing comes only if no session in line has a packet.
pub proof fn lemma_packets_leave_from_the_front(r: RegistryView)
    ensures
        match r.next() {
            (after, Some((id, packet))) => {
                let s = r.sessions[id];
                &&& r.ready.contains(id) && r.sessions.contains_key(id)
                &&& s.outgoing.len() > 0 && s.outgoing[0] == packet
                &&& after.sessions == r.sessions.insert(
                    id,
                    SessionView { outgoing: s.outgoing.skip(1), ..s },
                )
                &&& r.outgoing >= packet.len() ==> after.outgoing == r.outgoing - packet.len()
                &&& after.incoming == r.incoming && after.max_size == r.max_size
                &&& after.negotiated == r.negotiated && after.closed == r.closed
                &&& after.notified != r.notified
                &&& s.outgoing.len() > 1 ==> after.ready.len() > 0 && after.ready.last() == id
                &&& r.ready.no_duplicates() && s.outgoing.len() == 1 ==> !after.ready.contains(id)
            },
            (after, None) => {
                &&& after == (RegistryView { ready: after.ready, ..r })
                &&& forall|id: u64| #[trigger]
                    r.ready.contains(id) ==> !r.sessions.contains_key(id)
                        || r.sessions[id].outgoing.len() == 0
            },
        },
{
    lemma_skip_idle(r, r.ready);
    let line = r.skip_idle(r.ready);
    if line.len() > 0 {
        let id = line[0];
        assert(r.has_outgoing(id));
        assert(line.contains(id));
        assert(r.sessions[id].outgoing.skip(1) =~= r.sessions[id].outgoing.drop_first());
        if r.ready.no_duplicates() && r.sessions[id].outgoing.len() == 1 {
            assert forall|i: int| 0 <= i < line.drop_first().len() implies line.drop_first()[i]
                != id by {
                assert(line.drop_first()[i] == line[i + 1]);
            }
        }
    } else {
        assert forall|id: u64| #[trigger] r.ready.contains(id) implies !r.sessions.contains_key(id)
            || r.sessions[id].outgoing.len() == 0 by {
            if r.has_outgoing(id) {
                assert(line.contains(id));
            }
        }
    }
}

/// A direction that ends, or a session that goes, takes with it what it had queued and its
/// place in line; the connection's counts go down by what it held, and senders that wait are
/// told where sending is concerned.
pub proof fn lemma_closing_discards_what_was_queued(r: RegistryView, id: u64)
    requires
        r.sessions.contains_key(id),
        queued(r.sessions[id].incoming) <= r.incoming,
        queued(r.sessions[id].outgoing) <= r.outgoing,
    ensures
        ({
            let s = r.sessions[id];
            let (sent, received, gone) = (r.close_send(id), r.close_recv(id), r.close_session(id));
            &&& sent.sessions == r.sessions.insert(
                id,
                SessionView { send_open: false, outgoing: Seq::empty(), ..s },
            )
            &&& received.sessions == r.sessions.insert(
                id,
                SessionView { recv_open: false, incoming: Seq::empty(), ..s },
            )
            &&& gone.sessions == r.sessions.remove(id)
            &&& sent.outgoing == r.outgoing - queued(s.outgoing) && sent.incoming == r.incoming
            &&& received.incoming == r.incoming - queued(s.incoming) && received.outgoing
                == r.outgoing
            &&& gone.outgoing == r.outgoing - queued(s.outgoing) && gone.incoming == r.incoming
                - queued(s.incoming)
            &&& !sent.ready.contains(id) && !gone.ready.contains(id) && received.ready == r.ready
            &&& forall|k: u64|
                k != id ==> (#[trigger] sent.ready.contains(k) <==> r.ready.contains(k))
            &&& forall|k: u64|
                k != id ==> (#[trigger] gone.ready.contains(k) <==> r.ready.contains(k))
            &&& sent.notified != r.notified && gone.notified != r.notified
            &&& received.notified == r.notified
            &&& sent.max_size == r.max_size && gone.max_size == r.max_size && received.max_size
                == r.max_size
            &&& sent.negotiated == r.negotiated && gone.negotiated == r.negotiated
                && received.negotiated == r.negotiated
            &&& sent.closed == r.closed && gone.closed == r.closed && received.closed == r.closed
        }),
{
    lemma_without(r.ready, id);
}

/// A connection that closes has no sessions, no packets and no count, sends nothing more,
/// gives every receiver its end and drops whatever arrives.
pub proof fn lemma_closed_connection_is_silent(
    r: RegistryView,
    id: u64,
    payload: Seq<u8>,
    packet: Seq<u8>,
)
    ensures
        r.close().sessions == Map::<u64, SessionView>::empty(),
        r.close().incoming == 0 && r.close().outgoing == 0 && r.close().closed,
        r.close().notified != r.notified,
        r.close().next().1 is None,
        r.close().recv(id).1 == Progress::Ready(None::<Seq<u8>>),
        r.close().send(id, payload).1 == Err::<(), SendErrorKind>(SendErrorKind::Closed),
        packet_decode(packet) is Some ==> r.close().receive(packet) == Some(
            (r.close(), Received::Dropped),
        ),
{
}

/// A session begins open in both directions and empty.
pub proof fn lemma_sessions_begin_open(semantics: bool)
    ensures
        SessionView::fresh(semantics).send_open,
        SessionView::fresh(semantics).recv_open,
        SessionView::fresh(semantics).semantics == semantics,
        SessionView::fresh(semantics).incoming.len() == 0,
        SessionView::fresh(semantics).outgoing.len() == 0,
{
}

/// A sender is done with whatever the queues answer, unless they are full: then it waits, and
/// nothing changes. It is asked to come back at once exactly if packets have left since it
/// began to wait, and the driver is woken exactly if a packet was queued.
pub proof fn lemma_senders_wait_only_for_room(
    sender: SenderView,
    registry: RegistryView,
    payload: Seq<u8>,
)
    ensures
        ({
            let (after, result) = registry.send(sender.id, payload);
            let attempt = sender.poll_send(registry, payload);
            let full = result == Err::<(), SendErrorKind>(SendErrorKind::Full);
            let told = sender.waiting is Some && sender.waiting->0 != registry.notified;
            &&& !full ==> attempt.progress == Progress::Ready(result) && attempt.registry == after
            &&& full ==> attempt.progress == Progress::<Result<(), SendErrorKind>>::Pending
                && attempt.registry == registry
            &&& attempt.wake <==> full && told
            &&& attempt.driver <==> result is Ok
            &&& full && !told ==> attempt.sender.waiting == Some(registry.notified)
            &&& !full || told ==> attempt.sender.waiting is None
            &&& attempt.sender.id == sender.id
        }),
{
}

/// Registering a session sets it, and nothing else.
pub proof fn lemma_registering_sets_one_session(r: RegistryView, id: u64, s: SessionView)
    ensures
        r.with_session(id, s) == (RegistryView { sessions: r.sessions.insert(id, s), ..r }),
{
}

/// A session that leaves the line does not change the order of the others.
pub proof fn lemma_leaving_keeps_the_order(line: Seq<u64>, id: u64, k: u64)
    ensures
        without(Seq::empty(), id) == Seq::<u64>::empty(),
        without(line.push(id), id) == without(line, id),
        k != id ==> without(line.push(k), id) == without(line, id).push(k),
{
    reveal(Seq::filter);
    assert(line.push(id).drop_last() =~= line);
    assert(line.push(k).drop_last() =~= line);
    assert(without(Seq::empty(), id) =~= Seq::<u64>::empty());
}

/// Ending a direction of a session that is not there changes nothing but the count of
/// notices where sending is concerned, and so does removing it; the line of the others stays.
pub proof fn lemma_closing_what_is_gone(r: RegistryView, id: u64)
    requires
        !r.sessions.contains_key(id),
    ensures
        r.close_recv(id) == r,
        r.close_send(id) == (RegistryView { notified: r.close_send(id).notified, ..r }),
        r.close_session(id) == (RegistryView { notified: r.close_session(id).notified, ..r }),
        r.close_send(id).notified != r.notified,
        r.close_session(id).notified != r.notified,
{
}

/// The line after a session ended sending, or went, is the line without it.
pub proof fn lemma_closing_leaves_the_line(r: RegistryView, id: u64)
    requires
        r.sessions.contains_key(id),
    ensures
        r.close_send(id).ready == without(r.ready, id),
        r.close_session(id).ready == without(r.ready, id),
        r.close().ready.len() == 0,
{
}

} // verus!
