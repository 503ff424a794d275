//! The wire form of an HTTP Datagram: a Quarter Stream ID and the payload.

use crate::buffer;
use crate::buffer::bytes_of;
use crate::rt::quic::StreamId;
use crate::varint;
use bytes::Bytes;
use http3::error::internal_error::InternalConnectionError;
use http3_datagram::datagram::Datagram;
use vstd::prelude::*;

verus! {

#[verifier::external_type_specification]
#[verifier::external_body]
pub struct ExInternalConnectionError(http3::error::internal_error::InternalConnectionError);

/// The first bytes of a packet: a quarter of the stream ID.
pub open spec fn packet_prefix(id: u64) -> Seq<u8> {
    varint::varint_encode((id / 4) as nat)
}

/// The packet that carries `payload` for the stream `id`.
pub open spec fn packet_encode(id: u64, payload: Seq<u8>) -> Seq<u8> {
    packet_prefix(id) + payload
}

/// The stream ID and the payload of a packet. There is none if the packet is too short
/// for its Quarter Stream ID, or if four times that number is no stream ID.
pub open spec fn packet_decode(packet: Seq<u8>) -> Option<(u64, Seq<u8>)> {
    match varint::varint_decode(packet) {
        Some((quarter, n)) if quarter * 4 < varint::VARINT_LIMIT => Some(
            ((quarter * 4) as u64, packet.skip(n as int)),
        ),
        _ => None,
    }
}

/// A decoded packet gives back the stream and the payload that were encoded.
pub proof fn lemma_packet_round_trip(id: u64, payload: Seq<u8>)
    requires
        id < varint::VARINT_LIMIT,
        id % 4 == 0,
    ensures
        packet_decode(packet_encode(id, payload)) == Some((id, payload)),
{
    varint::lemma_varint_round_trip((id / 4) as nat, payload);
    let n = varint::varint_size((id / 4) as nat);
    assert(packet_encode(id, payload).skip(n as int) =~= payload);
}

/// The length of [`packet_prefix`].
pub fn prefix_size(id: StreamId) -> (n: usize)
    ensures
        n == packet_prefix(id@).len(),
        n == varint::varint_size((id@ / 4) as nat),
        n <= 8,
{
    let id: u64 = id.into_inner();
    proof {
        varint::lemma_varint_round_trip((id / 4) as nat, Seq::empty());
    }
    let quarter: u64 = id / 4;
    if quarter <= 63 {
        1
    } else if quarter <= 16383 {
        2
    } else if quarter <= 1073741823 {
        4
    } else {
        8
    }
}

/// Frames a payload. The QUIC transport takes contiguous bytes, so this copies it once.
pub fn encode(id: StreamId, payload: &Bytes) -> (packet: Bytes)
    ensures
        bytes_of(packet) == packet_encode(id@, bytes_of(*payload)),
{
    let id: u64 = id.into_inner();
    let mut packet = varint::encode_varint(id / 4);
    packet.extend_from_slice(buffer::as_slice(payload));
    buffer::from_vec(packet)
}

/// Calls `http3_datagram::datagram::Datagram::decode`, which reads the Quarter Stream ID
/// off the front of the packet and keeps the rest as the payload. It fails exactly where
/// [`packet_decode`] gives nothing. What the error holds is not stated.
#[verifier::external_body]
pub(crate) fn decode(packet: Bytes) -> (r: Result<(u64, Bytes), InternalConnectionError>)
    ensures
        match packet_decode(bytes_of(packet)) {
            Some((id, payload)) => r matches Ok(d) && d.0 == id && bytes_of(d.1) == payload,
            None => r is Err,
        },
{
    let datagram = Datagram::decode(packet)?;
    Ok((datagram.stream_id().into_inner(), datagram.into_payload()))
}

} // verus!
