//! What a QUIC transport hands to the HTTP/3 connection logic.

use crate::varint::VARINT_LIMIT;
use vstd::prelude::*;

pub mod datagram;

verus! {

/// The ID of a QUIC stream, below 2^62.
#[derive(Clone, Copy, Debug, PartialEq, Eq, Structural)]
pub struct StreamId {
    id: u64,
}

/// A number that is too large for a stream ID.
#[derive(Clone, Copy, Debug, PartialEq, Eq, Structural)]
pub struct InvalidStreamId(pub u64);

impl View for StreamId {
    type V = u64;

    closed spec fn view(&self) -> u64 {
        self.id
    }
}

impl StreamId {
    /// Every stream ID fits a variable-length integer.
    #[verifier::type_invariant]
    pub closed spec fn in_range(self) -> bool {
        self.id < VARINT_LIMIT
    }

    /// Accepts exactly the numbers below 2^62.
    pub fn try_from(v: u64) -> (id: Result<StreamId, InvalidStreamId>)
        ensures
            match id {
                Ok(id) => v < VARINT_LIMIT && id@ == v,
                Err(e) => v >= VARINT_LIMIT && e.0 == v,
            },
    {
        if v < VARINT_LIMIT {
            Ok(StreamId { id: v })
        } else {
            Err(InvalidStreamId(v))
        }
    }

    /// The number itself.
    pub fn into_inner(self) -> (v: u64)
        ensures
            v == self@,
            v < VARINT_LIMIT,
    {
        proof {
            use_type_invariant(&self);
        }
        self.id
    }
}

} // verus!
