//! The length of a body that is being received.

use vstd::prelude::*;

verus! {

/// What is left of a body, as far as it is known.
#[derive(Clone, Copy, Debug, PartialEq, Eq, Structural)]
pub enum DecodedLength {
    /// So many bytes are left.
    Exact(u64),
    /// The end shows when it comes.
    Unknown,
}

impl DecodedLength {
    /// A body of `n` bytes.
    pub fn new(n: u64) -> (l: DecodedLength)
        ensures
            l == DecodedLength::Exact(n),
    {
        DecodedLength::Exact(n)
    }

    /// Whether the length is known.
    pub fn is_exact(&self) -> (b: bool)
        ensures
            b == (*self is Exact),
    {
        match self {
            DecodedLength::Exact(_) => true,
            DecodedLength::Unknown => false,
        }
    }

    /// The length, if it is known.
    pub open spec fn exact(self) -> Option<u64> {
        match self {
            DecodedLength::Exact(n) => Some(n),
            DecodedLength::Unknown => None,
        }
    }

    /// The length, if it is known.
    pub fn into_opt(self) -> (n: Option<u64>)
        ensures
            n == self.exact(),
    {
        match self {
            DecodedLength::Exact(n) => Some(n),
            DecodedLength::Unknown => None,
        }
    }

    /// What is left after `n` more bytes.
    pub open spec fn after(self, n: nat) -> DecodedLength {
        match self {
            DecodedLength::Exact(left) => DecodedLength::Exact(
                if n <= left {
                    (left - n) as u64
                } else {
                    0
                },
            ),
            DecodedLength::Unknown => DecodedLength::Unknown,
        }
    }

    /// Takes `n` bytes off a known length.
    pub fn sub_if(&mut self, n: u64)
        ensures
            *final(self) == old(self).after(n as nat),
    {
        if let DecodedLength::Exact(left) = *self {
            *self = DecodedLength::Exact(left.saturating_sub(n));
        }
    }
}

} // verus!
