//! Reference-counted byte buffers, taken from the `bytes` crate.
//!
//! [`Bytes`] is opaque to the verifier. [`bytes_of`] names what a buffer holds, and
//! the functions below state what the operations that the library uses do to it.

use bytes::Bytes;
use vstd::prelude::*;

verus! {

#[verifier::external_type_specification]
#[verifier::external_body]
pub struct ExBytes(bytes::Bytes);

/// The bytes that a buffer holds.
pub uninterp spec fn bytes_of(b: Bytes) -> Seq<u8>;

/// Calls `Bytes::len`: the number of bytes in the buffer.
#[verifier::external_body]
pub(crate) fn len(b: &Bytes) -> (n: usize)
    ensures
        n == bytes_of(*b).len(),
{
    b.len()
}

/// Calls `Bytes::new`: an empty buffer.
#[verifier::external_body]
pub(crate) fn empty() -> (b: Bytes)
    ensures
        bytes_of(b) == Seq::<u8>::empty(),
{
    Bytes::new()
}

/// Calls `Bytes::from` on a vector, which takes the vector's bytes over.
#[verifier::external_body]
pub(crate) fn from_vec(v: Vec<u8>) -> (b: Bytes)
    ensures
        bytes_of(b) == v@,
{
    Bytes::from(v)
}

/// Reads a buffer as a slice, through its `Deref` to `[u8]`.
#[verifier::external_body]
pub(crate) fn as_slice(b: &Bytes) -> (s: &[u8])
    ensures
        s@ == bytes_of(*b),
{
    b
}

/// Calls `Bytes::split_to`: the first `at` bytes leave the buffer and are returned.
/// The outside function panics if the buffer holds fewer.
#[verifier::external_body]
pub(crate) fn split_to(b: &mut Bytes, at: usize) -> (head: Bytes)
    requires
        at <= bytes_of(*old(b)).len(),
    ensures
        bytes_of(head) == bytes_of(*old(b)).take(at as int),
        bytes_of(*final(b)) == bytes_of(*old(b)).skip(at as int),
{
    b.split_to(at)
}

} // verus!
