//! Cutting work into pieces, so that one stream does not hold up the others.

use crate::buffer;
use crate::buffer::bytes_of;
use bytes::Bytes;
use vstd::prelude::*;

verus! {

/// Bytes that are handed on at once.
pub const CHUNK: usize = 16 * 1024;

/// Pieces of work between two pauses.
pub const PIECES: usize = 32;

/// Counts one piece of work. Returns whether the task must now let others run.
pub fn cooperate(budget: &mut usize) -> (pause: bool)
    requires
        *old(budget) < PIECES,
    ensures
        pause == (*old(budget) + 1 == PIECES),
        *final(budget) == (*old(budget) + 1) % PIECES as int,
        *final(budget) < PIECES,
{
    *budget = *budget + 1;
    if *budget < PIECES {
        return false;
    }
    *budget = 0;
    true
}

/// The budget after `n` pieces of work.
pub open spec fn spent(budget: nat, n: nat) -> nat
    decreases n,
{
    if n == 0 {
        budget
    } else {
        (spent(budget, (n - 1) as nat) + 1) % PIECES as nat
    }
}

/// Starting afresh, exactly every 32nd piece of work is followed by a pause.
pub proof fn lemma_pauses_are_regular(n: nat)
    ensures
        spent(0, n) == n % PIECES as nat,
        (spent(0, n) + 1 == PIECES) <==> (n + 1) % PIECES as nat == 0,
    decreases n,
{
    if n > 0 {
        lemma_pauses_are_regular((n - 1) as nat);
    }
}

/// The first chunk of some data.
pub open spec fn first_chunk(data: Seq<u8>) -> Seq<u8> {
    if data.len() <= CHUNK {
        data
    } else {
        data.take(CHUNK as int)
    }
}

/// What follows the first chunk.
pub open spec fn after_chunk(data: Seq<u8>) -> Seq<u8> {
    if data.len() <= CHUNK {
        Seq::empty()
    } else {
        data.skip(CHUNK as int)
    }
}

/// Takes the first chunk off some data.
pub fn next_chunk(data: &mut Bytes) -> (chunk: Bytes)
    ensures
        bytes_of(chunk) == first_chunk(bytes_of(*old(data))),
        bytes_of(*final(data)) == after_chunk(bytes_of(*old(data))),
{
    let n: usize = buffer::len(data);
    let size: usize = if n < CHUNK {
        n
    } else {
        CHUNK
    };
    let ghost before = bytes_of(*data);
    let chunk = buffer::split_to(data, size);
    assert(before.take(size as int) =~= first_chunk(before));
    assert(before.skip(size as int) =~= after_chunk(before));
    chunk
}

/// The chunks of some data.
pub open spec fn chunks(data: Seq<u8>) -> Seq<Seq<u8>>
    decreases data.len(),
{
    if data.len() == 0 {
        Seq::empty()
    } else {
        seq![first_chunk(data)] + chunks(after_chunk(data))
    }
}

/// Chunks put together again.
pub open spec fn joined(chunks: Seq<Seq<u8>>) -> Seq<u8>
    decreases chunks.len(),
{
    if chunks.len() == 0 {
        Seq::empty()
    } else {
        chunks[0] + joined(chunks.drop_first())
    }
}

/// The chunks of some data, put together, are the data; none of them is empty or too long.
pub proof fn lemma_chunks_are_the_data(data: Seq<u8>)
    ensures
        joined(chunks(data)) == data,
        forall|i: int|
            0 <= i < chunks(data).len() ==> 0 < (#[trigger] chunks(data)[i]).len() <= CHUNK,
    decreases data.len(),
{
    if data.len() > 0 {
        let rest = after_chunk(data);
        lemma_chunks_are_the_data(rest);
        assert(chunks(data).drop_first() =~= chunks(rest));
        assert(first_chunk(data) + rest =~= data);
        assert forall|i: int| 0 <= i < chunks(data).len() implies 0 < (#[trigger] chunks(
            data,
        )[i]).len() <= CHUNK by {
            if i > 0 {
                assert(chunks(data)[i] == chunks(rest)[i - 1]);
            }
        }
    }
}

/// Two lists of chunks put together are the two data in a row.
pub(crate) proof fn lemma_joined_lists(a: Seq<Seq<u8>>, b: Seq<Seq<u8>>)
    ensures
        joined(a + b) == joined(a) + joined(b),
    decreases a.len(),
{
    if a.len() == 0 {
        assert(a + b =~= b);
        assert(joined(a) + joined(b) =~= joined(b));
    } else {
        lemma_joined_lists(a.drop_first(), b);
        assert((a + b).drop_first() =~= a.drop_first() + b);
        assert(joined(a + b) =~= joined(a) + joined(b));
    }
}

/// The last chunk comes last.
pub(crate) proof fn lemma_joined_last(list: Seq<Seq<u8>>)
    requires
        list.len() > 0,
    ensures
        joined(list) == joined(list.drop_last()) + list.last(),
{
    let last = seq![list.last()];
    lemma_joined_lists(list.drop_last(), last);
    assert(list.drop_last() + last =~= list);
    assert(last.drop_first() =~= Seq::empty());
    assert(joined(last.drop_first()) == Seq::<u8>::empty());
    assert(joined(last) =~= list.last());
}

} // verus!
