//! The chunking model: how an unbounded transfer is split into driver-legal
//! pieces, and the laws that splitting obeys.
//!
//! A read moves at most [`MAX_READ_CHUNK`] bytes per request (the width of the
//! wire record's byte-count field); a write is bounded so that the packed
//! header plus the payload never exceeds
//! [`crate::codec::MAX_WRITE_REQUEST_SIZE`] bytes in one transmit buffer.

use crate::codec::MAX_WRITE_REQUEST_SIZE;
use crate::codec::WRITE_HEADER_SIZE;
use vstd::prelude::*;

verus! {

/// Most bytes one read-memory request may move: the byte-count field of the
/// wire record is sixteen bits wide.
pub const MAX_READ_CHUNK: usize = 65535;

/// Most payload bytes one write-memory request carries. Any value with
/// header + chunk at most [`MAX_WRITE_REQUEST_SIZE`] would be legal; this
/// implementation uses a smaller round number.
pub const MAX_WRITE_CHUNK: usize = 256;

/// The sizes of the consecutive chunks a transfer of `len` bytes is split
/// into: full `limit`-sized chunks, then whatever remains.
pub open spec fn chunk_sizes(len: nat, limit: nat) -> Seq<nat>
    decreases len,
{
    if limit == 0 || len == 0 {
        Seq::empty()
    } else if len <= limit {
        seq![len]
    } else {
        seq![limit] + chunk_sizes((len - limit) as nat, limit)
    }
}

/// The consecutive pieces a buffer is split into, each at most `limit` bytes.
pub open spec fn split_into_chunks(data: Seq<u8>, limit: nat) -> Seq<Seq<u8>>
    decreases data.len(),
{
    if limit == 0 || data.len() == 0 {
        Seq::empty()
    } else if data.len() <= limit {
        seq![data]
    } else {
        seq![data.take(limit as int)] + split_into_chunks(data.skip(limit as int), limit)
    }
}

/// Reassembly: the pieces, concatenated in order.
pub open spec fn concat_chunks(chunks: Seq<Seq<u8>>) -> Seq<u8>
    decreases chunks.len(),
{
    if chunks.len() == 0 {
        Seq::empty()
    } else {
        chunks.first() + concat_chunks(chunks.drop_first())
    }
}

/// The total of a sequence of chunk sizes.
pub open spec fn sum_sizes(sizes: Seq<nat>) -> nat
    decreases sizes.len(),
{
    if sizes.len() == 0 {
        0
    } else {
        sizes.first() + sum_sizes(sizes.drop_first())
    }
}

/// Chunk round-trip law: for any buffer and any positive chunk limit,
/// splitting into chunks of at most `limit` bytes and reassembling in order
/// reproduces the buffer bit for bit; the chunk sizes sum to the buffer's
/// length, and piece `i` of the split has exactly size `i` of the size plan.
pub proof fn lemma_chunk_round_trip(data: Seq<u8>, limit: nat)
    requires
        limit > 0,
    ensures
        concat_chunks(split_into_chunks(data, limit)) == data,
        sum_sizes(chunk_sizes(data.len(), limit)) == data.len(),
        split_into_chunks(data, limit).len() == chunk_sizes(data.len(), limit).len(),
        forall|i: int|
            0 <= i < split_into_chunks(data, limit).len()
                ==> (#[trigger] split_into_chunks(data, limit)[i]).len()
                    == chunk_sizes(data.len(), limit)[i],
    decreases data.len(),
{
    let pieces = split_into_chunks(data, limit);
    let sizes = chunk_sizes(data.len(), limit);
    if data.len() == 0 {
        assert(pieces =~= Seq::<Seq<u8>>::empty());
        assert(sizes =~= Seq::<nat>::empty());
        assert(concat_chunks(pieces) =~= data);
    } else if data.len() <= limit {
        assert(pieces =~= seq![data]);
        assert(sizes =~= seq![data.len()]);
        assert(pieces.first() == data);
        assert(pieces.drop_first() =~= Seq::<Seq<u8>>::empty());
        assert(concat_chunks(pieces.drop_first()) =~= Seq::<u8>::empty());
        assert(concat_chunks(pieces) =~= data);
        assert(sizes.first() == data.len());
        assert(sizes.drop_first() =~= Seq::<nat>::empty());
        assert(sum_sizes(sizes.drop_first()) == 0);
    } else {
        let head = data.take(limit as int);
        let tail = data.skip(limit as int);
        lemma_chunk_round_trip(tail, limit);
        assert(pieces =~= seq![head] + split_into_chunks(tail, limit));
        assert(sizes =~= seq![limit] + chunk_sizes(tail.len(), limit));
        assert(pieces.first() == head);
        assert(pieces.drop_first() =~= split_into_chunks(tail, limit));
        assert(concat_chunks(pieces) == head + concat_chunks(split_into_chunks(tail, limit)));
        assert(concat_chunks(pieces) =~= data);
        assert(sizes.first() == limit);
        assert(sizes.drop_first() =~= chunk_sizes(tail.len(), limit));
        assert(sum_sizes(sizes) == limit + sum_sizes(chunk_sizes(tail.len(), limit)));
        assert forall|i: int| 0 <= i < pieces.len() implies (#[trigger] pieces[i]).len()
            == sizes[i] by {
            if i > 0 {
                assert(pieces[i] == split_into_chunks(tail, limit)[i - 1]);
                assert(sizes[i] == chunk_sizes(tail.len(), limit)[i - 1]);
            }
        }
    }
}

/// Every chunk the plan produces is positive and at most `limit`, and every
/// chunk but the last is exactly `limit`.
pub proof fn lemma_chunk_sizes_bounds(len: nat, limit: nat)
    requires
        limit > 0,
    ensures
        forall|i: int|
            0 <= i < chunk_sizes(len, limit).len()
                ==> 0 < #[trigger] chunk_sizes(len, limit)[i] <= limit,
        forall|i: int|
            0 <= i < chunk_sizes(len, limit).len() - 1
                ==> #[trigger] chunk_sizes(len, limit)[i] == limit,
    decreases len,
{
    if len == 0 {
    } else if len <= limit {
    } else {
        lemma_chunk_sizes_bounds((len - limit) as nat, limit);
        let sizes = chunk_sizes(len, limit);
        let rest = chunk_sizes((len - limit) as nat, limit);
        assert forall|i: int| 0 <= i < sizes.len() implies 0 < #[trigger] sizes[i] <= limit by {
            if i > 0 {
                assert(sizes[i] == rest[i - 1]);
            }
        }
        assert forall|i: int| 0 <= i < sizes.len() - 1 implies #[trigger] sizes[i] == limit by {
            if i > 0 {
                assert(sizes[i] == rest[i - 1]);
            }
        }
    }
}

/// A transfer of `len` bytes takes exactly the ceiling of `len / limit`
/// requests: one request for `limit` or fewer bytes, one more for each
/// further started `limit`-byte block.
pub proof fn lemma_chunk_count(len: nat, limit: nat)
    requires
        limit > 0,
    ensures
        chunk_sizes(len, limit).len() == (len + limit - 1) / (limit as int),
    decreases len,
{
    if len == 0 {
        assert((limit - 1) / (limit as int) == 0) by (nonlinear_arith)
            requires limit > 0;
    } else if len <= limit {
        assert((len + limit - 1) / (limit as int) == 1) by (nonlinear_arith)
            requires 0 < len <= limit;
    } else {
        lemma_chunk_count((len - limit) as nat, limit);
        assert((len + limit - 1) / (limit as int) == 1 + (len - 1) / (limit as int))
            by (nonlinear_arith)
            requires limit > 0 && len > limit;
        assert((len - limit + limit - 1) / (limit as int) == (len - 1) / (limit as int));
    }
}

/// Write packing bound law: every chunk of the write plan fits the driver's
/// request-buffer bound, header included; in particular the chosen chunk
/// limit itself does.
pub proof fn lemma_write_packing_bound(len: nat)
    ensures
        WRITE_HEADER_SIZE + MAX_WRITE_CHUNK <= MAX_WRITE_REQUEST_SIZE,
        forall|i: int|
            0 <= i < chunk_sizes(len, MAX_WRITE_CHUNK as nat).len()
                ==> WRITE_HEADER_SIZE + #[trigger] chunk_sizes(len, MAX_WRITE_CHUNK as nat)[i]
                    <= MAX_WRITE_REQUEST_SIZE,
{
    lemma_chunk_sizes_bounds(len, MAX_WRITE_CHUNK as nat);
}

} // verus!
