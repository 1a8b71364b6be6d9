//! The chunk layer: headers, chunks and their reassembly into messages.
use bytes::Bytes;
use vstd::arithmetic::div_mod::{lemma_basic_div, lemma_div_plus_one};
use vstd::prelude::*;

pub mod chunk_mux;
pub mod header;

use crate::chunks::header::ChunkHeader;

verus! {

/// The chunk size that holds until the peer announces another.
pub const DEFAULT_MAX_CHUNK_SIZE: u32 = 128;

/// One chunk: its header and its share of the message payload.
pub struct Chunk {
    pub header: ChunkHeader,
    pub payload: Bytes,
}

/// The payload size of a chunk: the chunk size, or what is left of the
/// message when that is less.
pub open spec fn payload_size_spec(max_chunk_size: int, remaining: int) -> int {
    if remaining < max_chunk_size {
        remaining
    } else {
        max_chunk_size
    }
}

impl Chunk {
    /// How many payload bytes follow a chunk header, given the negotiated
    /// chunk size and how much of the message is still to come.
    pub fn payload_size(max_chunk_size: u32, remaining: u32) -> (r: u32)
        ensures
            r == payload_size_spec(max_chunk_size as int, remaining as int),
    {
        if remaining < max_chunk_size {
            remaining
        } else {
            max_chunk_size
        }
    }
}

/// The payload sizes of the chunks that carry a message of `length` bytes
/// at chunk size `max`, in order.
pub open spec fn chunk_sizes(length: nat, max: nat) -> Seq<int>
    decreases length,
{
    if length == 0 || max == 0 {
        seq![]
    } else {
        let p = payload_size_spec(max as int, length as int);
        seq![p] + chunk_sizes((length - p) as nat, max)
    }
}

/// At a chunk size of at least the default, a message of `length` bytes
/// takes the ceiling of `length / max` chunks, all of them but the last
/// carry exactly `max` bytes, and the last carries the rest.
pub proof fn lemma_chunk_count(length: nat, max: nat)
    requires
        max >= DEFAULT_MAX_CHUNK_SIZE,
    ensures
        chunk_sizes(length, max).len() == (length + max - 1) / (max as int),
        forall|i: int|
            0 <= i < chunk_sizes(length, max).len() - 1 ==> #[trigger] chunk_sizes(length, max)[i]
                == max,
        length > 0 ==> 0 < chunk_sizes(length, max).last() <= max,
        length > 0 ==> chunk_sizes(length, max).last() == length - (chunk_sizes(length, max).len()
            - 1) * max,
    decreases length,
{
    let sizes = chunk_sizes(length, max);
    if length == 0 {
        lemma_basic_div(max - 1, max as int);
    } else if length <= max {
        lemma_basic_div(length - 1, max as int);
        lemma_div_plus_one(length - 1, max as int);
        assert(chunk_sizes(0, max) =~= Seq::<int>::empty());
        assert(sizes =~= seq![length as int]);
        assert((sizes.len() - 1) * max == 0);
    } else {
        let rest = chunk_sizes((length - max) as nat, max);
        lemma_chunk_count((length - max) as nat, max);
        lemma_div_plus_one(length - 1, max as int);
        assert(sizes =~= seq![max as int] + rest);
        assert forall|i: int| 0 <= i < sizes.len() - 1 implies #[trigger] sizes[i] == max by {
            if i > 0 {
                assert(sizes[i] == rest[i - 1]);
            }
        }
        assert(sizes.last() == rest.last());
        assert(rest.last() == (length - max) - (rest.len() - 1) * max);
        assert((sizes.len() - 1) * max == (rest.len() - 1) * max + max) by (nonlinear_arith)
            requires
                sizes.len() == rest.len() + 1,
        ;
    }
}

} // verus!
