//! Reassembly of chunks into messages, one partial message per chunk stream.
use std::collections::HashMap;

use bytes::{Bytes, BytesMut};
use vstd::prelude::*;

use crate::buffer::{
    bytes_as_slice, bytes_mut_extend, bytes_mut_freeze, bytes_mut_len, bytes_mut_new,
    bytes_mut_view, bytes_view,
};
use crate::chunks::header::{
    message_length_of, message_type_of, stream_id_of, time_of, ChunkHeader, MessageHeader,
};
use crate::chunks::Chunk;

verus! {

broadcast use vstd::std_specs::hash::group_hash_axioms;

#[derive(Debug, PartialEq, Eq, Clone, Copy, Structural)]
pub enum ChunkStreamError {
    /// A chunk carried more bytes than its message had left.
    MessageOverflow(u32),
}

/// A message being reassembled, as the multiplexer sees it.
pub struct PartialView {
    pub length: u32,
    pub message_type: u8,
    pub message_stream_id: u32,
    pub timestamp: u32,
    pub bytes: Seq<u8>,
}

/// The multiplexer's state: the partial message of each chunk stream, and
/// the message stream id and timestamp of the last message opened on each
/// chunk stream.
pub struct MuxView {
    pub partials: Map<u32, PartialView>,
    pub stream_ids: Map<u32, u32>,
    pub timestamps: Map<u32, u32>,
}

/// A completed message: its payload, type id, stream id and timestamp.
pub type MessageView = (Seq<u8>, u8, u32, u32);

/// The timestamp of a message that header `h` opens: absolute in type 0,
/// else a delta from the last message of the chunk stream.
pub open spec fn opening_timestamp(m: MuxView, h: ChunkHeader) -> u32 {
    let cs = h.basic_header.chunk_stream_id;
    if h.message_header is Type0 {
        time_of(h)
    } else {
        let prev: u32 = if m.timestamps.contains_key(cs) {
            m.timestamps[cs]
        } else {
            0
        };
        prev.wrapping_add(time_of(h))
    }
}

/// No partial message holds as many bytes as it declared, and each
/// declared length fits in memory.
pub open spec fn mux_wf(m: MuxView) -> bool {
    forall|k: u32| #[trigger]
        m.partials.contains_key(k) ==> m.partials[k].bytes.len() < m.partials[k].length
            <= isize::MAX
}

/// The message length that a header declares fits in memory.
pub open spec fn length_fits(h: ChunkHeader) -> bool {
    message_length_of(h) matches Some(l) ==> l <= isize::MAX
}

/// The partial message that a chunk with header `h` adds to: the one of its
/// chunk stream, or a new one when the header opens a message; none when
/// there is no partial message and the header carries no length or type.
pub open spec fn pending(m: MuxView, h: ChunkHeader) -> Option<PartialView> {
    let cs = h.basic_header.chunk_stream_id;
    if m.partials.contains_key(cs) {
        Some(m.partials[cs])
    } else if message_length_of(h) is Some && message_type_of(h) is Some {
        Some(
            PartialView {
                length: message_length_of(h)->0,
                message_type: message_type_of(h)->0,
                message_stream_id: match stream_id_of(h) {
                    Some(id) => id,
                    None => if m.stream_ids.contains_key(cs) {
                        m.stream_ids[cs]
                    } else {
                        0
                    },
                },
                timestamp: opening_timestamp(m, h),
                bytes: seq![],
            },
        )
    } else {
        None
    }
}

/// What receiving one chunk does: the next state and the outcome.
pub open spec fn mux_step(m: MuxView, h: ChunkHeader, payload: Seq<u8>) -> (
    MuxView,
    Result<Option<MessageView>, ChunkStreamError>,
) {
    let cs = h.basic_header.chunk_stream_id;
    match pending(m, h) {
        None => (m, Ok(None)),
        Some(p) => {
            let ids = m.stream_ids.insert(cs, p.message_stream_id);
            let times = m.timestamps.insert(cs, p.timestamp);
            let acc = p.bytes + payload;
            let rest = m.partials.remove(cs);
            if acc.len() > p.length {
                (
                    MuxView { partials: rest, stream_ids: ids, timestamps: times },
                    Err(ChunkStreamError::MessageOverflow(cs)),
                )
            } else if acc.len() == p.length {
                (
                    MuxView { partials: rest, stream_ids: ids, timestamps: times },
                    Ok(Some((acc, p.message_type, p.message_stream_id, p.timestamp))),
                )
            } else {
                (
                    MuxView {
                        partials: rest.insert(
                            cs,
                            PartialView {
                                length: p.length,
                                message_type: p.message_type,
                                message_stream_id: p.message_stream_id,
                                timestamp: p.timestamp,
                                bytes: acc,
                            },
                        ),
                        stream_ids: ids,
                        timestamps: times,
                    },
                    Ok(None),
                )
            }
        },
    }
}

pub open spec fn outcome_view(r: Result<Option<(Bytes, u8, u32, u32)>, ChunkStreamError>) -> Result<
    Option<MessageView>,
    ChunkStreamError,
> {
    match r {
        Ok(Some((b, t, id, ts))) => Ok(Some((bytes_view(b), t, id, ts))),
        Ok(None) => Ok(None),
        Err(e) => Err(e),
    }
}

struct PartialMessage {
    length: u32,
    message_type: u8,
    message_stream_id: u32,
    timestamp: u32,
    bytes: BytesMut,
}

impl PartialMessage {
    spec fn view(self) -> PartialView {
        PartialView {
            length: self.length,
            message_type: self.message_type,
            message_stream_id: self.message_stream_id,
            timestamp: self.timestamp,
            bytes: bytes_mut_view(self.bytes),
        }
    }
}

/// Receives chunks and sorts them into the messages of their chunk streams.
pub struct ChunkMultiplexer {
    chunk_streams: HashMap<u32, PartialMessage>,
    stream_ids: HashMap<u32, u32>,
    timestamps: HashMap<u32, u32>,
}

impl View for ChunkMultiplexer {
    type V = MuxView;

    closed spec fn view(&self) -> MuxView {
        MuxView {
            partials: self.chunk_streams@.map_values(|p: PartialMessage| p.view()),
            stream_ids: self.stream_ids@,
            timestamps: self.timestamps@,
        }
    }
}

impl ChunkMultiplexer {
    pub open spec fn wf(&self) -> bool {
        mux_wf(self@)
    }

    pub fn new() -> (r: Self)
        ensures
            r@.partials == Map::<u32, PartialView>::empty(),
            r@.stream_ids == Map::<u32, u32>::empty(),
            r@.timestamps == Map::<u32, u32>::empty(),
            r.wf(),
    {
        let r = ChunkMultiplexer {
            chunk_streams: HashMap::new(),
            stream_ids: HashMap::new(),
            timestamps: HashMap::new(),
        };
        assert(r@.partials =~= Map::<u32, PartialView>::empty());
        r
    }

    /// The payload size of the chunk that follows `header`: the chunk size,
    /// or what its message still lacks when that is less. A chunk that
    /// belongs to no message carries nothing.
    pub fn payload_size(&self, header: &ChunkHeader, max_chunk_size: u32) -> (r: u32)
        requires
            self.wf(),
        ensures
            r == match pending(self@, *header) {
                Some(p) => crate::chunks::payload_size_spec(
                    max_chunk_size as int,
                    p.length - p.bytes.len(),
                ),
                None => 0,
            },
    {
        let cs_id = header.chunk_stream_id();
        let remaining: u32 = match self.chunk_streams.get(&cs_id) {
            Some(p) => {
                assert(self@.partials.contains_key(cs_id));
                (p.length as usize - bytes_mut_len(&p.bytes)) as u32
            },
            None => match (header.get_message_length(), header.get_message_type()) {
                (Some(length), Some(_)) => length,
                _ => 0,
            },
        };
        Chunk::payload_size(max_chunk_size, remaining)
    }

    /// Drops the partial message of a chunk stream, as an Abort message asks.
    pub fn abort(&mut self, cs_id: u32)
        requires
            old(self).wf(),
        ensures
            final(self).wf(),
            final(self)@ == (MuxView { partials: old(self)@.partials.remove(cs_id), ..old(self)@ }),
    {
        let ghost m = self@;
        self.chunk_streams.remove(&cs_id);
        assert(self@.partials =~= m.partials.remove(cs_id));
    }

    /// Adds a chunk to the message of its chunk stream. Gives the message
    /// back, with its type id and stream id, once its declared length is
    /// reached.
    pub fn receive_chunk(&mut self, chunk: Chunk) -> (r: Result<
        Option<(Bytes, u8, u32, u32)>,
        ChunkStreamError,
    >)
        requires
            old(self).wf(),
            length_fits(chunk.header),
        ensures
            final(self).wf(),
            (final(self)@, outcome_view(r)) == mux_step(
                old(self)@,
                chunk.header,
                bytes_view(chunk.payload),
            ),
    {
        let ghost m = self@;
        let cs_id = chunk.header.chunk_stream_id();
        let payload = bytes_as_slice(&chunk.payload);
        let partial = match self.chunk_streams.remove(&cs_id) {
            Some(p) => {
                assert(m.partials.contains_key(cs_id));
                p
            },
            None => match (chunk.header.get_message_length(), chunk.header.get_message_type()) {
                (Some(length), Some(message_type)) => {
                    let message_stream_id = match chunk.header.get_message_stream_id() {
                        Some(id) => id,
                        None => match self.stream_ids.get(&cs_id) {
                            Some(id) => *id,
                            None => 0,
                        },
                    };
                    let time = chunk.header.time();
                    let timestamp = match chunk.header.message_header {
                        MessageHeader::Type0 { .. } => time,
                        _ => match self.timestamps.get(&cs_id) {
                            Some(prev) => prev.wrapping_add(time),
                            None => time,
                        },
                    };
                    PartialMessage {
                        length,
                        message_type,
                        message_stream_id,
                        timestamp,
                        bytes: bytes_mut_new(),
                    }
                },
                _ => {
                    proof {
                        assert(self@.partials =~= m.partials);
                    }
                    return Ok(None);
                },
            },
        };
        assert(pending(m, chunk.header) == Some(partial.view()));
        self.stream_ids.insert(cs_id, partial.message_stream_id);
        self.timestamps.insert(cs_id, partial.timestamp);
        let ghost rest = m.partials.remove(cs_id);
        assert(self@.partials =~= rest);
        let accumulated = bytes_mut_len(&partial.bytes);
        if payload.len() > partial.length as usize - accumulated {
            return Err(ChunkStreamError::MessageOverflow(cs_id));
        }
        let PartialMessage { length, message_type, message_stream_id, timestamp, mut bytes } =
            partial;
        bytes_mut_extend(&mut bytes, payload);
        if bytes_mut_len(&bytes) == length as usize {
            Ok(Some((bytes_mut_freeze(bytes), message_type, message_stream_id, timestamp)))
        } else {
            let updated = PartialMessage { length, message_type, message_stream_id, timestamp, bytes };
            self.chunk_streams.insert(cs_id, updated);
            assert(self@.partials =~= rest.insert(cs_id, updated.view()));
            Ok(None)
        }
    }
}

/// Feeds chunks, given as header and payload, to the multiplexer in order:
/// the final state and the outcome of each chunk.
pub open spec fn feed(m: MuxView, chunks: Seq<(ChunkHeader, Seq<u8>)>) -> (
    MuxView,
    Seq<Result<Option<MessageView>, ChunkStreamError>>,
)
    decreases chunks.len(),
{
    if chunks.len() == 0 {
        (m, seq![])
    } else {
        let (next, out) = mux_step(m, chunks[0].0, chunks[0].1);
        let (last, outs) = feed(next, chunks.drop_first());
        (last, seq![out] + outs)
    }
}

/// The payloads of the chunks, one after the other.
pub open spec fn payloads(chunks: Seq<(ChunkHeader, Seq<u8>)>) -> Seq<u8>
    decreases chunks.len(),
{
    if chunks.len() == 0 {
        seq![]
    } else {
        chunks[0].1 + payloads(chunks.drop_first())
    }
}

/// The chunks all belong to chunk stream `cs`, and a chunk after the first
/// carries at least one byte when it is the last.
pub open spec fn one_stream(chunks: Seq<(ChunkHeader, Seq<u8>)>, cs: u32) -> bool {
    &&& forall|i: int|
        0 <= i < chunks.len() ==> (#[trigger] chunks[i]).0.basic_header.chunk_stream_id == cs
    &&& chunks.len() > 1 ==> chunks.last().1.len() > 0
}

proof fn lemma_completes(m: MuxView, p: PartialView, chunks: Seq<(ChunkHeader, Seq<u8>)>, cs: u32)
    requires
        chunks.len() > 0,
        one_stream(chunks, cs),
        pending(m, chunks[0].0) == Some(p),
        p.bytes.len() + payloads(chunks).len() == p.length,
    ensures
        feed(m, chunks).1.len() == chunks.len(),
        forall|i: int|
            0 <= i < chunks.len() - 1 ==> #[trigger] feed(m, chunks).1[i] == Ok::<
                Option<MessageView>,
                ChunkStreamError,
            >(None),
        feed(m, chunks).1.last() == Ok::<Option<MessageView>, ChunkStreamError>(
            Some((p.bytes + payloads(chunks), p.message_type, p.message_stream_id, p.timestamp)),
        ),
        !feed(m, chunks).0.partials.contains_key(cs),
    decreases chunks.len(),
{
    let rest = chunks.drop_first();
    let (next, out) = mux_step(m, chunks[0].0, chunks[0].1);
    let acc = p.bytes + chunks[0].1;
    assert(chunks[0].0.basic_header.chunk_stream_id == cs);
    if chunks.len() == 1 {
        assert(payloads(rest) =~= Seq::<u8>::empty());
        assert(payloads(chunks) =~= chunks[0].1);
        assert(feed(next, rest).1 =~= Seq::<Result<Option<MessageView>, ChunkStreamError>>::empty());
        assert(feed(m, chunks).1 =~= seq![out]);
    } else {
        lemma_payloads_last(rest);
        assert(payloads(chunks) =~= chunks[0].1 + payloads(rest));
        let q = PartialView {
            length: p.length,
            message_type: p.message_type,
            message_stream_id: p.message_stream_id,
            timestamp: p.timestamp,
            bytes: acc,
        };
        assert(next.partials.contains_key(cs) && next.partials[cs] == q);
        assert(rest[0] == chunks[1]);
        assert forall|i: int| 0 <= i < rest.len() implies (#[trigger] rest[i]).0.basic_header.chunk_stream_id
            == cs by {
            assert(rest[i] == chunks[i + 1]);
        }
        assert(rest.last() == chunks.last());
        lemma_completes(next, q, rest, cs);
        assert(acc + payloads(rest) =~= p.bytes + payloads(chunks));
        let outs = feed(next, rest).1;
        assert(feed(m, chunks).1 == seq![out] + outs);
        assert forall|i: int| 0 <= i < chunks.len() - 1 implies #[trigger] feed(m, chunks).1[i]
            == Ok::<Option<MessageView>, ChunkStreamError>(None) by {
            if i > 0 {
                assert(feed(m, chunks).1[i] == outs[i - 1]);
            }
        }
    }
}

proof fn lemma_payloads_last(chunks: Seq<(ChunkHeader, Seq<u8>)>)
    requires
        chunks.len() > 0,
    ensures
        payloads(chunks).len() >= chunks.last().1.len(),
    decreases chunks.len(),
{
    if chunks.len() > 1 {
        lemma_payloads_last(chunks.drop_first());
        assert(chunks.drop_first().last() == chunks.last());
    }
}

/// Chunks of one chunk stream whose payloads add up to the length that the
/// first declares: the multiplexer gives nothing until the last, and then
/// the payloads one after the other, with the first chunk's type id.
pub proof fn lemma_message_reassembly(m: MuxView, chunks: Seq<(ChunkHeader, Seq<u8>)>)
    requires
        chunks.len() > 0,
        one_stream(chunks, chunks[0].0.basic_header.chunk_stream_id),
        !m.partials.contains_key(chunks[0].0.basic_header.chunk_stream_id),
        message_length_of(chunks[0].0) matches Some(l) && l == payloads(chunks).len(),
        message_type_of(chunks[0].0) is Some,
    ensures
        feed(m, chunks).1.len() == chunks.len(),
        forall|i: int|
            0 <= i < chunks.len() - 1 ==> #[trigger] feed(m, chunks).1[i] == Ok::<
                Option<MessageView>,
                ChunkStreamError,
            >(None),
        feed(m, chunks).1.last() matches Ok(Some((bytes, type_id, _, _))) && bytes == payloads(chunks)
            && Some(type_id) == message_type_of(chunks[0].0),
{
    let p = pending(m, chunks[0].0)->0;
    lemma_completes(m, p, chunks, chunks[0].0.basic_header.chunk_stream_id);
    assert(p.bytes + payloads(chunks) =~= payloads(chunks));
}

/// `payload` cut into chunks of `max` bytes, the last one shorter if need
/// be: the first chunk with header `first`, the others with header `next`.
pub open spec fn fragment(payload: Seq<u8>, max: nat, first: ChunkHeader, next: ChunkHeader) -> Seq<
    (ChunkHeader, Seq<u8>),
>
    decreases payload.len(),
{
    if max == 0 || payload.len() <= max {
        seq![(first, payload)]
    } else {
        seq![(first, payload.subrange(0, max as int))] + fragment(
            payload.subrange(max as int, payload.len() as int),
            max,
            next,
            next,
        )
    }
}

proof fn lemma_fragment(payload: Seq<u8>, max: nat, first: ChunkHeader, next: ChunkHeader, cs: u32)
    requires
        first.basic_header.chunk_stream_id == cs,
        next.basic_header.chunk_stream_id == cs,
    ensures
        fragment(payload, max, first, next).len() > 0,
        fragment(payload, max, first, next)[0].0 == first,
        payloads(fragment(payload, max, first, next)) == payload,
        forall|i: int|
            0 <= i < fragment(payload, max, first, next).len() ==> (#[trigger] fragment(
                payload,
                max,
                first,
                next,
            )[i]).0.basic_header.chunk_stream_id == cs,
        fragment(payload, max, first, next).len() > 1 ==> fragment(
            payload,
            max,
            first,
            next,
        ).last().1.len() > 0,
        payload.len() > 0 ==> fragment(payload, max, first, next).last().1.len() > 0,
    decreases payload.len(),
{
    let f = fragment(payload, max, first, next);
    if max == 0 || payload.len() <= max {
        assert(payloads(f.drop_first()) =~= Seq::<u8>::empty());
        assert(payloads(f) =~= payload);
    } else {
        let head = payload.subrange(0, max as int);
        let tail = payload.subrange(max as int, payload.len() as int);
        let rest = fragment(tail, max, next, next);
        lemma_fragment(tail, max, next, next, cs);
        assert(f.drop_first() =~= rest);
        assert(payloads(f) =~= payload);
        assert forall|i: int| 0 <= i < f.len() implies (#[trigger] f[i]).0.basic_header.chunk_stream_id
            == cs by {
            if i > 0 {
                assert(f[i] == rest[i - 1]);
            }
        }
        assert(f.last() == rest.last());
    }
}

/// A payload cut into chunks of one chunk stream, the first declaring its
/// length and type, and fed in order: the multiplexer gives exactly the
/// payload back, at the last chunk and not before.
pub proof fn lemma_fragment_round_trip(
    m: MuxView,
    payload: Seq<u8>,
    max: nat,
    first: ChunkHeader,
    next: ChunkHeader,
)
    requires
        first.basic_header.chunk_stream_id == next.basic_header.chunk_stream_id,
        !m.partials.contains_key(first.basic_header.chunk_stream_id),
        message_length_of(first) matches Some(l) && l == payload.len(),
        message_type_of(first) is Some,
    ensures
        ({
            let chunks = fragment(payload, max, first, next);
            &&& feed(m, chunks).1.len() == chunks.len()
            &&& forall|i: int|
                0 <= i < chunks.len() - 1 ==> #[trigger] feed(m, chunks).1[i] == Ok::<
                    Option<MessageView>,
                    ChunkStreamError,
                >(None)
            &&& feed(m, chunks).1.last() matches Ok(Some((bytes, _, _, _))) && bytes == payload
        }),
{
    let cs = first.basic_header.chunk_stream_id;
    lemma_fragment(payload, max, first, next, cs);
    lemma_message_reassembly(m, fragment(payload, max, first, next));
}

} // verus!
