//! The per-connection engine after the handshake: chunks in, messages out,
//! with the negotiated parameters kept up to date.
use vstd::prelude::*;

use crate::buffer::{bytes_as_slice, bytes_view};
use crate::chunks::chunk_mux::{
    length_fits, mux_step, pending, ChunkMultiplexer, ChunkStreamError, MuxView,
};
use crate::chunks::header::ChunkHeader;
use crate::chunks::{payload_size_spec, Chunk};
use crate::messages::protocol_control::ProtolControlMessage;
use crate::messages::{message_result_model, parse_message_spec, Message, ParseMessageError};
use crate::netconnection::{apply_message, NetConnection, NetConnectionView};

verus! {

/// A completed message: its type id, message stream id and timestamp, and
/// what it parsed to.
pub struct ReceivedMessage {
    pub message_type_id: u8,
    pub message_stream_id: u32,
    pub timestamp: u32,
    pub message: Result<Message, ParseMessageError>,
}

/// The multiplexer after a completed message: an Abort drops the partial
/// message of the chunk stream it names; anything else leaves it as it is.
pub open spec fn after_message(m: MuxView, message: Result<Message, ParseMessageError>) -> MuxView {
    match message {
        Ok(Message::Protocol(ProtolControlMessage::Abort(cs))) => MuxView {
            partials: m.partials.remove(cs),
            ..m
        },
        _ => m,
    }
}

/// The state of one connection: the chunk multiplexer and what has been
/// negotiated.
pub struct RTMPConnection {
    chunk_mux: ChunkMultiplexer,
    net_connection: NetConnection,
}

impl RTMPConnection {
    pub closed spec fn mux(&self) -> MuxView {
        self.chunk_mux@
    }

    pub closed spec fn negotiated(&self) -> NetConnectionView {
        self.net_connection@
    }

    pub closed spec fn wf(&self) -> bool {
        self.chunk_mux.wf()
    }

    pub fn new() -> (r: Self)
        ensures
            r.wf(),
            r.mux().partials.is_empty(),
            r.mux().stream_ids.is_empty(),
            r.negotiated().max_chunk_size == crate::chunks::DEFAULT_MAX_CHUNK_SIZE,
            r.negotiated().window_ack_size is None,
            r.negotiated().peer_bandwidth is None,
    {
        RTMPConnection { chunk_mux: ChunkMultiplexer::new(), net_connection: NetConnection::new() }
    }

    pub fn max_chunk_size(&self) -> (r: u32)
        ensures
            r == self.negotiated().max_chunk_size,
    {
        self.net_connection.max_chunk_size()
    }

    /// How many payload bytes follow `header` on the wire, at the chunk size
    /// negotiated so far.
    pub fn payload_size(&self, header: &ChunkHeader) -> (r: u32)
        requires
            self.wf(),
        ensures
            r == match pending(self.mux(), *header) {
                Some(p) => payload_size_spec(
                    self.negotiated().max_chunk_size as int,
                    p.length - p.bytes.len(),
                ),
                None => 0,
            },
    {
        self.chunk_mux.payload_size(header, self.net_connection.max_chunk_size())
    }

    /// Takes in one chunk. When it completes a message, parses the message,
    /// applies it to the negotiated state if it parsed (an Abort drops the
    /// partial message it names), and returns it.
    pub fn receive_chunk(&mut self, chunk: Chunk) -> (r: Result<
        Option<ReceivedMessage>,
        ChunkStreamError,
    >)
        requires
            old(self).wf(),
            length_fits(chunk.header),
        ensures
            final(self).wf(),
            match mux_step(old(self).mux(), chunk.header, bytes_view(chunk.payload)).1 {
                Err(e) => r == Err::<Option<ReceivedMessage>, ChunkStreamError>(e)
                    && final(self).negotiated() == old(self).negotiated() && final(self).mux()
                    == mux_step(old(self).mux(), chunk.header, bytes_view(chunk.payload)).0,
                Ok(None) => r matches Ok(None) && final(self).negotiated() == old(
                    self,
                ).negotiated() && final(self).mux() == mux_step(
                    old(self).mux(),
                    chunk.header,
                    bytes_view(chunk.payload),
                ).0,
                Ok(Some((payload, type_id, stream_id, timestamp))) => r matches Ok(Some(m))
                    && m.message_type_id == type_id && m.message_stream_id == stream_id
                    && m.timestamp == timestamp && message_result_model(
                    m.message,
                ) == parse_message_spec(payload, type_id) && final(self).negotiated() == match m.message {
                    Ok(msg) => apply_message(old(self).negotiated(), msg),
                    Err(_) => old(self).negotiated(),
                } && final(self).mux() == after_message(
                    mux_step(old(self).mux(), chunk.header, bytes_view(chunk.payload)).0,
                    m.message,
                ),
            },
    {
        let completed = self.chunk_mux.receive_chunk(chunk)?;
        match completed {
            None => Ok(None),
            Some((payload, message_type_id, message_stream_id, timestamp)) => {
                let message = Message::parse_message(bytes_as_slice(&payload), message_type_id);
                if let Ok(m) = &message {
                    self.net_connection.handle_message(m);
                    if let Message::Protocol(ProtolControlMessage::Abort(cs_id)) = m {
                        self.chunk_mux.abort(*cs_id);
                    }
                }
                Ok(
                    Some(
                        ReceivedMessage { message_type_id, message_stream_id, timestamp, message },
                    ),
                )
            },
        }
    }
}

} // verus!
