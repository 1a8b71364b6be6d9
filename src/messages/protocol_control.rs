//! Protocol control messages: chunk size, abort, acknowledgements and
//! bandwidth.
use vstd::prelude::*;

use crate::wire::{be32, read_be32};

verus! {

pub const SET_CHUNK_SIZE: u8 = 1;

pub const ABORT: u8 = 2;

pub const ACK: u8 = 3;

pub const WINDOW_ACK_SIZE: u8 = 5;

pub const SET_PEER_BANDWIDTH: u8 = 6;

/// Offset of the limit type in a Set Peer Bandwidth payload.
pub const LIMIT_TYPE_OFFSET: usize = 6;

#[derive(Debug, PartialEq, Eq, Clone, Copy, Structural)]
pub enum ParseError {
    InvalidMessageSize,
    InvalidMessageTypeId(u8),
}

#[derive(Debug, PartialEq, Eq, Clone, Copy, Structural)]
pub enum ProtolControlMessage {
    SetChunkSize(u32),
    /// The chunk stream whose partial message is to be dropped.
    Abort(u32),
    /// The sequence number: the bytes received so far.
    Ack(u32),
    AckWindowSize(u32),
    SetPeerBandwidth { limit_type: u8, window_size: u32 },
}

/// The protocol control message of type `id` with payload `s`.
pub open spec fn parse_protocol_control(s: Seq<u8>, id: u8) -> Result<
    ProtolControlMessage,
    ParseError,
> {
    if s.len() < 4 {
        Err(ParseError::InvalidMessageSize)
    } else {
        let data = be32(s, 0) as u32;
        if id == SET_CHUNK_SIZE {
            Ok(ProtolControlMessage::SetChunkSize(data))
        } else if id == ABORT {
            Ok(ProtolControlMessage::Abort(data))
        } else if id == ACK {
            Ok(ProtolControlMessage::Ack(data))
        } else if id == WINDOW_ACK_SIZE {
            Ok(ProtolControlMessage::AckWindowSize(data))
        } else if id == SET_PEER_BANDWIDTH {
            if s.len() <= LIMIT_TYPE_OFFSET {
                Err(ParseError::InvalidMessageSize)
            } else {
                Ok(
                    ProtolControlMessage::SetPeerBandwidth {
                        limit_type: s[LIMIT_TYPE_OFFSET as int],
                        window_size: data,
                    },
                )
            }
        } else {
            Err(ParseError::InvalidMessageTypeId(id))
        }
    }
}

impl ProtolControlMessage {
    /// Reads the big-endian 32-bit value that leads the payload, and the
    /// limit type of a Set Peer Bandwidth message.
    pub fn parse_message(buf: &[u8], message_type_id: &u8) -> (r: Result<Self, ParseError>)
        ensures
            r == parse_protocol_control(buf@, *message_type_id),
    {
        if buf.len() < 4 {
            return Err(ParseError::InvalidMessageSize);
        }
        let data = read_be32(buf, 0);
        match *message_type_id {
            SET_CHUNK_SIZE => Ok(Self::SetChunkSize(data)),
            ABORT => Ok(Self::Abort(data)),
            ACK => Ok(Self::Ack(data)),
            WINDOW_ACK_SIZE => Ok(Self::AckWindowSize(data)),
            SET_PEER_BANDWIDTH => {
                if buf.len() <= LIMIT_TYPE_OFFSET {
                    return Err(ParseError::InvalidMessageSize);
                }
                Ok(Self::SetPeerBandwidth { window_size: data, limit_type: buf[LIMIT_TYPE_OFFSET] })
            },
            _ => Err(ParseError::InvalidMessageTypeId(*message_type_id)),
        }
    }
}

} // verus!
