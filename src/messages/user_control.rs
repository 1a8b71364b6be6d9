//! User control messages: stream events and pings.
use vstd::prelude::*;

use crate::wire::{be16, be32, read_be16, read_be32};

verus! {

pub const USER_CONTROL_TYPE: u8 = 4;

#[derive(Debug, PartialEq, Eq, Clone, Copy, Structural)]
pub enum ParseError {
    InvalidEventType(u16),
    InvalidMessageSize,
}

#[derive(Debug, PartialEq, Eq, Clone, Copy, Structural)]
pub enum UserControlMessage {
    StreamBegin(u32),
    StreamEOF(u32),
    StreamDry(u32),
    SetBufferLength { message_stream_id: u32, buffer_size_in_millis: u32 },
    StreamIsRecord(u32),
    PingRequest(u32),
    PingRepsonse(u32),
}

/// The user control message with payload `s`: a 16-bit event type, a
/// 32-bit datum, and for Set Buffer Length a second 32-bit datum.
pub open spec fn parse_user_control(s: Seq<u8>) -> Result<UserControlMessage, ParseError> {
    if s.len() < 6 {
        Err(ParseError::InvalidMessageSize)
    } else {
        let event = be16(s, 0);
        let data = be32(s, 2) as u32;
        if event == 0 {
            Ok(UserControlMessage::StreamBegin(data))
        } else if event == 1 {
            Ok(UserControlMessage::StreamEOF(data))
        } else if event == 2 {
            Ok(UserControlMessage::StreamDry(data))
        } else if event == 3 {
            if s.len() < 10 {
                Err(ParseError::InvalidMessageSize)
            } else {
                Ok(
                    UserControlMessage::SetBufferLength {
                        message_stream_id: data,
                        buffer_size_in_millis: be32(s, 6) as u32,
                    },
                )
            }
        } else if event == 4 {
            Ok(UserControlMessage::StreamIsRecord(data))
        } else if event == 5 {
            Ok(UserControlMessage::PingRequest(data))
        } else if event == 6 {
            Ok(UserControlMessage::PingRepsonse(data))
        } else {
            Err(ParseError::InvalidEventType(event as u16))
        }
    }
}

impl UserControlMessage {
    pub fn parse_message(buf: &[u8]) -> (r: Result<Self, ParseError>)
        ensures
            r == parse_user_control(buf@),
    {
        if buf.len() < 6 {
            return Err(ParseError::InvalidMessageSize);
        }
        let event_type = read_be16(buf, 0);
        let data = read_be32(buf, 2);
        match event_type {
            0 => Ok(Self::StreamBegin(data)),
            1 => Ok(Self::StreamEOF(data)),
            2 => Ok(Self::StreamDry(data)),
            3 => {
                if buf.len() < 10 {
                    return Err(ParseError::InvalidMessageSize);
                }
                Ok(
                    Self::SetBufferLength {
                        message_stream_id: data,
                        buffer_size_in_millis: read_be32(buf, 6),
                    },
                )
            },
            4 => Ok(Self::StreamIsRecord(data)),
            5 => Ok(Self::PingRequest(data)),
            6 => Ok(Self::PingRepsonse(data)),
            _ => Err(ParseError::InvalidEventType(event_type)),
        }
    }
}

} // verus!
