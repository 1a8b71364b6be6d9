//! Chunk headers: the basic header, the four message header types and the
//! extended timestamp.
use vstd::prelude::*;
use vstd::slice::slice_subrange;

use crate::wire::{be24, be32, le32, read_be24, read_be32, read_le32};

verus! {

/// The value of a 24-bit timestamp field that announces an extended timestamp.
pub const EXTENDED_TIMESTAMP_MARK: u32 = 0xFF_FFFF;

#[derive(Debug, PartialEq, Eq, Clone, Copy, Structural)]
pub enum ParseChunkHeaderError {
    /// The bytes end before the header does.
    ReadError,
    InvalidChunkType(u8),
}

#[derive(Debug, PartialEq, Eq, Clone, Copy, Structural)]
pub struct BasicHeader {
    pub chunk_type: u8,
    pub chunk_stream_id: u32,
}

#[derive(Debug, PartialEq, Eq, Clone, Copy, Structural)]
pub enum MessageHeader {
    Type0 { timestamp: u32, message_length: u32, message_type_id: u8, message_stream_id: u32 },
    Type1 { timestamp_delta: u32, message_length: u32, message_type_id: u8 },
    Type2 { timestamp_delta: u32 },
    Type3,
}

#[derive(Debug, PartialEq, Eq, Clone, Copy, Structural)]
pub struct ChunkHeader {
    pub basic_header: BasicHeader,
    pub message_header: MessageHeader,
    pub extended_timestamp: Option<u32>,
}

/// Length on the wire of the basic header whose first byte is `b`.
pub open spec fn basic_header_len(b: u8) -> int {
    if b % 64 == 0 {
        2
    } else if b % 64 == 1 {
        3
    } else {
        1
    }
}

/// The basic header at the start of `s`, with its length.
pub open spec fn parse_basic_header(s: Seq<u8>) -> Result<(BasicHeader, int), ParseChunkHeaderError> {
    if s.len() < 1 || s.len() < basic_header_len(s[0]) {
        Err(ParseChunkHeaderError::ReadError)
    } else {
        let chunk_type = (s[0] / 64) as u8;
        let low = s[0] % 64;
        let id = if low == 0 {
            s[1] + 64
        } else if low == 1 {
            s[2] * 256 + s[1] + 64
        } else {
            low as int
        };
        Ok((BasicHeader { chunk_type, chunk_stream_id: id as u32 }, basic_header_len(s[0])))
    }
}

/// Length on the wire of the message header of a chunk type.
pub open spec fn message_header_len(chunk_type: u8) -> int {
    if chunk_type == 0 {
        11
    } else if chunk_type == 1 {
        7
    } else if chunk_type == 2 {
        3
    } else {
        0
    }
}

/// The message header of the given chunk type at the start of `s`.
pub open spec fn parse_message_header(s: Seq<u8>, chunk_type: u8) -> Result<
    MessageHeader,
    ParseChunkHeaderError,
> {
    if chunk_type > 3 {
        Err(ParseChunkHeaderError::InvalidChunkType(chunk_type))
    } else if s.len() < message_header_len(chunk_type) {
        Err(ParseChunkHeaderError::ReadError)
    } else if chunk_type == 0 {
        Ok(
            MessageHeader::Type0 {
                timestamp: be24(s, 0) as u32,
                message_length: be24(s, 3) as u32,
                message_type_id: s[6],
                message_stream_id: le32(s, 7) as u32,
            },
        )
    } else if chunk_type == 1 {
        Ok(
            MessageHeader::Type1 {
                timestamp_delta: be24(s, 0) as u32,
                message_length: be24(s, 3) as u32,
                message_type_id: s[6],
            },
        )
    } else if chunk_type == 2 {
        Ok(MessageHeader::Type2 { timestamp_delta: be24(s, 0) as u32 })
    } else {
        Ok(MessageHeader::Type3)
    }
}

/// The timestamp or timestamp delta field of a message header.
pub open spec fn timestamp_field(h: MessageHeader) -> Option<u32> {
    match h {
        MessageHeader::Type0 { timestamp, .. } => Some(timestamp),
        MessageHeader::Type1 { timestamp_delta, .. } => Some(timestamp_delta),
        MessageHeader::Type2 { timestamp_delta } => Some(timestamp_delta),
        MessageHeader::Type3 => None,
    }
}

/// The whole chunk header at the start of `s`, with its length.
pub open spec fn parse_chunk_header(s: Seq<u8>) -> Result<(ChunkHeader, int), ParseChunkHeaderError> {
    match parse_basic_header(s) {
        Err(e) => Err(e),
        Ok((basic, n)) => match parse_message_header(s.subrange(n, s.len() as int), basic.chunk_type) {
            Err(e) => Err(e),
            Ok(mh) => {
                let m = n + message_header_len(basic.chunk_type);
                if timestamp_field(mh) == Some(EXTENDED_TIMESTAMP_MARK) {
                    if s.len() < m + 4 {
                        Err(ParseChunkHeaderError::ReadError)
                    } else {
                        Ok(
                            (
                                ChunkHeader {
                                    basic_header: basic,
                                    message_header: mh,
                                    extended_timestamp: Some(be32(s, m) as u32),
                                },
                                m + 4,
                            ),
                        )
                    }
                } else {
                    Ok(
                        (
                            ChunkHeader {
                                basic_header: basic,
                                message_header: mh,
                                extended_timestamp: None,
                            },
                            m,
                        ),
                    )
                }
            },
        },
    }
}

impl BasicHeader {
    pub fn chunk_type(&self) -> (r: u8)
        ensures
            r == self.chunk_type,
    {
        self.chunk_type
    }

    pub fn chunk_stream_id(&self) -> (r: u32)
        ensures
            r == self.chunk_stream_id,
    {
        self.chunk_stream_id
    }

    /// How many bytes the basic header takes, given its first byte.
    pub fn wire_len(first_byte: u8) -> (r: usize)
        ensures
            r == basic_header_len(first_byte),
    {
        let low = first_byte % 64;
        if low == 0 {
            2
        } else if low == 1 {
            3
        } else {
            1
        }
    }

    /// Parses the 1 to 3 byte basic header at the start of `bytes`.
    pub fn parse(bytes: &[u8]) -> (r: Result<(BasicHeader, usize), ParseChunkHeaderError>)
        ensures
            match parse_basic_header(bytes@) {
                Ok((h, n)) => r == Ok::<(BasicHeader, usize), ParseChunkHeaderError>((h, n as usize)),
                Err(e) => r == Err::<(BasicHeader, usize), ParseChunkHeaderError>(e),
            },
    {
        if bytes.len() < 1 {
            return Err(ParseChunkHeaderError::ReadError);
        }
        let byte1 = bytes[0];
        let n = BasicHeader::wire_len(byte1);
        if bytes.len() < n {
            return Err(ParseChunkHeaderError::ReadError);
        }
        let low = byte1 % 64;
        let chunk_stream_id: u32 = if low == 0 {
            bytes[1] as u32 + 64
        } else if low == 1 {
            (bytes[2] as u32) * 256 + bytes[1] as u32 + 64
        } else {
            low as u32
        };
        Ok((BasicHeader { chunk_type: byte1 / 64, chunk_stream_id }, n))
    }
}

impl MessageHeader {
    /// Whether the timestamp field announces an extended timestamp.
    pub fn has_extended_timestamp(&self) -> (r: bool)
        ensures
            r == (timestamp_field(*self) == Some(EXTENDED_TIMESTAMP_MARK)),
    {
        match *self {
            MessageHeader::Type0 { timestamp, .. } => timestamp == EXTENDED_TIMESTAMP_MARK,
            MessageHeader::Type1 { timestamp_delta, .. } => timestamp_delta
                == EXTENDED_TIMESTAMP_MARK,
            MessageHeader::Type2 { timestamp_delta } => timestamp_delta == EXTENDED_TIMESTAMP_MARK,
            MessageHeader::Type3 => false,
        }
    }

    /// How many bytes the message header of a chunk type takes.
    pub fn wire_len(chunk_type: u8) -> (r: Result<usize, ParseChunkHeaderError>)
        ensures
            chunk_type <= 3 ==> r == Ok::<usize, ParseChunkHeaderError>(
                message_header_len(chunk_type) as usize,
            ),
            chunk_type > 3 ==> r == Err::<usize, ParseChunkHeaderError>(
                ParseChunkHeaderError::InvalidChunkType(chunk_type),
            ),
    {
        match chunk_type {
            0 => Ok(11),
            1 => Ok(7),
            2 => Ok(3),
            3 => Ok(0),
            e => Err(ParseChunkHeaderError::InvalidChunkType(e)),
        }
    }

    /// Parses the message header of the given chunk type at the start of
    /// `bytes`.
    pub fn parse(bytes: &[u8], chunk_type: &u8) -> (r: Result<MessageHeader, ParseChunkHeaderError>)
        ensures
            r == parse_message_header(bytes@, *chunk_type),
    {
        let n = MessageHeader::wire_len(*chunk_type)?;
        if bytes.len() < n {
            return Err(ParseChunkHeaderError::ReadError);
        }
        match *chunk_type {
            0 => Ok(
                MessageHeader::Type0 {
                    timestamp: read_be24(bytes, 0),
                    message_length: read_be24(bytes, 3),
                    message_type_id: bytes[6],
                    message_stream_id: read_le32(bytes, 7),
                },
            ),
            1 => Ok(
                MessageHeader::Type1 {
                    timestamp_delta: read_be24(bytes, 0),
                    message_length: read_be24(bytes, 3),
                    message_type_id: bytes[6],
                },
            ),
            2 => Ok(MessageHeader::Type2 { timestamp_delta: read_be24(bytes, 0) }),
            _ => Ok(MessageHeader::Type3),
        }
    }
}

impl ChunkHeader {
    /// Parses a whole chunk header at the start of `bytes` and returns it
    /// with the number of bytes it took.
    pub fn parse(bytes: &[u8]) -> (r: Result<(ChunkHeader, usize), ParseChunkHeaderError>)
        ensures
            match parse_chunk_header(bytes@) {
                Ok((h, n)) => r == Ok::<(ChunkHeader, usize), ParseChunkHeaderError>((h, n as usize)),
                Err(e) => r == Err::<(ChunkHeader, usize), ParseChunkHeaderError>(e),
            },
    {
        let (basic_header, n) = BasicHeader::parse(bytes)?;
        let rest = slice_subrange(bytes, n, bytes.len());
        let message_header = MessageHeader::parse(rest, &basic_header.chunk_type)?;
        let m = n + MessageHeader::wire_len(basic_header.chunk_type)?;
        if message_header.has_extended_timestamp() {
            if bytes.len() - m < 4 {
                return Err(ParseChunkHeaderError::ReadError);
            }
            let extended = read_be32(bytes, m);
            Ok(
                (
                    ChunkHeader { basic_header, message_header, extended_timestamp: Some(extended) },
                    m + 4,
                ),
            )
        } else {
            Ok((ChunkHeader { basic_header, message_header, extended_timestamp: None }, m))
        }
    }

    pub fn chunk_stream_id(&self) -> (r: u32)
        ensures
            r == self.basic_header.chunk_stream_id,
    {
        self.basic_header.chunk_stream_id
    }

    /// The message length that the header carries (types 0 and 1).
    pub fn get_message_length(&self) -> (r: Option<u32>)
        ensures
            r == message_length_of(*self),
    {
        match self.message_header {
            MessageHeader::Type0 { message_length, .. } => Some(message_length),
            MessageHeader::Type1 { message_length, .. } => Some(message_length),
            _ => None,
        }
    }

    /// The message type id that the header carries (types 0 and 1).
    pub fn get_message_type(&self) -> (r: Option<u8>)
        ensures
            r == message_type_of(*self),
    {
        match self.message_header {
            MessageHeader::Type0 { message_type_id, .. } => Some(message_type_id),
            MessageHeader::Type1 { message_type_id, .. } => Some(message_type_id),
            _ => None,
        }
    }

    /// The timestamp (type 0) or timestamp delta (types 1 and 2) of the
    /// header, the extended one when present.
    pub fn time(&self) -> (r: u32)
        ensures
            r == time_of(*self),
    {
        match self.extended_timestamp {
            Some(t) => t,
            None => match self.message_header {
                MessageHeader::Type0 { timestamp, .. } => timestamp,
                MessageHeader::Type1 { timestamp_delta, .. } => timestamp_delta,
                MessageHeader::Type2 { timestamp_delta } => timestamp_delta,
                MessageHeader::Type3 => 0,
            },
        }
    }

    /// The message stream id that the header carries (type 0 only).
    pub fn get_message_stream_id(&self) -> (r: Option<u32>)
        ensures
            r == stream_id_of(*self),
    {
        match self.message_header {
            MessageHeader::Type0 { message_stream_id, .. } => Some(message_stream_id),
            _ => None,
        }
    }
}

/// The timestamp, or timestamp delta, that a header carries: the extended
/// timestamp when there is one, else the 24-bit field, and 0 for type 3.
pub open spec fn time_of(h: ChunkHeader) -> u32 {
    match h.extended_timestamp {
        Some(t) => t,
        None => match timestamp_field(h.message_header) {
            Some(t) => t,
            None => 0,
        },
    }
}

pub open spec fn message_length_of(h: ChunkHeader) -> Option<u32> {
    match h.message_header {
        MessageHeader::Type0 { message_length, .. } => Some(message_length),
        MessageHeader::Type1 { message_length, .. } => Some(message_length),
        _ => None,
    }
}

pub open spec fn message_type_of(h: ChunkHeader) -> Option<u8> {
    match h.message_header {
        MessageHeader::Type0 { message_type_id, .. } => Some(message_type_id),
        MessageHeader::Type1 { message_type_id, .. } => Some(message_type_id),
        _ => None,
    }
}

pub open spec fn stream_id_of(h: ChunkHeader) -> Option<u32> {
    match h.message_header {
        MessageHeader::Type0 { message_stream_id, .. } => Some(message_stream_id),
        _ => None,
    }
}

} // verus!
