use bytes::Bytes;
use castelia_rtmp::chunks::chunk_mux::{ChunkMultiplexer, ChunkStreamError};
use castelia_rtmp::chunks::header::{
    BasicHeader, ChunkHeader, MessageHeader, ParseChunkHeaderError,
};
use castelia_rtmp::chunks::Chunk;
use castelia_rtmp::wire::read_be24;

#[test]
fn test_parse_header_one_byte() {
    let bytes = [0b01_000011];
    let (header, n) = BasicHeader::parse(&bytes).expect("should return header");
    assert_eq!(header.chunk_type(), 1);
    assert_eq!(header.chunk_stream_id(), 3);
    assert_eq!(n, 1);
}

#[test]
fn test_parse_header_two_bytes() {
    let bytes = [0b10 << 6, 200];
    let (header, n) = BasicHeader::parse(&bytes).expect("should return header");
    assert_eq!(header.chunk_type(), 2);
    assert_eq!(header.chunk_stream_id(), 264);
    assert_eq!(n, 2);
}

#[test]
fn test_parse_header_three_bytes() {
    // 365 = 0x01 * 256 + 0x2d + 64
    let bytes = [0x01, 0x2d, 0x1];
    let (header, n) = BasicHeader::parse(&bytes).expect("should return header");
    assert_eq!(header.chunk_type(), 0);
    assert_eq!(header.chunk_stream_id(), 365);
    assert_eq!(n, 3);
}

#[test]
fn basic_header_lengths() {
    assert_eq!(BasicHeader::wire_len(0b11_000000), 2);
    assert_eq!(BasicHeader::wire_len(0b00_000001), 3);
    assert_eq!(BasicHeader::wire_len(0b00_111111), 1);
    assert_eq!(BasicHeader::parse(&[0x00]), Err(ParseChunkHeaderError::ReadError));
    assert_eq!(BasicHeader::parse(&[]), Err(ParseChunkHeaderError::ReadError));
}

#[test]
fn test_3be_bytes_to_u32() {
    let expected: u32 = rand::random();
    let bytes = &expected.to_be_bytes()[1..];
    let result = read_be24(bytes, 0);
    assert_eq!(result & 0xFFFFFF, expected & 0xFFFFFF);
}

#[test]
fn test_parse_message_header_type3() {
    let bytes = [0x01, 0x2d, 0x1];
    let header = MessageHeader::parse(&bytes, &3).expect("should return header");
    assert_eq!(header, MessageHeader::Type3);
    assert!(!header.has_extended_timestamp());
}

#[test]
fn test_parse_message_header_type2() {
    let bytes = [0x12, 0x34, 0x56];
    let header = MessageHeader::parse(&bytes, &2).expect("should return header");
    assert_eq!(header, MessageHeader::Type2 { timestamp_delta: 0x123456 });
    assert!(!header.has_extended_timestamp());
}

#[test]
fn test_parse_message_header_type1() {
    let bytes = [
        0x12, 0x34, 0x56, // delta
        0x11, 0x22, 0x33, // length
        0xcd, // message type id
    ];
    let header = MessageHeader::parse(&bytes, &1).expect("should return header");
    assert_eq!(
        header,
        MessageHeader::Type1 {
            timestamp_delta: 0x123456,
            message_length: 0x112233,
            message_type_id: 0xcd
        }
    );
    assert!(!header.has_extended_timestamp());
}

#[test]
fn message_header_type0_stream_id_is_little_endian() {
    let bytes = [
        0x12, 0x34, 0x56, // timestamp
        0x11, 0x22, 0x33, // length
        0xcd, // message type id
        0x10, 0xab, 0xcd, 0xef, // message stream id, little-endian
    ];
    let header = MessageHeader::parse(&bytes, &0).expect("should return header");
    assert_eq!(
        header,
        MessageHeader::Type0 {
            timestamp: 0x123456,
            message_length: 0x112233,
            message_type_id: 0xcd,
            message_stream_id: 0xefcdab10
        }
    );
    assert!(!header.has_extended_timestamp());
}

#[test]
fn message_header_errors() {
    assert_eq!(MessageHeader::parse(&[0x12, 0x34], &2), Err(ParseChunkHeaderError::ReadError));
    assert_eq!(MessageHeader::parse(&[], &4), Err(ParseChunkHeaderError::InvalidChunkType(4)));
    assert_eq!(MessageHeader::wire_len(0), Ok(11));
    assert_eq!(MessageHeader::wire_len(1), Ok(7));
    assert_eq!(MessageHeader::wire_len(2), Ok(3));
    assert_eq!(MessageHeader::wire_len(3), Ok(0));
    assert_eq!(MessageHeader::wire_len(9), Err(ParseChunkHeaderError::InvalidChunkType(9)));
}

#[test]
fn chunk_header_with_extended_timestamp() {
    let bytes = [
        0x03, // type 0, chunk stream 3
        0xff, 0xff, 0xff, // timestamp: extended
        0x00, 0x00, 0x10, // length 16
        0x14, // command
        0x01, 0x00, 0x00, 0x00, // stream id 1
        0x01, 0x02, 0x03, 0x04, // extended timestamp
        0xaa, // payload
    ];
    let (header, n) = ChunkHeader::parse(&bytes).expect("should return header");
    assert_eq!(n, 16);
    assert!(header.message_header.has_extended_timestamp());
    assert_eq!(header.extended_timestamp, Some(0x01020304));
    assert_eq!(header.chunk_stream_id(), 3);
    assert_eq!(header.get_message_length(), Some(16));
    assert_eq!(header.get_message_type(), Some(0x14));
    assert_eq!(header.get_message_stream_id(), Some(1));
    assert_eq!(ChunkHeader::parse(&bytes[..14]), Err(ParseChunkHeaderError::ReadError));
}

#[test]
fn chunk_header_type3_is_one_byte() {
    let (header, n) = ChunkHeader::parse(&[0xc4, 0x99]).expect("should return header");
    assert_eq!(n, 1);
    assert_eq!(header.message_header, MessageHeader::Type3);
    assert_eq!(header.extended_timestamp, None);
    assert_eq!(header.get_message_length(), None);
    assert_eq!(header.get_message_type(), None);
}

fn header(cs: u32, message_header: MessageHeader) -> ChunkHeader {
    let chunk_type = match message_header {
        MessageHeader::Type0 { .. } => 0,
        MessageHeader::Type1 { .. } => 1,
        MessageHeader::Type2 { .. } => 2,
        MessageHeader::Type3 => 3,
    };
    ChunkHeader {
        basic_header: BasicHeader { chunk_type, chunk_stream_id: cs },
        message_header,
        extended_timestamp: None,
    }
}

fn type0(cs: u32, length: u32, type_id: u8, stream_id: u32) -> ChunkHeader {
    header(
        cs,
        MessageHeader::Type0 {
            timestamp: 0,
            message_length: length,
            message_type_id: type_id,
            message_stream_id: stream_id,
        },
    )
}

fn chunk(header: ChunkHeader, payload: &[u8]) -> Chunk {
    Chunk { header, payload: Bytes::copy_from_slice(payload) }
}

#[test]
fn payload_size_is_the_smaller_of_chunk_size_and_remaining() {
    assert_eq!(Chunk::payload_size(128, 300), 128);
    assert_eq!(Chunk::payload_size(128, 44), 44);
    assert_eq!(Chunk::payload_size(128, 128), 128);
}

#[test]
fn message_split_at_chunk_size_takes_ceiling_chunks() {
    let mut mux = ChunkMultiplexer::new();
    let payload: Vec<u8> = (0..300u32).map(|i| i as u8).collect();
    let first = type0(5, 300, 9, 1);
    let mut sizes = vec![];
    let mut offset = 0usize;
    let mut h = first;
    let mut result = None;
    loop {
        let n = mux.payload_size(&h, 128) as usize;
        sizes.push(n);
        let r = mux.receive_chunk(chunk(h, &payload[offset..offset + n])).unwrap();
        offset += n;
        if r.is_some() {
            result = r;
            break;
        }
        h = header(5, MessageHeader::Type3);
    }
    assert_eq!(sizes, vec![128, 128, 44]);
    let (bytes, type_id, stream_id, timestamp) = result.unwrap();
    assert_eq!(&bytes[..], &payload[..]);
    assert_eq!(type_id, 9);
    assert_eq!(stream_id, 1);
    assert_eq!(timestamp, 0);
}

#[test]
fn interleaved_chunk_streams_reassemble_independently() {
    let mut mux = ChunkMultiplexer::new();
    assert_eq!(mux.receive_chunk(chunk(type0(4, 4, 8, 1), &[1, 2])), Ok(None));
    assert_eq!(mux.receive_chunk(chunk(type0(6, 3, 9, 1), &[7])), Ok(None));
    let done = mux.receive_chunk(chunk(header(4, MessageHeader::Type3), &[3, 4])).unwrap();
    assert_eq!(done, Some((Bytes::from_static(&[1, 2, 3, 4]), 8, 1, 0)));
    let done = mux
        .receive_chunk(chunk(header(6, MessageHeader::Type2 { timestamp_delta: 0 }), &[8, 9]))
        .unwrap();
    assert_eq!(done, Some((Bytes::from_static(&[7, 8, 9]), 9, 1, 0)));
}

#[test]
fn chunk_without_length_or_partial_is_dropped() {
    let mut mux = ChunkMultiplexer::new();
    assert_eq!(mux.receive_chunk(chunk(header(3, MessageHeader::Type3), &[1])), Ok(None));
    assert_eq!(mux.payload_size(&header(3, MessageHeader::Type3), 128), 0);
}

#[test]
fn overflowing_chunk_is_rejected() {
    let mut mux = ChunkMultiplexer::new();
    assert_eq!(mux.receive_chunk(chunk(type0(3, 2, 8, 0), &[1])), Ok(None));
    assert_eq!(
        mux.receive_chunk(chunk(header(3, MessageHeader::Type3), &[2, 3])),
        Err(ChunkStreamError::MessageOverflow(3))
    );
}

#[test]
fn type1_opening_inherits_stream_id() {
    let mut mux = ChunkMultiplexer::new();
    let done = mux.receive_chunk(chunk(type0(3, 1, 20, 7), &[1])).unwrap();
    assert_eq!(done, Some((Bytes::from_static(&[1]), 20, 7, 0)));
    let h = header(
        3,
        MessageHeader::Type1 { timestamp_delta: 0, message_length: 1, message_type_id: 8 },
    );
    let done = mux.receive_chunk(chunk(h, &[2])).unwrap();
    assert_eq!(done, Some((Bytes::from_static(&[2]), 8, 7, 0)));
}

#[test]
fn zero_length_message_completes_at_once() {
    let mut mux = ChunkMultiplexer::new();
    let done = mux.receive_chunk(chunk(type0(3, 0, 18, 0), &[])).unwrap();
    assert_eq!(done, Some((Bytes::new(), 18, 0, 0)));
}

#[test]
fn timestamps_are_absolute_then_deltas() {
    let mut mux = ChunkMultiplexer::new();
    let mut first = type0(3, 1, 9, 1);
    first.message_header = MessageHeader::Type0 {
        timestamp: 1000,
        message_length: 1,
        message_type_id: 9,
        message_stream_id: 1,
    };
    let done = mux.receive_chunk(chunk(first, &[1])).unwrap();
    assert_eq!(done, Some((Bytes::from_static(&[1]), 9, 1, 1000)));
    let h = header(
        3,
        MessageHeader::Type1 { timestamp_delta: 40, message_length: 1, message_type_id: 9 },
    );
    let done = mux.receive_chunk(chunk(h, &[2])).unwrap();
    assert_eq!(done, Some((Bytes::from_static(&[2]), 9, 1, 1040)));
    let mut h = header(
        3,
        MessageHeader::Type1 {
            timestamp_delta: 0xFF_FFFF,
            message_length: 1,
            message_type_id: 9,
        },
    );
    h.extended_timestamp = Some(0x0100_0000);
    let done = mux.receive_chunk(chunk(h, &[3])).unwrap();
    assert_eq!(done, Some((Bytes::from_static(&[3]), 9, 1, 1040 + 0x0100_0000)));
}
