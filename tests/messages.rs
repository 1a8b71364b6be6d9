use castelia_rtmp::amf::{AMF0Value, CastError, DecodeError};
use castelia_rtmp::messages::command::{CommandMessage, ParseError};
use castelia_rtmp::messages::protocol_control::{self, ProtolControlMessage};
use castelia_rtmp::messages::user_control::{self, UserControlMessage};
use castelia_rtmp::messages::{Message, ParseMessageError};
use castelia_rtmp::netconnection::{NetConnection, NetConnectionCommandType};
use castelia_rtmp::netstream::NetStreamCommand;

fn amf_string(s: &str) -> Vec<u8> {
    [&[0x02u8][..], &(s.len() as u16).to_be_bytes(), s.as_bytes()].concat()
}

fn amf_number(x: f64) -> Vec<u8> {
    [&[0x00u8][..], &x.to_be_bytes()].concat()
}

fn amf_bool(b: bool) -> Vec<u8> {
    vec![0x01, b as u8]
}

fn command(name: &str, transaction_id: f64, rest: &[u8]) -> Vec<u8> {
    [amf_string(name), amf_number(transaction_id), vec![0x05], rest.to_vec()].concat()
}

#[test]
fn protocol_control_messages() {
    let buf = [0x00, 0x00, 0x10, 0x00, 0xaa, 0xbb, 0x02];
    assert_eq!(
        ProtolControlMessage::parse_message(&buf, &1),
        Ok(ProtolControlMessage::SetChunkSize(4096))
    );
    assert_eq!(ProtolControlMessage::parse_message(&buf, &2), Ok(ProtolControlMessage::Abort(4096)));
    assert_eq!(ProtolControlMessage::parse_message(&buf, &3), Ok(ProtolControlMessage::Ack(4096)));
    assert_eq!(
        ProtolControlMessage::parse_message(&buf, &5),
        Ok(ProtolControlMessage::AckWindowSize(4096))
    );
    assert_eq!(
        ProtolControlMessage::parse_message(&buf, &6),
        Ok(ProtolControlMessage::SetPeerBandwidth { limit_type: 0x02, window_size: 4096 })
    );
    assert_eq!(
        ProtolControlMessage::parse_message(&buf, &7),
        Err(protocol_control::ParseError::InvalidMessageTypeId(7))
    );
}

#[test]
fn short_protocol_control_messages() {
    assert_eq!(
        ProtolControlMessage::parse_message(&[0, 0, 1], &1),
        Err(protocol_control::ParseError::InvalidMessageSize)
    );
    assert_eq!(
        ProtolControlMessage::parse_message(&[0, 0, 1, 0, 2, 3], &6),
        Err(protocol_control::ParseError::InvalidMessageSize)
    );
}

#[test]
fn user_control_messages() {
    let with = |event: u16, data: u32| [&event.to_be_bytes()[..], &data.to_be_bytes()[..]].concat();
    assert_eq!(UserControlMessage::parse_message(&with(0, 1)), Ok(UserControlMessage::StreamBegin(1)));
    assert_eq!(UserControlMessage::parse_message(&with(1, 2)), Ok(UserControlMessage::StreamEOF(2)));
    assert_eq!(UserControlMessage::parse_message(&with(2, 3)), Ok(UserControlMessage::StreamDry(3)));
    assert_eq!(
        UserControlMessage::parse_message(&with(4, 5)),
        Ok(UserControlMessage::StreamIsRecord(5))
    );
    assert_eq!(UserControlMessage::parse_message(&with(5, 6)), Ok(UserControlMessage::PingRequest(6)));
    assert_eq!(UserControlMessage::parse_message(&with(6, 7)), Ok(UserControlMessage::PingRepsonse(7)));
    assert_eq!(
        UserControlMessage::parse_message(&with(9, 7)),
        Err(user_control::ParseError::InvalidEventType(9))
    );
    assert_eq!(
        UserControlMessage::parse_message(&[0, 0, 0]),
        Err(user_control::ParseError::InvalidMessageSize)
    );
}

#[test]
fn set_buffer_length_reads_the_duration_after_the_stream_id() {
    let buf = [0x00, 0x03, 0, 0, 0, 1, 0, 0, 0x0b, 0xb8];
    assert_eq!(
        UserControlMessage::parse_message(&buf),
        Ok(UserControlMessage::SetBufferLength { message_stream_id: 1, buffer_size_in_millis: 3000 })
    );
    assert_eq!(
        UserControlMessage::parse_message(&buf[..8]),
        Err(user_control::ParseError::InvalidMessageSize)
    );
}

#[test]
fn connect_is_a_netconnection_command() {
    let buf = command("connect", 1.0, &[]);
    assert_eq!(
        CommandMessage::parse_message(&buf, &20),
        Ok(CommandMessage::NetConnectionCommand {
            command_type: NetConnectionCommandType::Connect,
            transaction_id: 1.0f64.to_bits(),
            command_object: AMF0Value::Null,
        })
    );
}

#[test]
fn unknown_verb_is_a_call() {
    let buf = command("releaseStream", 2.0, &amf_string("key"));
    assert_eq!(
        CommandMessage::parse_message(&buf, &20),
        Ok(CommandMessage::NetConnectionCommand {
            command_type: NetConnectionCommandType::Call("releaseStream".to_string()),
            transaction_id: 2.0f64.to_bits(),
            command_object: AMF0Value::Null,
        })
    );
}

#[test]
fn netconnection_names() {
    assert_eq!(NetConnectionCommandType::from("close".to_string()), NetConnectionCommandType::Close);
    assert_eq!(
        NetConnectionCommandType::from("createStream".to_string()),
        NetConnectionCommandType::CreateStream
    );
}

#[test]
fn publish_carries_the_stream_key() {
    let args = [amf_string("stream-key"), amf_string("live")].concat();
    let buf = command("publish", 5.0, &args);
    assert_eq!(
        CommandMessage::parse_message(&buf, &20),
        Ok(CommandMessage::NetStreamCommand {
            command: NetStreamCommand::Publish {
                publishing_name: "stream-key".to_string(),
                publishing_type: "live".to_string(),
            },
            transaction_id: 5.0f64.to_bits(),
            command_object: AMF0Value::Null,
        })
    );
}

#[test]
fn netstream_verbs() {
    let play = [amf_string("s"), amf_number(-2.0), amf_number(-1.0), amf_bool(true)].concat();
    assert_eq!(
        NetStreamCommand::parse("play", &play),
        Ok(NetStreamCommand::Play {
            stream_name: "s".to_string(),
            start: (-2.0f64).to_bits(),
            duration: (-1.0f64).to_bits(),
            reset: true,
        })
    );
    assert_eq!(
        NetStreamCommand::parse("play2", &[0x05]),
        Ok(NetStreamCommand::Play2 { parameters: AMF0Value::Null })
    );
    assert_eq!(
        NetStreamCommand::parse("deleteStream", &amf_number(3.7)),
        Ok(NetStreamCommand::DeleteStream { stream_id: 3 })
    );
    assert_eq!(
        NetStreamCommand::parse("closeStream", &amf_number(1.0)),
        Ok(NetStreamCommand::CloseStream { stream_id: 1 })
    );
    assert_eq!(
        NetStreamCommand::parse("receiveAudio", &amf_bool(false)),
        Ok(NetStreamCommand::ReceiveAudio { should_receive: false })
    );
    assert_eq!(
        NetStreamCommand::parse("receiveVideo", &amf_bool(true)),
        Ok(NetStreamCommand::ReceiveVideo { should_receive: true })
    );
    assert_eq!(
        NetStreamCommand::parse("seek", &amf_number(1000.0)),
        Ok(NetStreamCommand::Seek { milliseconds: 1000.0f64.to_bits() })
    );
    let pause = [amf_bool(true), amf_number(10.0)].concat();
    assert_eq!(
        NetStreamCommand::parse("pause", &pause),
        Ok(NetStreamCommand::Pause { is_paused: true, milliseconds: 10.0f64.to_bits() })
    );
    assert_eq!(
        NetStreamCommand::parse("connect", &[]),
        Err(ParseError::InvalidCommand("connect".to_string()))
    );
    assert!(NetStreamCommand::is_verb("play2"));
    assert!(!NetStreamCommand::is_verb("Play"));
}

#[test]
fn netstream_argument_of_wrong_type_is_a_cast_error() {
    let buf = command("seek", 1.0, &amf_bool(true));
    assert_eq!(
        CommandMessage::parse_message(&buf, &20),
        Err(ParseError::CastError(CastError::NotANumber))
    );
}

#[test]
fn command_errors() {
    let buf = command("seek", 1.0, &[]);
    assert_eq!(
        CommandMessage::parse_message(&buf, &20),
        Err(ParseError::DecodeError(DecodeError::MissingTypeMarker))
    );
    let buf = [amf_number(1.0), amf_number(1.0)].concat();
    assert_eq!(
        CommandMessage::parse_message(&buf, &20),
        Err(ParseError::CastError(CastError::NotAString))
    );
    let buf = [amf_string("connect"), amf_string("x")].concat();
    assert_eq!(
        CommandMessage::parse_message(&buf, &20),
        Err(ParseError::CastError(CastError::NotANumber))
    );
    assert_eq!(CommandMessage::parse_message(&[], &17), Err(ParseError::UnsupportedEncoding));
    assert_eq!(CommandMessage::parse_message(&[], &15), Err(ParseError::UnsupportedEncoding));
    assert_eq!(CommandMessage::parse_message(&[], &4), Err(ParseError::InvalidMessageType(4)));
}

#[test]
fn media_and_other_types() {
    assert_eq!(CommandMessage::parse_message(&[1, 2], &8), Ok(CommandMessage::Audio(vec![1, 2])));
    assert_eq!(CommandMessage::parse_message(&[3], &9), Ok(CommandMessage::Video(vec![3])));
    assert_eq!(CommandMessage::parse_message(&[3], &18), Ok(CommandMessage::Data));
    assert_eq!(CommandMessage::parse_message(&[3], &14), Ok(CommandMessage::SharedObject));
    assert_eq!(CommandMessage::parse_message(&[3], &16), Ok(CommandMessage::SharedObject));
    assert_eq!(CommandMessage::parse_message(&[3], &22), Ok(CommandMessage::Aggregate));
}

#[test]
fn message_dispatch_by_type_id() {
    assert_eq!(
        Message::parse_message(&[0, 0, 1, 0], 1),
        Ok(Message::Protocol(ProtolControlMessage::SetChunkSize(256)))
    );
    assert_eq!(
        Message::parse_message(&[0, 0, 0, 0, 0, 9], 4),
        Ok(Message::UserControl(UserControlMessage::StreamBegin(9)))
    );
    assert_eq!(
        Message::parse_message(&[0, 8, 0, 0, 0, 9], 4),
        Err(ParseMessageError::InvalidEventType(8))
    );
    assert_eq!(Message::parse_message(&[0], 5), Err(ParseMessageError::InvalidMessageSize));
    assert_eq!(
        Message::parse_message(&[7], 8),
        Ok(Message::Command(CommandMessage::Audio(vec![7])))
    );
    assert_eq!(
        Message::parse_message(&[], 17),
        Err(ParseMessageError::Command(ParseError::UnsupportedEncoding))
    );
    assert_eq!(Message::parse_message(&[], 7), Err(ParseMessageError::InvalidMessageTypeId(7)));
    assert_eq!(Message::parse_message(&[], 0), Err(ParseMessageError::InvalidMessageTypeId(0)));
}

#[test]
fn negotiated_state_follows_protocol_control() {
    let mut nc = NetConnection::new();
    assert_eq!(nc.max_chunk_size(), 128);
    nc.handle_message(&Message::Protocol(ProtolControlMessage::SetChunkSize(4096)));
    assert_eq!(nc.max_chunk_size(), 4096);
    nc.handle_message(&Message::Protocol(ProtolControlMessage::SetChunkSize(64)));
    assert_eq!(nc.max_chunk_size(), 4096);
    nc.handle_message(&Message::Protocol(ProtolControlMessage::AckWindowSize(2500000)));
    assert_eq!(nc.window_ack_size(), Some(2500000));
    nc.handle_message(&Message::Protocol(ProtolControlMessage::SetPeerBandwidth {
        limit_type: 2,
        window_size: 5000,
    }));
    assert_eq!(nc.peer_bandwidth(), Some((5000, 2)));
}
