//! Messages: a completed payload read by its message type id.
use vstd::prelude::*;

pub mod command;
pub mod protocol_control;
pub mod user_control;

use crate::messages::command::{
    command_result_model, parse_command_message, CommandMessage, CommandModel, AGGREGATE, AUDIO,
    COMMAND_AMF0, COMMAND_AMF3, DATA_AMF0, DATA_AMF3, SHARED_OBJECT_AMF0, SHARED_OBJECT_AMF3,
    VIDEO,
};
use crate::messages::protocol_control::{
    parse_protocol_control, ProtolControlMessage, ABORT, ACK, SET_CHUNK_SIZE, SET_PEER_BANDWIDTH,
    WINDOW_ACK_SIZE,
};
use crate::messages::user_control::{parse_user_control, UserControlMessage, USER_CONTROL_TYPE};

verus! {

#[derive(Debug, PartialEq)]
pub enum ParseMessageError {
    InvalidMessageTypeId(u8),
    InvalidMessageSize,
    InvalidEventType(u16),
    Command(command::ParseError),
}

#[derive(Debug, PartialEq)]
pub enum Message {
    Protocol(ProtolControlMessage),
    UserControl(UserControlMessage),
    Command(CommandMessage),
}

pub enum MessageModel {
    Protocol(ProtolControlMessage),
    UserControl(UserControlMessage),
    Command(CommandModel),
}

impl Message {
    pub open spec fn model(self) -> MessageModel {
        match self {
            Message::Protocol(m) => MessageModel::Protocol(m),
            Message::UserControl(m) => MessageModel::UserControl(m),
            Message::Command(m) => MessageModel::Command(m.model()),
        }
    }
}

impl From<protocol_control::ParseError> for ParseMessageError {
    fn from(value: protocol_control::ParseError) -> (r: Self)
        ensures
            r == protocol_error(value),
    {
        match value {
            protocol_control::ParseError::InvalidMessageSize => Self::InvalidMessageSize,
            protocol_control::ParseError::InvalidMessageTypeId(id) => Self::InvalidMessageTypeId(id),
        }
    }
}

impl vstd::std_specs::convert::FromSpecImpl<protocol_control::ParseError> for ParseMessageError {
    open spec fn obeys_from_spec() -> bool {
        true
    }

    open spec fn from_spec(v: protocol_control::ParseError) -> Self {
        protocol_error(v)
    }
}

impl From<user_control::ParseError> for ParseMessageError {
    fn from(value: user_control::ParseError) -> (r: Self)
        ensures
            r == user_error(value),
    {
        match value {
            user_control::ParseError::InvalidMessageSize => Self::InvalidMessageSize,
            user_control::ParseError::InvalidEventType(e) => Self::InvalidEventType(e),
        }
    }
}

impl vstd::std_specs::convert::FromSpecImpl<user_control::ParseError> for ParseMessageError {
    open spec fn obeys_from_spec() -> bool {
        true
    }

    open spec fn from_spec(v: user_control::ParseError) -> Self {
        user_error(v)
    }
}

pub open spec fn protocol_error(e: protocol_control::ParseError) -> ParseMessageError {
    match e {
        protocol_control::ParseError::InvalidMessageSize => ParseMessageError::InvalidMessageSize,
        protocol_control::ParseError::InvalidMessageTypeId(id) => ParseMessageError::InvalidMessageTypeId(id),
    }
}

pub open spec fn user_error(e: user_control::ParseError) -> ParseMessageError {
    match e {
        user_control::ParseError::InvalidMessageSize => ParseMessageError::InvalidMessageSize,
        user_control::ParseError::InvalidEventType(t) => ParseMessageError::InvalidEventType(t),
    }
}

pub open spec fn is_protocol_control_type(id: u8) -> bool {
    id == SET_CHUNK_SIZE || id == ABORT || id == ACK || id == WINDOW_ACK_SIZE || id
        == SET_PEER_BANDWIDTH
}

pub open spec fn is_command_type(id: u8) -> bool {
    id == COMMAND_AMF0 || id == COMMAND_AMF3 || id == DATA_AMF0 || id == DATA_AMF3 || id
        == SHARED_OBJECT_AMF0 || id == SHARED_OBJECT_AMF3 || id == AUDIO || id == VIDEO || id
        == AGGREGATE
}

/// The message of type `id` with payload `s`.
pub open spec fn parse_message_spec(s: Seq<u8>, id: u8) -> Result<MessageModel, ParseMessageError> {
    if is_protocol_control_type(id) {
        match parse_protocol_control(s, id) {
            Ok(m) => Ok(MessageModel::Protocol(m)),
            Err(e) => Err(protocol_error(e)),
        }
    } else if id == USER_CONTROL_TYPE {
        match parse_user_control(s) {
            Ok(m) => Ok(MessageModel::UserControl(m)),
            Err(e) => Err(user_error(e)),
        }
    } else if is_command_type(id) {
        match parse_command_message(s, id) {
            Ok(m) => Ok(MessageModel::Command(m)),
            Err(e) => Err(ParseMessageError::Command(e)),
        }
    } else {
        Err(ParseMessageError::InvalidMessageTypeId(id))
    }
}

pub open spec fn message_result_model(r: Result<Message, ParseMessageError>) -> Result<
    MessageModel,
    ParseMessageError,
> {
    match r {
        Ok(m) => Ok(m.model()),
        Err(e) => Err(e),
    }
}

impl Message {
    /// Interprets a completed message by its type id.
    pub fn parse_message(buf: &[u8], message_type_id: u8) -> (r: Result<Self, ParseMessageError>)
        ensures
            message_result_model(r) == parse_message_spec(buf@, message_type_id),
    {
        match message_type_id {
            SET_CHUNK_SIZE | ABORT | ACK | WINDOW_ACK_SIZE | SET_PEER_BANDWIDTH => {
                match ProtolControlMessage::parse_message(buf, &message_type_id) {
                    Ok(m) => Ok(Self::Protocol(m)),
                    Err(e) => Err(ParseMessageError::from(e)),
                }
            },
            USER_CONTROL_TYPE => match UserControlMessage::parse_message(buf) {
                Ok(m) => Ok(Self::UserControl(m)),
                Err(e) => Err(ParseMessageError::from(e)),
            },
            COMMAND_AMF0 | COMMAND_AMF3 | DATA_AMF0 | DATA_AMF3 | SHARED_OBJECT_AMF0
            | SHARED_OBJECT_AMF3 | AUDIO | VIDEO | AGGREGATE => {
                let r = CommandMessage::parse_message(buf, &message_type_id);
                proof {
                    assert(command_result_model(r) == parse_command_message(buf@, message_type_id));
                }
                match r {
                    Ok(m) => Ok(Self::Command(m)),
                    Err(e) => Err(ParseMessageError::Command(e)),
                }
            },
            id => Err(ParseMessageError::InvalidMessageTypeId(id)),
        }
    }
}

} // verus!
