//! Command messages (AMF0 encoded NetConnection and NetStream commands) and
//! the other message types that carry an opaque or data payload.
use vstd::prelude::*;
use vstd::slice::slice_to_vec;

use crate::amf::{parse_value, AMF0Value, Amf0Model, CastError, DecodeError, Decoder};
use crate::netconnection::{netconnection_command_type, NetConnectionCommandType, NetConnectionModel};
use crate::netstream::{is_netstream_verb, parse_netstream, NetStreamCommand, NetStreamModel};

verus! {

pub const COMMAND_AMF0: u8 = 20;

pub const COMMAND_AMF3: u8 = 17;

pub const DATA_AMF0: u8 = 18;

pub const DATA_AMF3: u8 = 15;

pub const SHARED_OBJECT_AMF0: u8 = 16;

pub const SHARED_OBJECT_AMF3: u8 = 14;

pub const AUDIO: u8 = 8;

pub const VIDEO: u8 = 9;

pub const AGGREGATE: u8 = 22;

#[derive(Debug, PartialEq)]
pub enum ParseError {
    InvalidMessageType(u8),
    UnsupportedEncoding,
    DecodeError(DecodeError),
    InvalidCommand(String),
    CastError(CastError),
}

#[derive(Debug, PartialEq)]
pub enum CommandMessage {
    /// `transaction_id` is a number, kept as its bit pattern.
    NetConnectionCommand {
        command_type: NetConnectionCommandType,
        transaction_id: u64,
        command_object: AMF0Value,
    },
    NetStreamCommand { command: NetStreamCommand, transaction_id: u64, command_object: AMF0Value },
    Data,
    SharedObject,
    Audio(Vec<u8>),
    Video(Vec<u8>),
    Aggregate,
}

pub enum CommandModel {
    NetConnectionCommand {
        command_type: NetConnectionModel,
        transaction_id: u64,
        command_object: Amf0Model,
    },
    NetStreamCommand { command: NetStreamModel, transaction_id: u64, command_object: Amf0Model },
    Data,
    SharedObject,
    Audio(Seq<u8>),
    Video(Seq<u8>),
    Aggregate,
}

impl CommandMessage {
    pub open spec fn model(self) -> CommandModel {
        match self {
            CommandMessage::NetConnectionCommand {
                command_type,
                transaction_id,
                command_object,
            } => CommandModel::NetConnectionCommand {
                command_type: command_type.model(),
                transaction_id,
                command_object: command_object.model(),
            },
            CommandMessage::NetStreamCommand {
                command,
                transaction_id,
                command_object,
            } => CommandModel::NetStreamCommand {
                command: command.model(),
                transaction_id,
                command_object: command_object.model(),
            },
            CommandMessage::Data => CommandModel::Data,
            CommandMessage::SharedObject => CommandModel::SharedObject,
            CommandMessage::Audio(b) => CommandModel::Audio(b@),
            CommandMessage::Video(b) => CommandModel::Video(b@),
            CommandMessage::Aggregate => CommandModel::Aggregate,
        }
    }
}

/// A string value at `pos`, with the position after it.
pub open spec fn text_at(s: Seq<u8>, pos: int) -> Result<(Seq<char>, int), ParseError> {
    match parse_value(s, pos) {
        Err(e) => Err(ParseError::DecodeError(e)),
        Ok((Amf0Model::Text(t), end)) => Ok((t, end)),
        Ok(_) => Err(ParseError::CastError(CastError::NotAString)),
    }
}

/// A number value at `pos`, as its bit pattern, with the position after it.
pub open spec fn number_at(s: Seq<u8>, pos: int) -> Result<(u64, int), ParseError> {
    match parse_value(s, pos) {
        Err(e) => Err(ParseError::DecodeError(e)),
        Ok((Amf0Model::Number(n), end)) => Ok((n, end)),
        Ok(_) => Err(ParseError::CastError(CastError::NotANumber)),
    }
}

/// A boolean value at `pos`, with the position after it.
pub open spec fn bool_at(s: Seq<u8>, pos: int) -> Result<(bool, int), ParseError> {
    match parse_value(s, pos) {
        Err(e) => Err(ParseError::DecodeError(e)),
        Ok((Amf0Model::Boolean(b), end)) => Ok((b, end)),
        Ok(_) => Err(ParseError::CastError(CastError::NotABoolean)),
    }
}

pub(crate) fn read_string(d: &mut Decoder) -> (r: Result<String, ParseError>)
    ensures
        final(d).bytes() == old(d).bytes(),
        match text_at(old(d).bytes(), old(d).pos()) {
            Ok((t, end)) => r matches Ok(s) && s@ == t && final(d).pos() == end,
            Err(e) => r == Err::<String, ParseError>(e),
        },
{
    match d.decode() {
        Ok(v) => match v.into_string() {
            Ok(s) => Ok(s),
            Err(e) => Err(ParseError::CastError(e)),
        },
        Err(e) => Err(ParseError::DecodeError(e)),
    }
}

pub(crate) fn read_number(d: &mut Decoder) -> (r: Result<u64, ParseError>)
    ensures
        final(d).bytes() == old(d).bytes(),
        match number_at(old(d).bytes(), old(d).pos()) {
            Ok((n, end)) => r == Ok::<u64, ParseError>(n) && final(d).pos() == end,
            Err(e) => r == Err::<u64, ParseError>(e),
        },
{
    match d.decode() {
        Ok(v) => match v.as_number() {
            Ok(n) => Ok(n),
            Err(e) => Err(ParseError::CastError(e)),
        },
        Err(e) => Err(ParseError::DecodeError(e)),
    }
}

pub(crate) fn read_bool(d: &mut Decoder) -> (r: Result<bool, ParseError>)
    ensures
        final(d).bytes() == old(d).bytes(),
        match bool_at(old(d).bytes(), old(d).pos()) {
            Ok((b, end)) => r == Ok::<bool, ParseError>(b) && final(d).pos() == end,
            Err(e) => r == Err::<bool, ParseError>(e),
        },
{
    match d.decode() {
        Ok(v) => match v.as_bool() {
            Ok(b) => Ok(b),
            Err(e) => Err(ParseError::CastError(e)),
        },
        Err(e) => Err(ParseError::DecodeError(e)),
    }
}

/// A command: its name, transaction id and command object, then the
/// arguments of a NetStream verb, or none for any other name.
pub open spec fn parse_command(s: Seq<u8>) -> Result<CommandModel, ParseError> {
    match text_at(s, 0) {
        Err(e) => Err(e),
        Ok((name, p1)) => match number_at(s, p1) {
            Err(e) => Err(e),
            Ok((transaction_id, p2)) => match parse_value(s, p2) {
                Err(e) => Err(ParseError::DecodeError(e)),
                Ok((command_object, p3)) => if is_netstream_verb(name) {
                    match parse_netstream(name, s.subrange(p3, s.len() as int)) {
                        Err(e) => Err(e),
                        Ok(command) => Ok(
                            CommandModel::NetStreamCommand {
                                command,
                                transaction_id,
                                command_object,
                            },
                        ),
                    }
                } else {
                    Ok(
                        CommandModel::NetConnectionCommand {
                            command_type: netconnection_command_type(name),
                            transaction_id,
                            command_object,
                        },
                    )
                },
            },
        },
    }
}

/// What a message of type `id` with payload `s` is.
pub open spec fn parse_command_message(s: Seq<u8>, id: u8) -> Result<CommandModel, ParseError> {
    if id == COMMAND_AMF0 {
        parse_command(s)
    } else if id == AUDIO {
        Ok(CommandModel::Audio(s))
    } else if id == VIDEO {
        Ok(CommandModel::Video(s))
    } else if id == COMMAND_AMF3 || id == DATA_AMF3 {
        Err(ParseError::UnsupportedEncoding)
    } else if id == DATA_AMF0 {
        Ok(CommandModel::Data)
    } else if id == SHARED_OBJECT_AMF0 || id == SHARED_OBJECT_AMF3 {
        Ok(CommandModel::SharedObject)
    } else if id == AGGREGATE {
        Ok(CommandModel::Aggregate)
    } else {
        Err(ParseError::InvalidMessageType(id))
    }
}

pub open spec fn command_result_model(r: Result<CommandMessage, ParseError>) -> Result<
    CommandModel,
    ParseError,
> {
    match r {
        Ok(c) => Ok(c.model()),
        Err(e) => Err(e),
    }
}

impl CommandMessage {
    /// Interprets the payload of a message of type `message_type_id`.
    pub fn parse_message(buf: &[u8], message_type_id: &u8) -> (r: Result<CommandMessage, ParseError>)
        ensures
            command_result_model(r) == parse_command_message(buf@, *message_type_id),
    {
        match *message_type_id {
            COMMAND_AMF0 => CommandMessage::parse_command(buf),
            AUDIO => Ok(CommandMessage::Audio(slice_to_vec(buf))),
            VIDEO => Ok(CommandMessage::Video(slice_to_vec(buf))),
            COMMAND_AMF3 | DATA_AMF3 => Err(ParseError::UnsupportedEncoding),
            DATA_AMF0 => Ok(CommandMessage::Data),
            SHARED_OBJECT_AMF0 | SHARED_OBJECT_AMF3 => Ok(CommandMessage::SharedObject),
            AGGREGATE => Ok(CommandMessage::Aggregate),
            e => Err(ParseError::InvalidMessageType(e)),
        }
    }

    fn parse_command(buf: &[u8]) -> (r: Result<CommandMessage, ParseError>)
        ensures
            command_result_model(r) == parse_command(buf@),
    {
        let mut decoder = Decoder::new(buf);
        let name = read_string(&mut decoder)?;
        let transaction_id = read_number(&mut decoder)?;
        let command_object = match decoder.decode() {
            Ok(v) => v,
            Err(e) => return Err(ParseError::DecodeError(e)),
        };
        let rest = match decoder.get_buf() {
            Ok(rest) => rest,
            Err(e) => return Err(ParseError::DecodeError(e)),
        };
        if NetStreamCommand::is_verb(name.as_str()) {
            let command = NetStreamCommand::parse(name.as_str(), rest)?;
            Ok(CommandMessage::NetStreamCommand { command, transaction_id, command_object })
        } else {
            Ok(
                CommandMessage::NetConnectionCommand {
                    command_type: NetConnectionCommandType::from(name),
                    transaction_id,
                    command_object,
                },
            )
        }
    }
}

} // verus!
