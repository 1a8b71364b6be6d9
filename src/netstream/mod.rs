//! NetStream commands: the verbs that control one media stream.
use vstd::prelude::*;

use crate::amf::{number_as_u32, number_to_u32, parse_value, AMF0Value, Amf0Model, Decoder};
use crate::messages::command::{
    bool_at, number_at, read_bool, read_number, read_string, text_at, ParseError,
};

verus! {

#[derive(Debug, PartialEq)]
pub enum NetStreamCommand {
    /// `start` and `duration` are numbers, kept as their bit patterns.
    Play { stream_name: String, start: u64, duration: u64, reset: bool },
    Play2 { parameters: AMF0Value },
    DeleteStream { stream_id: u32 },
    CloseStream { stream_id: u32 },
    ReceiveAudio { should_receive: bool },
    ReceiveVideo { should_receive: bool },
    /// `publishing_name` usually serves as the stream key.
    Publish { publishing_name: String, publishing_type: String },
    Seek { milliseconds: u64 },
    Pause { is_paused: bool, milliseconds: u64 },
}

pub enum NetStreamModel {
    Play { stream_name: Seq<char>, start: u64, duration: u64, reset: bool },
    Play2 { parameters: Amf0Model },
    DeleteStream { stream_id: u32 },
    CloseStream { stream_id: u32 },
    ReceiveAudio { should_receive: bool },
    ReceiveVideo { should_receive: bool },
    Publish { publishing_name: Seq<char>, publishing_type: Seq<char> },
    Seek { milliseconds: u64 },
    Pause { is_paused: bool, milliseconds: u64 },
}

impl NetStreamCommand {
    pub open spec fn model(self) -> NetStreamModel {
        match self {
            NetStreamCommand::Play { stream_name, start, duration, reset } => NetStreamModel::Play {
                stream_name: stream_name@,
                start,
                duration,
                reset,
            },
            NetStreamCommand::Play2 { parameters } => NetStreamModel::Play2 {
                parameters: parameters.model(),
            },
            NetStreamCommand::DeleteStream { stream_id } => NetStreamModel::DeleteStream { stream_id },
            NetStreamCommand::CloseStream { stream_id } => NetStreamModel::CloseStream { stream_id },
            NetStreamCommand::ReceiveAudio { should_receive } => NetStreamModel::ReceiveAudio {
                should_receive,
            },
            NetStreamCommand::ReceiveVideo { should_receive } => NetStreamModel::ReceiveVideo {
                should_receive,
            },
            NetStreamCommand::Publish { publishing_name, publishing_type } => NetStreamModel::Publish {
                publishing_name: publishing_name@,
                publishing_type: publishing_type@,
            },
            NetStreamCommand::Seek { milliseconds } => NetStreamModel::Seek { milliseconds },
            NetStreamCommand::Pause { is_paused, milliseconds } => NetStreamModel::Pause {
                is_paused,
                milliseconds,
            },
        }
    }
}

/// The names of the NetStream verbs.
pub open spec fn is_netstream_verb(name: Seq<char>) -> bool {
    ||| name == "play"@
    ||| name == "play2"@
    ||| name == "deleteStream"@
    ||| name == "closeStream"@
    ||| name == "receiveAudio"@
    ||| name == "receiveVideo"@
    ||| name == "publish"@
    ||| name == "seek"@
    ||| name == "pause"@
}

/// The arguments of NetStream verb `name`, decoded from the start of `s`.
pub open spec fn parse_netstream(name: Seq<char>, s: Seq<u8>) -> Result<NetStreamModel, ParseError> {
    if name == "play"@ {
        match text_at(s, 0) {
            Err(e) => Err(e),
            Ok((stream_name, p1)) => match number_at(s, p1) {
                Err(e) => Err(e),
                Ok((start, p2)) => match number_at(s, p2) {
                    Err(e) => Err(e),
                    Ok((duration, p3)) => match bool_at(s, p3) {
                        Err(e) => Err(e),
                        Ok((reset, _)) => Ok(
                            NetStreamModel::Play { stream_name, start, duration, reset },
                        ),
                    },
                },
            },
        }
    } else if name == "play2"@ {
        match parse_value(s, 0) {
            Err(e) => Err(ParseError::DecodeError(e)),
            Ok((parameters, _)) => Ok(NetStreamModel::Play2 { parameters }),
        }
    } else if name == "deleteStream"@ {
        match number_at(s, 0) {
            Err(e) => Err(e),
            Ok((n, _)) => Ok(NetStreamModel::DeleteStream { stream_id: number_as_u32(n) }),
        }
    } else if name == "closeStream"@ {
        match number_at(s, 0) {
            Err(e) => Err(e),
            Ok((n, _)) => Ok(NetStreamModel::CloseStream { stream_id: number_as_u32(n) }),
        }
    } else if name == "receiveAudio"@ {
        match bool_at(s, 0) {
            Err(e) => Err(e),
            Ok((b, _)) => Ok(NetStreamModel::ReceiveAudio { should_receive: b }),
        }
    } else if name == "receiveVideo"@ {
        match bool_at(s, 0) {
            Err(e) => Err(e),
            Ok((b, _)) => Ok(NetStreamModel::ReceiveVideo { should_receive: b }),
        }
    } else if name == "publish"@ {
        match text_at(s, 0) {
            Err(e) => Err(e),
            Ok((publishing_name, p1)) => match text_at(s, p1) {
                Err(e) => Err(e),
                Ok((publishing_type, _)) => Ok(
                    NetStreamModel::Publish { publishing_name, publishing_type },
                ),
            },
        }
    } else if name == "seek"@ {
        match number_at(s, 0) {
            Err(e) => Err(e),
            Ok((n, _)) => Ok(NetStreamModel::Seek { milliseconds: n }),
        }
    } else {
        match bool_at(s, 0) {
            Err(e) => Err(e),
            Ok((is_paused, p1)) => match number_at(s, p1) {
                Err(e) => Err(e),
                Ok((milliseconds, _)) => Ok(NetStreamModel::Pause { is_paused, milliseconds }),
            },
        }
    }
}

/// Whether `name` is the string literal `lit`.
fn is_name(name: &str, lit: &str) -> (r: bool)
    ensures
        r == (name@ == lit@),
{
    let a = name.to_owned();
    let b = lit.to_owned();
    a == b
}

impl NetStreamCommand {
    /// Whether `name` is one of the NetStream verbs.
    pub fn is_verb(name: &str) -> (r: bool)
        ensures
            r == is_netstream_verb(name@),
    {
        is_name(name, "play") || is_name(name, "play2") || is_name(name, "deleteStream")
            || is_name(name, "closeStream") || is_name(name, "receiveAudio") || is_name(
            name,
            "receiveVideo",
        ) || is_name(name, "publish") || is_name(name, "seek") || is_name(name, "pause")
    }

    /// Decodes the arguments of the NetStream verb `command` from `buf`.
    pub fn parse(command: &str, buf: &[u8]) -> (r: Result<NetStreamCommand, ParseError>)
        ensures
            is_netstream_verb(command@) ==> match parse_netstream(command@, buf@) {
                Ok(m) => r matches Ok(c) && c.model() == m,
                Err(e) => r == Err::<NetStreamCommand, ParseError>(e),
            },
            !is_netstream_verb(command@) ==> (r matches Err(ParseError::InvalidCommand(n)) && n@
                == command@),
    {
        let mut d = Decoder::new(buf);
        if is_name(command, "play") {
            let stream_name = read_string(&mut d)?;
            let start = read_number(&mut d)?;
            let duration = read_number(&mut d)?;
            let reset = read_bool(&mut d)?;
            Ok(NetStreamCommand::Play { stream_name, start, duration, reset })
        } else if is_name(command, "play2") {
            match d.decode() {
                Ok(parameters) => Ok(NetStreamCommand::Play2 { parameters }),
                Err(e) => Err(ParseError::DecodeError(e)),
            }
        } else if is_name(command, "deleteStream") {
            let n = read_number(&mut d)?;
            Ok(NetStreamCommand::DeleteStream { stream_id: number_to_u32(n) })
        } else if is_name(command, "closeStream") {
            let n = read_number(&mut d)?;
            Ok(NetStreamCommand::CloseStream { stream_id: number_to_u32(n) })
        } else if is_name(command, "receiveAudio") {
            let should_receive = read_bool(&mut d)?;
            Ok(NetStreamCommand::ReceiveAudio { should_receive })
        } else if is_name(command, "receiveVideo") {
            let should_receive = read_bool(&mut d)?;
            Ok(NetStreamCommand::ReceiveVideo { should_receive })
        } else if is_name(command, "publish") {
            let publishing_name = read_string(&mut d)?;
            let publishing_type = read_string(&mut d)?;
            Ok(NetStreamCommand::Publish { publishing_name, publishing_type })
        } else if is_name(command, "seek") {
            let milliseconds = read_number(&mut d)?;
            Ok(NetStreamCommand::Seek { milliseconds })
        } else if is_name(command, "pause") {
            let is_paused = read_bool(&mut d)?;
            let milliseconds = read_number(&mut d)?;
            Ok(NetStreamCommand::Pause { is_paused, milliseconds })
        } else {
            Err(ParseError::InvalidCommand(command.to_owned()))
        }
    }
}

} // verus!
