//! NetConnection: the commands of the connection itself, and the state that
//! protocol control messages negotiate.
use vstd::prelude::*;

use crate::chunks::DEFAULT_MAX_CHUNK_SIZE;
use crate::messages::protocol_control::ProtolControlMessage;
use crate::messages::Message;

verus! {

#[derive(Debug, PartialEq)]
pub enum NetConnectionCommandType {
    Connect,
    /// A remote procedure call, by name.
    Call(String),
    Close,
    CreateStream,
}

pub enum NetConnectionModel {
    Connect,
    Call(Seq<char>),
    Close,
    CreateStream,
}

impl NetConnectionCommandType {
    pub open spec fn model(self) -> NetConnectionModel {
        match self {
            NetConnectionCommandType::Connect => NetConnectionModel::Connect,
            NetConnectionCommandType::Call(name) => NetConnectionModel::Call(name@),
            NetConnectionCommandType::Close => NetConnectionModel::Close,
            NetConnectionCommandType::CreateStream => NetConnectionModel::CreateStream,
        }
    }
}

/// The NetConnection command that a command name stands for.
pub open spec fn netconnection_command_type(name: Seq<char>) -> NetConnectionModel {
    if name == "connect"@ {
        NetConnectionModel::Connect
    } else if name == "close"@ {
        NetConnectionModel::Close
    } else if name == "createStream"@ {
        NetConnectionModel::CreateStream
    } else {
        NetConnectionModel::Call(name)
    }
}

impl From<String> for NetConnectionCommandType {
    fn from(value: String) -> (r: Self)
        ensures
            r.model() == netconnection_command_type(value@),
    {
        let connect = "connect".to_owned();
        let close = "close".to_owned();
        let create_stream = "createStream".to_owned();
        if value == connect {
            NetConnectionCommandType::Connect
        } else if value == close {
            NetConnectionCommandType::Close
        } else if value == create_stream {
            NetConnectionCommandType::CreateStream
        } else {
            NetConnectionCommandType::Call(value)
        }
    }
}

impl vstd::std_specs::convert::FromSpecImpl<String> for NetConnectionCommandType {
    open spec fn obeys_from_spec() -> bool {
        true
    }

    open spec fn from_spec(v: String) -> Self {
        if v@ == "connect"@ {
            NetConnectionCommandType::Connect
        } else if v@ == "close"@ {
            NetConnectionCommandType::Close
        } else if v@ == "createStream"@ {
            NetConnectionCommandType::CreateStream
        } else {
            NetConnectionCommandType::Call(v)
        }
    }
}

/// What a connection has negotiated with its peer.
#[derive(Debug)]
pub struct NetConnection {
    max_chunk_size: u32,
    window_ack_size: Option<u32>,
    peer_bandwidth: Option<(u32, u8)>,
}

/// The negotiated state: chunk size, acknowledgement window, and the peer
/// bandwidth as window size and limit type.
pub struct NetConnectionView {
    pub max_chunk_size: u32,
    pub window_ack_size: Option<u32>,
    pub peer_bandwidth: Option<(u32, u8)>,
}

/// What applying a message does to the negotiated state: a chunk size of
/// at least the default takes effect, the acknowledgement window and peer
/// bandwidth are recorded, and nothing else changes.
pub open spec fn apply_message(c: NetConnectionView, m: Message) -> NetConnectionView {
    match m {
        Message::Protocol(ProtolControlMessage::SetChunkSize(n)) => if n >= DEFAULT_MAX_CHUNK_SIZE {
            NetConnectionView { max_chunk_size: n, ..c }
        } else {
            c
        },
        Message::Protocol(ProtolControlMessage::AckWindowSize(n)) => NetConnectionView {
            window_ack_size: Some(n),
            ..c
        },
        Message::Protocol(
            ProtolControlMessage::SetPeerBandwidth { limit_type, window_size },
        ) => NetConnectionView { peer_bandwidth: Some((window_size, limit_type)), ..c },
        _ => c,
    }
}

impl View for NetConnection {
    type V = NetConnectionView;

    closed spec fn view(&self) -> NetConnectionView {
        NetConnectionView {
            max_chunk_size: self.max_chunk_size,
            window_ack_size: self.window_ack_size,
            peer_bandwidth: self.peer_bandwidth,
        }
    }
}

impl NetConnection {
    pub fn new() -> (r: Self)
        ensures
            r@ == (NetConnectionView {
                max_chunk_size: DEFAULT_MAX_CHUNK_SIZE,
                window_ack_size: None,
                peer_bandwidth: None,
            }),
    {
        NetConnection { max_chunk_size: DEFAULT_MAX_CHUNK_SIZE, window_ack_size: None, peer_bandwidth: None }
    }

    pub fn max_chunk_size(&self) -> (r: u32)
        ensures
            r == self@.max_chunk_size,
    {
        self.max_chunk_size
    }

    pub fn window_ack_size(&self) -> (r: Option<u32>)
        ensures
            r == self@.window_ack_size,
    {
        self.window_ack_size
    }

    pub fn peer_bandwidth(&self) -> (r: Option<(u32, u8)>)
        ensures
            r == self@.peer_bandwidth,
    {
        self.peer_bandwidth
    }

    /// Applies a message to the negotiated state.
    pub fn handle_message(&mut self, message: &Message)
        ensures
            final(self)@ == apply_message(old(self)@, *message),
    {
        match message {
            Message::Protocol(ProtolControlMessage::SetChunkSize(n)) => {
                if *n >= DEFAULT_MAX_CHUNK_SIZE {
                    self.max_chunk_size = *n;
                }
            },
            Message::Protocol(ProtolControlMessage::AckWindowSize(n)) => {
                self.window_ack_size = Some(*n);
            },
            Message::Protocol(ProtolControlMessage::SetPeerBandwidth { limit_type, window_size }) => {
                self.peer_bandwidth = Some((*window_size, *limit_type));
            },
            _ => {},
        }
    }
}

} // verus!
