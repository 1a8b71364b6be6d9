//! The connection engine of an RTMP ingest server: the handshake, chunk
//! headers, reassembly of chunks into messages, an AMF0 decoder and the
//! message layer, with their behaviour stated as contracts and proved.
use vstd::prelude::*;

pub mod amf;
pub mod buffer;
pub mod chunks;
pub mod handshake;
pub mod messages;
pub mod netconnection;
pub mod netstream;
pub mod rtmp;
pub mod wire;

verus! {

} // verus!
