use vstd::prelude::*;

pub mod connection;
pub mod connection_manager;
pub mod packet;
pub mod packet_decoder;
pub mod packet_encoder;
pub mod packets;
pub mod structs;
pub mod transport;

verus! {

/// Errors raised while translating between messages and packets.
#[derive(Debug)]
pub enum ErrorKind {
    Serialize(String),
    Deserialize(String),
    InvalidPacketType(crate::net::packets::PacketType),
}

} // verus!
