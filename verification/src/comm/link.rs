//! What a link hands over.

use vstd::prelude::*;

verus! {

/// A failure of a link, in one of its two directions.
#[derive(Debug)]
pub enum LinkError<S, R> {
    Send(S),
    Recv(R),
}

/// A received packet and its sender.
#[derive(Debug)]
pub struct Packet<'a, A> {
    pub src: A,
    pub data: &'a [u8],
}

/// What a packet is, told from its first two bytes and its length.
#[derive(Debug, Clone, Copy, PartialEq, Eq, Structural)]
pub enum PacketRoute {
    Command,
    Frame,
    Response,
    /// Too short, an unknown magic, or a length that does not fit the magic.
    Drop,
}

/// The 16-bit little-endian number in two bytes.
pub open spec fn le16(lo: u8, hi: u8) -> int {
    lo + 256 * hi
}

/// What a packet is.
pub open spec fn route_of(data: Seq<u8>) -> PacketRoute {
    if data.len() < 2 {
        PacketRoute::Drop
    } else if le16(data[0], data[1]) == crate::protocol::COMMAND_MAGIC && data.len() == crate::protocol::COMMAND_LEN {
        PacketRoute::Command
    } else if le16(data[0], data[1]) == crate::protocol::FRAME_MAGIC && data.len() == crate::protocol::FRAME_LEN {
        PacketRoute::Frame
    } else if le16(data[0], data[1]) == crate::protocol::RESPONSE_MAGIC && data.len() == crate::protocol::RESPONSE_LEN {
        PacketRoute::Response
    } else {
        PacketRoute::Drop
    }
}

/// The 16-bit little-endian number at the start of a packet.
pub fn packet_magic(data: &[u8]) -> (magic: u16)
    requires
        data@.len() >= 2,
    ensures
        magic == le16(data@[0], data@[1]),
{
    (data[0] as u16) + 256 * (data[1] as u16)
}

/// Tells what a packet is.
pub fn route_packet(data: &[u8]) -> (route: PacketRoute)
    ensures
        route == route_of(data@),
{
    if data.len() < 2 {
        return PacketRoute::Drop;
    }
    let magic: u16 = packet_magic(data);
    if magic == crate::protocol::COMMAND_MAGIC && data.len() == crate::protocol::COMMAND_LEN {
        PacketRoute::Command
    } else if magic == crate::protocol::FRAME_MAGIC && data.len() == crate::protocol::FRAME_LEN {
        PacketRoute::Frame
    } else if magic == crate::protocol::RESPONSE_MAGIC && data.len() == crate::protocol::RESPONSE_LEN {
        PacketRoute::Response
    } else {
        PacketRoute::Drop
    }
}

/// What a packet is, byte by byte: 24 bytes that start with `01 CB` are a command, 25
/// that start with `1E C7` a frame, 24 that start with `02 CB` a response, and everything
/// else is dropped.
pub proof fn lemma_packets_are_told_by_two_bytes_and_length(data: Seq<u8>)
    ensures
        route_of(data) == PacketRoute::Command <==> data.len() == 24 && data[0] == 0x01 && data[1] == 0xCB,
        route_of(data) == PacketRoute::Frame <==> data.len() == 25 && data[0] == 0x1E && data[1] == 0xC7,
        route_of(data) == PacketRoute::Response <==> data.len() == 24 && data[0] == 0x02 && data[1] == 0xCB,
{
}

} // verus!
