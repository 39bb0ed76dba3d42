//! The two halves of the gamepad's radio link.

use crate::comm::peer_registry::same_mac;
use vstd::prelude::*;

verus! {

/// The largest packet of the radio.
pub const ESP_NOW_MTU: usize = 250;

/// The address that everybody listens to.
pub const BROADCAST_ADDRESS: [u8; 6] = [0xFF, 0xFF, 0xFF, 0xFF, 0xFF, 0xFF];

/// Why sending failed.
#[derive(Debug, Clone, Copy, PartialEq, Eq, Structural)]
pub enum SendError {
    /// The radio refused.
    Radio,
    /// The radio cannot remember another address.
    PeerFull,
}

/// Why receiving failed.
#[derive(Debug, Clone, Copy, PartialEq, Eq, Structural)]
pub enum RecvError {
    /// This half only sends.
    SendOnly,
}

/// Why sending on the receiving half failed.
#[derive(Debug, Clone, Copy, PartialEq, Eq, Structural)]
pub enum SendOnRecvError {
    /// This half only receives.
    RecvOnly,
}

/// Whether the radio has to be told an address before it can send to it. `known` is
/// whether the radio remembers the address.
pub fn must_add_peer(dst: &[u8; 6], known: bool) -> (add: bool)
    ensures
        add == (*dst != BROADCAST_ADDRESS && !known),
{
    !same_mac(dst, &BROADCAST_ADDRESS) && !known
}

/// Makes sure that the radio can send to an address. `known` is whether the radio
/// remembers it, `added` whether the radio took it where it was told to remember it.
pub fn ensure_peer(dst: &[u8; 6], known: bool, added: bool) -> (r: Result<(), SendError>)
    ensures
        r == (if *dst == BROADCAST_ADDRESS || known || added {
            Ok(())
        } else {
            Err(SendError::PeerFull)
        }),
{
    if !must_add_peer(dst, known) || added {
        Ok(())
    } else {
        Err(SendError::PeerFull)
    }
}

/// How much of a received packet is kept. Nothing of the gamepad's own packets,
/// which come back to it.
pub fn kept_len(src: &[u8; 6], own_mac: &[u8; 6], received: usize) -> (n: Option<usize>)
    ensures
        n == (if *src == *own_mac {
            None
        } else if received < ESP_NOW_MTU {
            Some(received)
        } else {
            Some(ESP_NOW_MTU)
        }),
{
    if same_mac(src, own_mac) {
        None
    } else if received < ESP_NOW_MTU {
        Some(received)
    } else {
        Some(ESP_NOW_MTU)
    }
}

} // verus!
