//! The two halves of the radio link.

use vstd::prelude::*;

verus! {

/// The largest packet of the radio.
pub const ESP_NOW_MTU: usize = 250;

/// Why sending failed.
#[derive(Debug, Clone, Copy, PartialEq, Eq, Structural)]
pub enum SendError {
    /// The radio refused.
    Radio,
}

/// Why receiving failed.
#[derive(Debug, Clone, Copy, PartialEq, Eq, Structural)]
pub enum RecvError {
    /// This half only sends.
    SendOnly,
}

/// Why sending on the receiving half failed.
#[derive(Debug, Clone, Copy, PartialEq, Eq, Structural)]
pub enum SendOnRecvError {
    /// This half only receives.
    RecvOnly,
}

/// How much of a received packet is kept.
pub fn kept_len(received: usize) -> (n: usize)
    ensures
        n == (if received < ESP_NOW_MTU {
            received
        } else {
            ESP_NOW_MTU
        }),
{
    if received < ESP_NOW_MTU {
        received
    } else {
        ESP_NOW_MTU
    }
}

} // verus!
