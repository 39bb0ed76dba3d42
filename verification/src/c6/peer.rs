//! Who this endpoint is to the network.

use vstd::prelude::*;

verus! {

/// The broadcast address.
pub const BROADCAST: [u8; 6] = [0xFF, 0xFF, 0xFF, 0xFF, 0xFF, 0xFF];

/// The id before the coordinator assigned one. Zero would not do: it is an id that
/// can be assigned.
pub const INITIAL_RECEIVER_ID: u8 = 255;

/// The largest id that can be assigned.
pub const RECEIVER_ID_MAX: u8 = 31;

/// The role that this endpoint reports: `lcd`.
pub const ROLE_TAG: [u8; 3] = [0x6C, 0x63, 0x64];

} // verus!
