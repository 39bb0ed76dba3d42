//! Commands: what a host or coordinator asks a device to do.

use super::auth::KeyId;
use vstd::prelude::*;

verus! {

/// Little-endian magic of a command.
pub const COMMAND_MAGIC: u16 = 0xCB01;

/// Encoded length of a command.
pub const COMMAND_LEN: usize = 24;

/// What a command asks for.
#[derive(Debug, Clone, Copy, PartialEq, Eq)]
pub enum CommandBody {
    /// Heartbeat.
    Nop,
    /// Blink an LED.
    LedBlink { led_idx: u8, count: u8, period_ms: u16 },
    /// Scale the stick and the knobs, in thousandths.
    SetSensitivity { joy_scale: u16, knob_scale: u16 },
    /// Show a short text; the first `len` bytes count.
    ShowToast { len: u8, bytes: [u8; 5] },
    /// Simulated or measured battery level.
    SetBatteryMode { simulate: bool },
    /// Every endpoint that hears this answers with its address and role.
    Announce,
    /// The endpoint with this address takes this id.
    AssignId { mac: [u8; 6], receiver_id: u8 },
}

/// A decoded and authenticated command.
#[derive(Debug, Clone, Copy, PartialEq, Eq)]
pub struct Command {
    pub seq: u32,
    pub key_id: KeyId,
    pub kind: CommandBody,
}

impl Command {
    /// A command signed with an explicit key.
    pub fn with_key(seq: u32, key_id: KeyId, kind: CommandBody) -> (c: Command)
        ensures
            c == (Command { seq, key_id, kind }),
    {
        Command { seq, key_id, kind }
    }
}

/// Why a received command was not decoded.
#[derive(Debug, Clone, Copy, PartialEq, Eq, Structural)]
pub enum CommandDecodeError {
    BadLength,
    BadMagic,
    UnsupportedVersion(u8),
    UnsupportedKeyId(u8),
    UnknownKind(u8),
    InvalidPayload,
    BadCrc,
    AuthFailed,
}

} // verus!
