//! The command handler of the two-device demonstration.

use crate::comm::receiver::{CommandOutcome, CommandSource};
use crate::protocol::{Command, CommandBody, ErrorCode};
use vstd::prelude::*;

verus! {

/// Address of the coordinator.
pub const MAC_NOTIFIER: [u8; 6] = [0xAA, 0xAA, 0xAA, 0xAA, 0xAA, 0x01];

/// Address of the endpoint.
pub const MAC_RECEIVER: [u8; 6] = [0xBB, 0xBB, 0xBB, 0xBB, 0xBB, 0x02];

/// Role of the endpoint: "led".
pub const RECEIVER_ROLE: [u8; 3] = [0x6C, 0x65, 0x64];

/// What the handler has seen.
#[derive(Debug, Clone, Copy, PartialEq, Eq, Structural)]
pub struct Observations {
    /// How often it blinked.
    pub invocations: u32,
    /// How many blinks were asked for last.
    pub last_led_count: u32,
}

impl Observations {
    /// Nothing yet.
    pub fn new() -> (o: Observations)
        ensures
            o == (Observations { invocations: 0, last_led_count: 0 }),
    {
        Observations { invocations: 0, last_led_count: 0 }
    }
}

/// Blinks on request and refuses everything else.
pub fn handle_command(_src: CommandSource, cmd: &Command, seen: &mut Observations) -> (outcome: CommandOutcome)
    ensures
        match cmd.kind {
            CommandBody::LedBlink { count, .. } => {
                &&& outcome == CommandOutcome::Done
                &&& final(seen).last_led_count == count
                &&& final(seen).invocations == (if old(seen).invocations == u32::MAX {
                    0
                } else {
                    old(seen).invocations + 1
                })
            },
            _ => outcome == CommandOutcome::Refused(ErrorCode::Unsupported) && *final(seen) == *old(seen),
        },
{
    match cmd.kind {
        CommandBody::LedBlink { led_idx: _, count, period_ms: _ } => {
            seen.last_led_count = count as u32;
            seen.invocations = seen.invocations.wrapping_add(1);
            CommandOutcome::Done
        },
        _ => CommandOutcome::Refused(ErrorCode::Unsupported),
    }
}

} // verus!
