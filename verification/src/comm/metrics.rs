//! How many outgoing messages were dropped because a queue was full.

use vstd::prelude::*;

verus! {

/// Running counts of dropped messages.
#[derive(Debug, Clone, Copy, PartialEq, Eq, Structural)]
pub struct DropMetrics {
    pub commands: u32,
    pub responses: u32,
}

/// The counts at one moment.
#[derive(Debug, Clone, Copy, PartialEq, Eq, Structural)]
pub struct DropCounts {
    pub commands: u32,
    pub responses: u32,
}

/// One more, wrapping at the end of the 32-bit range.
pub open spec fn bumped(count: u32) -> u32 {
    if count == u32::MAX {
        0
    } else {
        (count + 1) as u32
    }
}

impl DropMetrics {
    /// Nothing dropped.
    pub fn new() -> (m: DropMetrics)
        ensures
            m == (DropMetrics { commands: 0, responses: 0 }),
    {
        DropMetrics { commands: 0, responses: 0 }
    }
}

impl Default for DropMetrics {
    fn default() -> (m: DropMetrics)
        ensures
            m == (DropMetrics { commands: 0, responses: 0 }),
    {
        DropMetrics::new()
    }
}

impl DropCounts {
    /// Nothing was dropped.
    pub fn is_clean(&self) -> (r: bool)
        ensures
            r == (self.commands == 0 && self.responses == 0),
    {
        self.commands == 0 && self.responses == 0
    }
}

/// Commands dropped so far.
pub fn dropped_commands(metrics: &DropMetrics) -> (n: u32)
    ensures
        n == metrics.commands,
{
    metrics.commands
}

/// Responses dropped so far.
pub fn dropped_responses(metrics: &DropMetrics) -> (n: u32)
    ensures
        n == metrics.responses,
{
    metrics.responses
}

/// Both counts at once.
pub fn snapshot(metrics: &DropMetrics) -> (counts: DropCounts)
    ensures
        counts == (DropCounts { commands: metrics.commands, responses: metrics.responses }),
{
    DropCounts { commands: dropped_commands(metrics), responses: dropped_responses(metrics) }
}

/// Starts counting anew.
pub fn reset(metrics: &mut DropMetrics)
    ensures
        *final(metrics) == (DropMetrics { commands: 0, responses: 0 }),
{
    metrics.commands = 0;
    metrics.responses = 0;
}

/// Counts one dropped command.
pub fn record_dropped_command(metrics: &mut DropMetrics)
    ensures
        final(metrics).commands == bumped(old(metrics).commands),
        final(metrics).responses == old(metrics).responses,
{
    metrics.commands = metrics.commands.wrapping_add(1);
}

/// Counts one dropped response.
pub fn record_dropped_response(metrics: &mut DropMetrics)
    ensures
        final(metrics).responses == bumped(old(metrics).responses),
        final(metrics).commands == old(metrics).commands,
{
    metrics.responses = metrics.responses.wrapping_add(1);
}

/// Every drop counts once: the count grows by one, and starts over at zero after the
/// largest number.
pub proof fn lemma_each_drop_counts_once(count: u32)
    ensures
        count < 0xFFFF_FFFF ==> bumped(count) == count + 1,
        count == 0xFFFF_FFFF ==> bumped(count) == 0,
{
}

} // verus!
