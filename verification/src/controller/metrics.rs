//! How often settings were written to flash.

use vstd::prelude::*;

verus! {

/// A running count of flash writes.
#[derive(Debug, Clone, Copy, PartialEq, Eq, Structural)]
pub struct FlashMetrics {
    pub writes: u32,
}

impl FlashMetrics {
    /// Nothing written yet.
    pub fn new() -> (m: FlashMetrics)
        ensures
            m.writes == 0,
    {
        FlashMetrics { writes: 0 }
    }
}

impl Default for FlashMetrics {
    fn default() -> (m: FlashMetrics)
        ensures
            m.writes == 0,
    {
        FlashMetrics::new()
    }
}

/// Counts one write; the count wraps at the end of its range.
pub fn record_flash_write(metrics: &mut FlashMetrics)
    ensures
        final(metrics).writes == (if old(metrics).writes == u32::MAX {
            0
        } else {
            old(metrics).writes + 1
        }),
{
    metrics.writes = metrics.writes.wrapping_add(1);
}

/// Writes so far.
#[must_use]
pub fn flash_write_count(metrics: &FlashMetrics) -> (n: u32)
    ensures
        n == metrics.writes,
{
    metrics.writes
}

} // verus!
