//! Points in time and spans of time, counted in timer ticks.
//!
//! One tick is one microsecond: the tick rate of `embassy-time` with its `std`
//! driver. The values are plain tick counts, so every comparison below is a
//! comparison of integers; the unit conversions are made by `embassy-time`.

use vstd::prelude::*;

verus! {

/// Ticks in one millisecond.
pub const TICKS_PER_MS: u64 = 1_000;

/// A point in time: ticks since boot.
#[derive(Debug, Clone, Copy, PartialEq, Eq, Structural)]
pub struct Instant {
    pub ticks: u64,
}

/// A span of time in ticks.
#[derive(Debug, Clone, Copy, PartialEq, Eq, Structural)]
pub struct Duration {
    pub ticks: u64,
}

/// `embassy_time::Duration::from_millis(ms).as_ticks()`: a millisecond is
/// `TICKS_PER_MS` ticks, exactly. The product is computed in `u64`.
#[verifier::external_body]
fn millis_to_ticks(ms: u64) -> (ticks: u64)
    requires
        ms * TICKS_PER_MS <= u64::MAX,
    ensures
        ticks == ms * TICKS_PER_MS,
{
    embassy_time::Duration::from_millis(ms).as_ticks()
}

/// `embassy_time::Duration::from_ticks(ticks).as_millis()`: whole milliseconds,
/// rounded down.
#[verifier::external_body]
fn ticks_to_millis(ticks: u64) -> (ms: u64)
    ensures
        ms == ticks / TICKS_PER_MS,
{
    embassy_time::Duration::from_ticks(ticks).as_millis()
}

/// `embassy_time::Instant::checked_duration_since` on tick counts: the span from
/// `earlier` to `later`, nothing when `earlier` is the later of the two.
#[verifier::external_body]
fn ticks_between(later: u64, earlier: u64) -> (span: Option<u64>)
    ensures
        span == (if later >= earlier { Some((later - earlier) as u64) } else { None }),
{
    let later = embassy_time::Instant::from_ticks(later);
    later.checked_duration_since(embassy_time::Instant::from_ticks(earlier)).map(|d| d.as_ticks())
}

impl Duration {
    /// A span of `ticks` ticks.
    pub fn from_ticks(ticks: u64) -> (d: Duration)
        ensures
            d.ticks == ticks,
    {
        Duration { ticks }
    }

    /// A span of `ms` milliseconds.
    pub fn from_millis(ms: u64) -> (d: Duration)
        requires
            ms * TICKS_PER_MS <= u64::MAX,
        ensures
            d.ticks == ms * TICKS_PER_MS,
    {
        Duration { ticks: millis_to_ticks(ms) }
    }

    /// Whole milliseconds in this span.
    pub fn as_millis(&self) -> (ms: u64)
        ensures
            ms == self.ticks / TICKS_PER_MS,
    {
        ticks_to_millis(self.ticks)
    }
}

impl Instant {
    /// The instant `ticks` ticks after boot.
    pub fn from_ticks(ticks: u64) -> (t: Instant)
        ensures
            t.ticks == ticks,
    {
        Instant { ticks }
    }

    /// The instant `ms` milliseconds after boot.
    pub fn from_millis(ms: u64) -> (t: Instant)
        requires
            ms * TICKS_PER_MS <= u64::MAX,
        ensures
            t.ticks == ms * TICKS_PER_MS,
    {
        Instant { ticks: millis_to_ticks(ms) }
    }

    /// Whole milliseconds since boot.
    pub fn as_millis(&self) -> (ms: u64)
        ensures
            ms == self.ticks / TICKS_PER_MS,
    {
        ticks_to_millis(self.ticks)
    }

    /// The span since `earlier`, or nothing if `earlier` lies in the future.
    pub fn checked_duration_since(&self, earlier: Instant) -> (span: Option<Duration>)
        ensures
            span == (if self.ticks >= earlier.ticks {
                Some(Duration { ticks: (self.ticks - earlier.ticks) as u64 })
            } else {
                None
            }),
    {
        match ticks_between(self.ticks, earlier.ticks) {
            Some(ticks) => Some(Duration { ticks }),
            None => None,
        }
    }

    /// The span since `earlier`, which must not lie in the future.
    pub fn duration_since(&self, earlier: Instant) -> (span: Duration)
        requires
            self.ticks >= earlier.ticks,
        ensures
            span.ticks == self.ticks - earlier.ticks,
    {
        match ticks_between(self.ticks, earlier.ticks) {
            Some(ticks) => Duration { ticks },
            None => Duration { ticks: 0 },
        }
    }
}

} // verus!
