//! The memory card: what a mount attempt means for the self test.

use super::self_test::SelfTestStatus;
use vstd::prelude::*;

verus! {

/// A date and time as a FAT file system records it.
#[derive(Debug, Clone, Copy, PartialEq, Eq, Structural)]
pub struct FatTimestamp {
    pub year_since_1970: u8,
    pub zero_indexed_month: u8,
    pub zero_indexed_day: u8,
    pub hours: u8,
    pub minutes: u8,
    pub seconds: u8,
}

/// The clock of a device without a clock: always midnight of 2024-01-01.
#[derive(Debug, Clone, Copy)]
pub struct DummyTimeSource;

impl DummyTimeSource {
    /// The fixed time.
    pub fn timestamp(&self) -> (t: FatTimestamp)
        ensures
            t == (FatTimestamp {
                year_since_1970: 54,
                zero_indexed_month: 0,
                zero_indexed_day: 0,
                hours: 0,
                minutes: 0,
                seconds: 0,
            }),
    {
        FatTimestamp {
            year_since_1970: 54,
            zero_indexed_month: 0,
            zero_indexed_day: 0,
            hours: 0,
            minutes: 0,
            seconds: 0,
        }
    }
}

impl Default for DummyTimeSource {
    fn default() -> (t: DummyTimeSource)
        ensures
            t == DummyTimeSource,
    {
        DummyTimeSource
    }
}

/// What is known of a mounted card.
#[derive(Debug, Clone, Copy, PartialEq, Eq, Structural)]
pub struct SdMountInfo {
    /// Capacity in bytes.
    pub bytes: u64,
    /// Entries of the root directory.
    pub entries: u32,
}

/// One more entry was listed.
pub fn count_entry(entries: u32) -> (n: u32)
    ensures
        n == (if entries == u32::MAX {
            u32::MAX
        } else {
            (entries + 1) as u32
        }),
{
    entries.saturating_add(1)
}

/// Judges a mount attempt. `bytes` is the card's capacity, nothing without a card;
/// `volume_opened` says whether its first FAT volume could be opened; `entries`
/// counts what its root directory listed, zero if it could not be listed.
pub fn try_mount(bytes: Option<u64>, volume_opened: bool, entries: u32) -> (r: (
    SelfTestStatus,
    Option<SdMountInfo>,
))
    ensures
        r == (match bytes {
            None => (SelfTestStatus::Fail("no card"), None::<SdMountInfo>),
            Some(bytes) => if volume_opened {
                (SelfTestStatus::Passed, Some(SdMountInfo { bytes, entries }))
            } else {
                (SelfTestStatus::Fail("no FAT"), None)
            },
        }),
{
    let bytes: u64 = match bytes {
        Some(b) => b,
        None => {
            return (SelfTestStatus::Fail("no card"), None);
        },
    };
    if !volume_opened {
        return (SelfTestStatus::Fail("no FAT"), None);
    }
    (SelfTestStatus::Passed, Some(SdMountInfo { bytes, entries }))
}

} // verus!
