//! The power-on self test: what is tested, with what result, and what it means.

use crate::protocol::{Frame, GamepadState, FRAME_LEN};
use vstd::prelude::*;

verus! {

/// What is tested, in the order shown on the screen.
#[derive(Debug, Clone, Copy, PartialEq, Eq, Structural)]
pub enum SelfTestItem {
    Heap,
    Lcd,
    Sd,
    Wifi,
    EspNow,
    Codec,
    Watch,
}

/// Number of items.
pub const ITEM_COUNT: usize = 7;

/// All items, from the top of the screen down.
pub const ALL_ITEMS: [SelfTestItem; ITEM_COUNT] = [
    SelfTestItem::Heap,
    SelfTestItem::Lcd,
    SelfTestItem::Sd,
    SelfTestItem::Wifi,
    SelfTestItem::EspNow,
    SelfTestItem::Codec,
    SelfTestItem::Watch,
];

impl SelfTestItem {
    /// The item's place on the screen.
    pub open spec fn position(self) -> int {
        match self {
            SelfTestItem::Heap => 0,
            SelfTestItem::Lcd => 1,
            SelfTestItem::Sd => 2,
            SelfTestItem::Wifi => 3,
            SelfTestItem::EspNow => 4,
            SelfTestItem::Codec => 5,
            SelfTestItem::Watch => 6,
        }
    }

    /// The item at a place on the screen.
    pub open spec fn at(i: int) -> SelfTestItem {
        if i == 0 {
            SelfTestItem::Heap
        } else if i == 1 {
            SelfTestItem::Lcd
        } else if i == 2 {
            SelfTestItem::Sd
        } else if i == 3 {
            SelfTestItem::Wifi
        } else if i == 4 {
            SelfTestItem::EspNow
        } else if i == 5 {
            SelfTestItem::Codec
        } else {
            SelfTestItem::Watch
        }
    }

    /// The item's name on the screen.
    pub open spec fn name(self) -> Seq<char> {
        match self {
            SelfTestItem::Heap => "HEAP  "@,
            SelfTestItem::Lcd => "LCD   "@,
            SelfTestItem::Sd => "SDCARD"@,
            SelfTestItem::Wifi => "WIFI  "@,
            SelfTestItem::EspNow => "ESPNOW"@,
            SelfTestItem::Codec => "CODEC "@,
            SelfTestItem::Watch => "WATCH "@,
        }
    }

    fn index(self) -> (i: usize)
        ensures
            i == self.position(),
            i < ITEM_COUNT,
    {
        match self {
            SelfTestItem::Heap => 0,
            SelfTestItem::Lcd => 1,
            SelfTestItem::Sd => 2,
            SelfTestItem::Wifi => 3,
            SelfTestItem::EspNow => 4,
            SelfTestItem::Codec => 5,
            SelfTestItem::Watch => 6,
        }
    }

    /// The item's name on the screen.
    pub fn label(self) -> (s: &'static str)
        ensures
            s@ == self.name(),
    {
        match self {
            SelfTestItem::Heap => "HEAP  ",
            SelfTestItem::Lcd => "LCD   ",
            SelfTestItem::Sd => "SDCARD",
            SelfTestItem::Wifi => "WIFI  ",
            SelfTestItem::EspNow => "ESPNOW",
            SelfTestItem::Codec => "CODEC ",
            SelfTestItem::Watch => "WATCH ",
        }
    }

    /// The device cannot work if this item fails. The card is optional.
    pub fn is_critical(self) -> (r: bool)
        ensures
            r == (self != SelfTestItem::Sd),
    {
        self != SelfTestItem::Sd
    }
}

/// The result of one item.
#[derive(Debug, Clone, Copy, PartialEq, Eq)]
pub enum SelfTestStatus {
    Pending,
    Passed,
    /// Failed, for a reason short enough for the screen.
    Fail(&'static str),
}

impl SelfTestStatus {
    /// The item failed.
    pub fn is_fail(self) -> (r: bool)
        ensures
            r == (self is Fail),
    {
        match self {
            SelfTestStatus::Fail(_) => true,
            _ => false,
        }
    }
}

/// The results of all items, in screen order.
#[derive(Debug, Clone, Copy)]
pub struct SelfTestReport {
    pub items: [SelfTestStatus; ITEM_COUNT],
}

impl SelfTestReport {
    /// The result of an item.
    pub open spec fn status(self, item: SelfTestItem) -> SelfTestStatus {
        self.items@[item.position()]
    }

    /// Nothing tested yet.
    pub fn new() -> (r: SelfTestReport)
        ensures
            forall|item: SelfTestItem| #[trigger] r.status(item) == SelfTestStatus::Pending,
    {
        let p = SelfTestStatus::Pending;
        SelfTestReport { items: [p, p, p, p, p, p, p] }
    }

    /// Records the result of an item; the others stay.
    pub fn mark(&mut self, item: SelfTestItem, status: SelfTestStatus)
        ensures
            forall|other: SelfTestItem| #[trigger]
                final(self).status(other) == (if other == item {
                    status
                } else {
                    old(self).status(other)
                }),
    {
        let idx: usize = item.index();
        self.items[idx] = status;
    }

    /// The result of an item.
    pub fn status_of(&self, item: SelfTestItem) -> (s: SelfTestStatus)
        ensures
            s == self.status(item),
    {
        self.items[item.index()]
    }

    /// Whether an item failed without which the device cannot work.
    pub fn any_critical_fail(&self) -> (r: bool)
        ensures
            r == exists|item: SelfTestItem| item != SelfTestItem::Sd && #[trigger] self.status(item) is Fail,
    {
        let mut i: usize = 0;
        while i < ITEM_COUNT
            invariant
                i <= ITEM_COUNT,
                forall|item: SelfTestItem|
                    item.position() < i && item != SelfTestItem::Sd ==> !(#[trigger] self.status(item) is Fail),
            decreases ITEM_COUNT - i,
        {
            let item = item_at(i);
            if item.is_critical() && self.items[i].is_fail() {
                assert(self.status(item) is Fail);
                return true;
            }
            i = i + 1;
        }
        false
    }

    /// Whether any item failed.
    pub fn any_fail(&self) -> (r: bool)
        ensures
            r == self.has_fail(),
    {
        let mut i: usize = 0;
        while i < ITEM_COUNT
            invariant
                i <= ITEM_COUNT,
                forall|item: SelfTestItem| item.position() < i ==> !(#[trigger] self.status(item) is Fail),
            decreases ITEM_COUNT - i,
        {
            if self.items[i].is_fail() {
                assert(self.status(SelfTestItem::at(i as int)) is Fail);
                return true;
            }
            i = i + 1;
        }
        false
    }

    /// Some item failed.
    pub open spec fn has_fail(self) -> bool {
        exists|item: SelfTestItem| #[trigger] self.status(item) is Fail
    }

    /// Every item passed.
    pub open spec fn has_passed(self) -> bool {
        forall|item: SelfTestItem| #[trigger] self.status(item) is Passed
    }

    /// Whether every item passed.
    pub fn all_ok(&self) -> (r: bool)
        ensures
            r == self.has_passed(),
    {
        let mut i: usize = 0;
        while i < ITEM_COUNT
            invariant
                i <= ITEM_COUNT,
                forall|item: SelfTestItem| item.position() < i ==> #[trigger] self.status(item) is Passed,
            decreases ITEM_COUNT - i,
        {
            match self.items[i] {
                SelfTestStatus::Passed => {},
                _ => {
                    assert(!(self.status(SelfTestItem::at(i as int)) is Passed));
                    return false;
                },
            }
            i = i + 1;
        }
        true
    }
}

impl Default for SelfTestReport {
    fn default() -> (r: SelfTestReport)
        ensures
            forall|item: SelfTestItem| #[trigger] r.status(item) == SelfTestStatus::Pending,
    {
        SelfTestReport::new()
    }
}

/// The item at a place on the screen.
pub fn item_at(i: usize) -> (item: SelfTestItem)
    requires
        i < ITEM_COUNT,
    ensures
        item == SelfTestItem::at(i as int),
        item.position() == i,
{
    ALL_ITEMS[i]
}

/// How many bytes the heap test asks for.
pub const HEAP_CHECK_BYTES: usize = 512;

/// A block of heap memory that was asked for, the capacity of a `Vec` of bytes.
#[verifier::external_body]
pub struct HeapBlock {
    bytes: Vec<u8>,
}

/// How many bytes a block was made with. The allocator may have given more.
pub uninterp spec fn asked_bytes(block: HeapBlock) -> nat;

/// `Vec::with_capacity`: a vector that was made for `n` bytes. Larger requests than a
/// 32-bit address space can hold would panic and are left out.
#[verifier::external_body]
fn block_reserve(n: usize) -> (block: HeapBlock)
    requires
        n <= 0x7FFF_FFFF,
    ensures
        asked_bytes(block) == n,
{
    HeapBlock { bytes: Vec::with_capacity(n) }
}

/// `Vec::capacity`: at least as much as the vector was made for. How much more depends
/// on the allocator and is left open.
#[verifier::external_body]
fn block_capacity(block: &HeapBlock) -> (capacity: usize)
    ensures
        capacity >= asked_bytes(*block),
{
    block.bytes.capacity()
}

/// The result of the heap test, by the capacity that was reserved.
pub open spec fn heap_status(capacity: usize) -> SelfTestStatus {
    if capacity < HEAP_CHECK_BYTES {
        SelfTestStatus::Fail("alloc<512B")
    } else {
        SelfTestStatus::Passed
    }
}

/// Judges the capacity that the heap test reserved.
pub fn judge_heap(capacity: usize) -> (s: SelfTestStatus)
    ensures
        s == heap_status(capacity),
{
    if capacity < HEAP_CHECK_BYTES {
        SelfTestStatus::Fail("alloc<512B")
    } else {
        SelfTestStatus::Passed
    }
}

/// Reserves a small block and judges it. A heap that hands out the block at all hands
/// out enough.
pub fn run_heap_check() -> (s: SelfTestStatus)
    ensures
        s is Passed,
{
    let block = block_reserve(HEAP_CHECK_BYTES);
    judge_heap(block_capacity(&block))
}

/// The frame that the codec test sends through encoder and decoder.
pub open spec fn codec_probe() -> Frame {
    Frame::spec_with_dest(0x1234_5678, GamepadState::spec_empty(), 0)
}

/// The result of the codec test, by what was sent and what the decoder made of it.
pub open spec fn codec_status(sent: Frame, decoded: Option<Frame>) -> SelfTestStatus {
    match decoded {
        Some(frame) => if frame.header.seq == sent.header.seq && frame.payload == sent.payload {
            SelfTestStatus::Passed
        } else {
            SelfTestStatus::Fail("decode!=orig")
        },
        None => SelfTestStatus::Fail("decode err"),
    }
}

/// Judges what the decoder made of a frame.
pub fn judge_codec(sent: &Frame, decoded: Option<Frame>) -> (s: SelfTestStatus)
    ensures
        s == codec_status(*sent, decoded),
{
    match decoded {
        Some(frame) => {
            if frame.header.seq == sent.header.seq && frame.payload == sent.payload {
                SelfTestStatus::Passed
            } else {
                SelfTestStatus::Fail("decode!=orig")
            }
        },
        None => SelfTestStatus::Fail("decode err"),
    }
}

/// Sends a probe through encoder and decoder and judges what comes out.
pub fn run_codec_check<E, D>(encode: E, decode: D) -> (s: SelfTestStatus) where
    E: Fn(Frame) -> [u8; FRAME_LEN],
    D: Fn(&[u8]) -> Option<Frame>,

    requires
        encode.requires((codec_probe(),)),
        forall|wire: &[u8]| decode.requires((wire,)),
    ensures
        exists|bytes: [u8; FRAME_LEN], wire: &[u8], decoded: Option<Frame>|
            {
                &&& #[trigger] encode.ensures((codec_probe(),), bytes)
                &&& wire@ == bytes@
                &&& #[trigger] decode.ensures((wire,), decoded)
                &&& s == codec_status(codec_probe(), decoded)
            },
{
    let sent = Frame::new(0x1234_5678, GamepadState::empty());
    let bytes = encode(sent);
    let wire = vstd::array::array_as_slice(&bytes);
    let decoded = decode(wire);
    judge_codec(&sent, decoded)
}

/// What the device does after the self test.
#[derive(Debug, Clone, Copy, PartialEq, Eq, Structural)]
pub enum BootDecision {
    /// Something it cannot work without failed: stay on the self test screen.
    Halt,
    /// Only something optional failed: go on.
    RunWithWarnings,
    /// Nothing failed: go on.
    Run,
}

/// Decides how to go on after the self test.
pub fn boot_decision(report: &SelfTestReport) -> (d: BootDecision)
    ensures
        d == (if exists|item: SelfTestItem| item != SelfTestItem::Sd && #[trigger] report.status(item) is Fail {
            BootDecision::Halt
        } else if report.has_fail() {
            BootDecision::RunWithWarnings
        } else {
            BootDecision::Run
        }),
{
    if report.any_critical_fail() {
        BootDecision::Halt
    } else if report.any_fail() {
        BootDecision::RunWithWarnings
    } else {
        BootDecision::Run
    }
}

/// A missing card alone never keeps the device from working.
pub proof fn lemma_card_is_optional(report: SelfTestReport)
    requires
        forall|item: SelfTestItem| item != SelfTestItem::Sd ==> !(#[trigger] report.status(item) is Fail),
    ensures
        report.has_fail() <==> report.status(SelfTestItem::Sd) is Fail,
{
}

/// The codec passes exactly if what comes out has the number and the state of what went
/// in; what cannot be decoded fails for another reason than what differs.
pub proof fn lemma_codec_must_give_back_what_it_took(sent: Frame, decoded: Option<Frame>)
    ensures
        codec_status(sent, decoded) is Passed <==> decoded is Some && decoded->0.header.seq == sent.header.seq
            && decoded->0.payload == sent.payload,
        decoded is None ==> codec_status(sent, decoded) == SelfTestStatus::Fail("decode err"),
        decoded is Some && !(codec_status(sent, decoded) is Passed) ==> codec_status(sent, decoded)
            == SelfTestStatus::Fail("decode!=orig"),
        codec_status(sent, Some(sent)) is Passed,
{
}

/// The heap passes exactly if it gave at least 512 bytes.
pub proof fn lemma_heap_must_give_enough(capacity: usize)
    ensures
        capacity >= 512 ==> heap_status(capacity) is Passed,
        capacity < 512 ==> heap_status(capacity) == SelfTestStatus::Fail("alloc<512B"),
{
}

/// Every item has a place of its own on the screen.
pub proof fn lemma_items_have_their_places(item: SelfTestItem, i: int)
    ensures
        0 <= item.position() < 7,
        SelfTestItem::at(item.position()) == item,
        0 <= i < 7 ==> SelfTestItem::at(i).position() == i,
{
}

} // verus!
