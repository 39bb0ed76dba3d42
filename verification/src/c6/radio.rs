//! What the endpoint does with frames and commands.

use super::display::ViewModel;
use super::peer::INITIAL_RECEIVER_ID;
use super::self_test::SelfTestStatus;
use crate::comm::receiver::{CommandOutcome, CommandSource};
use crate::protocol::{Command, Frame};
use embassy_sync::blocking_mutex::raw::CriticalSectionRawMutex;
use embassy_sync::watch::Watch;
use vstd::prelude::*;

verus! {

/// A count that stays at its limit.
pub open spec fn counted(n: u32) -> u32 {
    if n == u32::MAX {
        n
    } else {
        (n + 1) as u32
    }
}

/// The number that follows on `seq`.
pub open spec fn follows(seq: u32) -> u32 {
    if seq == u32::MAX {
        0
    } else {
        (seq + 1) as u32
    }
}

/// The view after a frame: a frame whose number does not follow on the last one
/// counts as a gap, the first frame never does.
pub open spec fn frame_seen(vm: ViewModel, my_id: u8, frame: Frame) -> ViewModel {
    ViewModel {
        have_data: true,
        last_seq: frame.header.seq,
        gap_count: if vm.have_data && frame.header.seq != follows(vm.last_seq) {
            counted(vm.gap_count)
        } else {
            vm.gap_count
        },
        ok_count: counted(vm.ok_count),
        filtered_count: vm.filtered_count,
        receiver_id: my_id,
        assigned: my_id != INITIAL_RECEIVER_ID,
        reply_count: vm.reply_count,
        state: frame.payload,
    }
}

/// The view after a frame, by the view before it: nothing before the first frame.
pub open spec fn next_view_of(latest: Option<ViewModel>, my_id: u8, frame: Frame) -> ViewModel {
    frame_seen(
        match latest {
            Some(v) => v,
            None => ViewModel::spec_empty(),
        },
        my_id,
        frame,
    )
}

/// Takes a frame into the view. `latest` is the view so far, nothing before the
/// first frame; `my_id` is the id assigned to this endpoint.
pub fn next_view(latest: Option<ViewModel>, my_id: u8, frame: &Frame) -> (vm: ViewModel)
    ensures
        vm == next_view_of(latest, my_id, *frame),
{
    let mut vm = match latest {
        Some(v) => v,
        None => ViewModel::empty(),
    };
    if vm.have_data {
        let expected: u32 = vm.last_seq.wrapping_add(1);
        if frame.header.seq != expected {
            vm.gap_count = vm.gap_count.saturating_add(1);
        }
    }
    vm.have_data = true;
    vm.last_seq = frame.header.seq;
    vm.ok_count = vm.ok_count.saturating_add(1);
    vm.state = frame.payload;
    vm.receiver_id = my_id;
    vm.assigned = vm.receiver_id != INITIAL_RECEIVER_ID;
    vm
}

// ---- The view that is shown ----

/// How many may wait for a new view: the screen alone.
pub const WATCH_CONSUMERS: usize = 1;

/// The newest view, an `embassy_sync::watch::Watch`.
#[verifier::external_body]
pub struct StateWatch {
    slot: Watch<CriticalSectionRawMutex, ViewModel, WATCH_CONSUMERS>,
}

/// The newest view, nothing before the first one.
pub uninterp spec fn latest_view(watch: StateWatch) -> Option<ViewModel>;

/// How many hold one of the places to wait for a new view.
pub uninterp spec fn waiting(watch: StateWatch) -> nat;

impl View for StateWatch {
    type V = Option<ViewModel>;

    open spec fn view(&self) -> Option<ViewModel> {
        latest_view(*self)
    }
}

/// `Watch::new`: no value yet, and nobody waits.
#[verifier::external_body]
fn state_watch_new() -> (watch: StateWatch)
    ensures
        latest_view(watch) == None::<ViewModel>,
        waiting(watch) == 0,
{
    StateWatch { slot: Watch::new() }
}

/// `Watch::try_get`: a copy of the newest value, if there is one.
#[verifier::external_body]
fn state_watch_get(watch: &StateWatch) -> (vm: Option<ViewModel>)
    ensures
        vm == latest_view(*watch),
{
    watch.slot.try_get()
}

/// `Sender::send` of a `Watch`: the value is now the newest one. Who waits stays.
#[verifier::external_body]
fn state_watch_send(watch: &mut StateWatch, vm: ViewModel)
    ensures
        latest_view(*final(watch)) == Some(vm),
        waiting(*final(watch)) == waiting(*old(watch)),
{
    watch.slot.sender().send(vm)
}

/// `Watch::receiver`: hands out a place to wait while fewer are taken than the watch has.
/// The place is given back at once, so nothing changes.
#[verifier::external_body]
fn state_watch_has_slot(watch: &mut StateWatch) -> (free: bool)
    ensures
        free == (waiting(*old(watch)) < WATCH_CONSUMERS),
        latest_view(*final(watch)) == latest_view(*old(watch)),
        waiting(*final(watch)) == waiting(*old(watch)),
{
    watch.slot.receiver().is_some()
}

impl StateWatch {
    /// No view yet, and nobody waits.
    pub fn new() -> (w: StateWatch)
        ensures
            w@ == None::<ViewModel>,
            waiting(w) == 0,
    {
        state_watch_new()
    }

    /// The newest view.
    pub fn latest(&self) -> (vm: Option<ViewModel>)
        ensures
            vm == self@,
    {
        state_watch_get(self)
    }
}

/// Takes a frame into the newest view.
pub fn on_frame(_src: CommandSource, frame: &Frame, my_id: u8, watch: &mut StateWatch)
    ensures
        final(watch)@ == Some(next_view_of(old(watch)@, my_id, *frame)),
        waiting(*final(watch)) == waiting(*old(watch)),
{
    let vm = next_view(state_watch_get(watch), my_id, frame);
    state_watch_send(watch, vm);
}

/// Judges whether the screen can wait for views.
pub fn judge_watch(has_slot: bool) -> (status: SelfTestStatus)
    ensures
        status == (if has_slot {
            SelfTestStatus::Passed
        } else {
            SelfTestStatus::Fail("no slot")
        }),
{
    if has_slot {
        SelfTestStatus::Passed
    } else {
        SelfTestStatus::Fail("no slot")
    }
}

/// Checks whether the screen can wait for views: there is a place that nobody holds.
pub fn run_watch_check(watch: &mut StateWatch) -> (status: SelfTestStatus)
    ensures
        status == (if waiting(*old(watch)) < WATCH_CONSUMERS {
            SelfTestStatus::Passed
        } else {
            SelfTestStatus::Fail("no slot")
        }),
        final(watch)@ == old(watch)@,
        waiting(*final(watch)) == waiting(*old(watch)),
{
    judge_watch(state_watch_has_slot(watch))
}

/// Commands that reach the handler are meant for the gamepad itself; this endpoint
/// keeps silent.
pub fn on_command(_src: CommandSource, _cmd: &Command) -> (outcome: CommandOutcome)
    ensures
        outcome == CommandOutcome::NoReply,
{
    CommandOutcome::NoReply
}

/// An unbroken run of frames leaves the gap count alone.
pub proof fn lemma_no_gap_without_loss(vm: ViewModel, my_id: u8, frame: Frame, next: Frame)
    requires
        next.header.seq == follows(frame.header.seq),
    ensures
        frame_seen(frame_seen(vm, my_id, frame), my_id, next).gap_count == frame_seen(vm, my_id, frame).gap_count,
{
}

/// What a frame does to the view. It is shown as it came, with its number, and counts as
/// received; it counts as a gap exactly if a frame came before and its number is not one
/// more than that frame's. The id shown is the one that was assigned, and 255 stands for
/// none. The other counts stay. Counts stop at the largest number.
pub proof fn lemma_frame_is_shown_and_counted(vm: ViewModel, my_id: u8, frame: Frame)
    ensures
        ({
            let next = frame_seen(vm, my_id, frame);
            let due = if vm.last_seq == 0xFFFF_FFFF {
                0int
            } else {
                vm.last_seq + 1
            };
            let gap = vm.have_data && frame.header.seq != due;
            &&& next.have_data
            &&& next.state == frame.payload
            &&& next.last_seq == frame.header.seq
            &&& vm.ok_count < 0xFFFF_FFFF ==> next.ok_count == vm.ok_count + 1
            &&& vm.ok_count == 0xFFFF_FFFF ==> next.ok_count == 0xFFFF_FFFF
            &&& gap && vm.gap_count < 0xFFFF_FFFF ==> next.gap_count == vm.gap_count + 1
            &&& !gap || vm.gap_count == 0xFFFF_FFFF ==> next.gap_count == vm.gap_count
            &&& next.receiver_id == my_id
            &&& next.assigned <==> my_id != 255
            &&& next.filtered_count == vm.filtered_count
            &&& next.reply_count == vm.reply_count
        }),
{
}

/// The first frame is shown and counted like any other, and is never a gap.
pub proof fn lemma_first_frame_is_no_gap(my_id: u8, frame: Frame)
    ensures
        next_view_of(None, my_id, frame).gap_count == 0,
        next_view_of(None, my_id, frame).ok_count == 1,
        next_view_of(None, my_id, frame).last_seq == frame.header.seq,
        next_view_of(None, my_id, frame).state == frame.payload,
        next_view_of(None, my_id, frame).receiver_id == my_id,
{
}

/// Later frames go on from the view before.
pub proof fn lemma_later_frames_go_on(vm: ViewModel, my_id: u8, frame: Frame)
    ensures
        next_view_of(Some(vm), my_id, frame) == frame_seen(vm, my_id, frame),
{
}

} // verus!
