//! One turn of the gamepad's main loop.

use super::config::{INPUT_SCAN_INTERVAL_MS, TRANSMIT_INTERVAL_MS};
use super::hal::ButtonState;
use super::input::SampleOutput;
use super::ui::selector::{
    self, active_dest_mask, handle_input, SelectorInput, SelectorOutcome, TargetSelectorInner,
};
use crate::comm::notifier::signals::CommandDest;
use crate::comm::notifier::Notifier;
use crate::comm::peer_registry::{self, PeerEntry};
use crate::protocol::{Command, CommandBody, Frame, GamepadState, COMMAND_LEN};
use crate::time::{Duration, Instant};
use vstd::prelude::*;

verus! {

/// A frame is sent every so many samples.
pub const TRANSMIT_EVERY_N: u32 = 3;

/// What the main loop counts.
#[derive(Debug, Clone, Copy, PartialEq, Eq, Structural)]
pub struct MainLoop {
    /// Number of the next frame.
    pub seq: u32,
    /// Number of the next sample.
    pub tick: u32,
}

/// What the selector reacts to in a sample. The stick's button is the switch.
pub fn selector_input(sample: &SampleOutput, now: Instant) -> (input: SelectorInput)
    ensures
        input == (SelectorInput {
            switch_on: sample.joy_button.down(),
            btn1_just_pressed: sample.buttons@[0] == ButtonState::JustPressed,
            btn2_just_pressed: sample.buttons@[1] == ButtonState::JustPressed,
            joy_y: sample.joystick.y,
            now,
        }),
{
    SelectorInput {
        switch_on: sample.joy_button.is_down(),
        btn1_just_pressed: sample.buttons[0] == ButtonState::JustPressed,
        btn2_just_pressed: sample.buttons[1] == ButtonState::JustPressed,
        joy_y: sample.joystick.y,
        now,
    }
}

/// A count that goes round.
pub open spec fn next_count(n: u32) -> u32 {
    if n == u32::MAX {
        0
    } else {
        (n + 1) as u32
    }
}

/// A frame is due: every so many samples, and never while the target is chosen.
pub open spec fn frame_due(m: MainLoop, suppressed: bool) -> bool {
    m.tick % TRANSMIT_EVERY_N == 0 && !suppressed
}

impl MainLoop {
    /// Nothing sampled yet.
    pub fn new() -> (m: MainLoop)
        ensures
            m == (MainLoop { seq: 0, tick: 0 }),
    {
        MainLoop { seq: 0, tick: 0 }
    }

    /// The frame to be sent after a sample, if one is due.
    pub fn next_frame(&mut self, outcome: &SelectorOutcome, state: GamepadState, dest_mask: u32) -> (frame: Option<Frame>)
        ensures
            frame == (if frame_due(*old(self), outcome.suppress_frame_send) {
                Some(Frame::spec_with_dest(old(self).seq, state, dest_mask))
            } else {
                None
            }),
            final(self).tick == next_count(old(self).tick),
            final(self).seq == (if frame is Some {
                next_count(old(self).seq)
            } else {
                old(self).seq
            }),
    {
        let mut frame: Option<Frame> = None;
        if self.tick % TRANSMIT_EVERY_N == 0 && !outcome.suppress_frame_send {
            frame = Some(Frame::with_dest(self.seq, state, dest_mask));
            self.seq = self.seq.wrapping_add(1);
        }
        self.tick = self.tick.wrapping_add(1);
        frame
    }
}

/// Looks for endpoints: those not heard for a while are forgotten, and everybody is
/// asked to report.
pub open spec fn looked_around<E: Fn(Command) -> [u8; COMMAND_LEN]>(
    n: Notifier,
    now: Instant,
    ttl: Duration,
    encode: E,
    next: Notifier,
) -> bool {
    exists|pruned: Notifier|
        {
            &&& pruned == (Notifier { peers: pruned.peers, ..n })
            &&& pruned.peers@ == n.peers@.filter(|e: PeerEntry| peer_registry::fresh(e, now, ttl))
            &&& #[trigger] pruned.sent(CommandDest::Broadcast, CommandBody::Announce, encode, next)
        }
}

/// Looks for endpoints.
pub fn look_around<E>(notifier: &mut Notifier, now: Instant, ttl: Duration, encode: E) where
    E: Fn(Command) -> [u8; COMMAND_LEN],

    requires
        old(notifier).wf(),
        forall|c: Command| encode.requires((c,)),
    ensures
        final(notifier).wf(),
        looked_around(*old(notifier), now, ttl, encode, *final(notifier)),
{
    let _ = notifier.peers.prune(now, ttl);
    let ghost pruned = *notifier;
    notifier.discover(encode);
    assert(pruned.sent(CommandDest::Broadcast, CommandBody::Announce, encode, *notifier));
}

/// One turn of the main loop: the selector reacts to the sample, opening the list of
/// endpoints looks for them, and a frame is handed out if one is due. `state` is the
/// sample after scaling.
pub fn on_sample<E>(
    main: &mut MainLoop,
    target: &mut TargetSelectorInner,
    notifier: &mut Notifier,
    sample: &SampleOutput,
    state: GamepadState,
    now: Instant,
    ttl: Duration,
    encode: E,
) -> (frame: Option<Frame>) where E: Fn(Command) -> [u8; COMMAND_LEN]
    requires
        old(target).not_after(now),
        old(notifier).wf(),
        forall|c: Command| encode.requires((c,)),
    ensures
        ({
            let input = SelectorInput {
                switch_on: sample.joy_button.down(),
                btn1_just_pressed: sample.buttons@[0] == ButtonState::JustPressed,
                btn2_just_pressed: sample.buttons@[1] == ButtonState::JustPressed,
                joy_y: sample.joystick.y,
                now,
            };
            let opened = old(target).mode is Normal && selector::long_press_ends(
                *old(target),
                input.switch_on,
                now,
            );
            &&& *final(target) == selector::handled(
                *old(target),
                input,
                peer_registry::infos(old(notifier).peers@),
            )
            &&& if opened {
                looked_around(*old(notifier), now, ttl, encode, *final(notifier))
            } else {
                *final(notifier) == *old(notifier)
            }
        }),
        frame == (if frame_due(*old(main), final(target).mode is Selecting) {
            Some(Frame::spec_with_dest(old(main).seq, state, final(target).active_dest_mask))
        } else {
            None
        }),
        final(main).tick == next_count(old(main).tick),
        final(main).seq == (if frame is Some {
            next_count(old(main).seq)
        } else {
            old(main).seq
        }),
        final(target).not_after(now),
        final(notifier).wf(),
{
    let input = selector_input(sample, now);
    let outcome = handle_input(target, &notifier.peers, input);
    if outcome.just_entered {
        look_around(notifier, now, ttl, encode);
    }
    main.next_frame(&outcome, state, active_dest_mask(target))
}

// ---- Laws ----

/// Frames leave at the pace of the samples: the period of the frames is three
/// samples, which is the period asked for, rounded down.
pub proof fn lemma_pace_of_frames()
    ensures
        TRANSMIT_EVERY_N == TRANSMIT_INTERVAL_MS / INPUT_SCAN_INTERVAL_MS,
{
}

/// No frame leaves while the target is being chosen.
pub proof fn lemma_choosing_is_silent(m: MainLoop)
    ensures
        !frame_due(m, true),
{
}

/// Of any three samples in a row exactly one sends a frame, unless the target is being
/// chosen; the numbers of samples and frames go up by one.
pub proof fn lemma_every_third_sample_sends(tick: u32, seq: u32)
    requires
        tick < 0xFFFF_FFFD,
    ensures
        frame_due(MainLoop { seq, tick }, false) <==> tick % 3 == 0,
        ({
            let a = frame_due(MainLoop { seq, tick }, false);
            let b = frame_due(MainLoop { seq, tick: (tick + 1) as u32 }, false);
            let c = frame_due(MainLoop { seq, tick: (tick + 2) as u32 }, false);
            (a && !b && !c) || (!a && b && !c) || (!a && !b && c)
        }),
        next_count(tick) == tick + 1,
        next_count(0xFFFF_FFFF) == 0,
{
}

/// Looking for endpoints forgets exactly those that were not heard for longer than the
/// limit, keeps the others as they are, and asks everybody to report: with room in the
/// queue the last command in it is an announcement for all.
pub proof fn lemma_looking_around_forgets_and_asks<E: Fn(Command) -> [u8; COMMAND_LEN]>(
    n: Notifier,
    now: Instant,
    ttl: Duration,
    encode: E,
    next: Notifier,
    i: int,
)
    requires
        n.wf(),
        looked_around(n, now, ttl, encode, next),
        0 <= i < n.peers@.len(),
    ensures
        now.ticks - n.peers@[i].last_seen.ticks <= ttl.ticks <==> next.peers@.contains(n.peers@[i]),
        forall|e: PeerEntry| #[trigger] next.peers@.contains(e) ==> n.peers@.contains(e),
        n.command_signal@.len() < 8 ==> {
            &&& next.command_signal@.len() == n.command_signal@.len() + 1
            &&& next.command_signal@.last().dest == CommandDest::Broadcast
            &&& encode.ensures(
                (crate::comm::notifier::numbered(n.state.keyring, CommandBody::Announce),),
                next.command_signal@.last().bytes,
            )
        },
{
    let pruned = choose|pruned: Notifier|
        {
            &&& pruned == (Notifier { peers: pruned.peers, ..n })
            &&& pruned.peers@ == n.peers@.filter(|e: PeerEntry| peer_registry::fresh(e, now, ttl))
            &&& #[trigger] pruned.sent(CommandDest::Broadcast, CommandBody::Announce, encode, next)
        };
    peer_registry::lemma_prune_goes_by_age(n.peers@, now, ttl, i);
    crate::comm::notifier::lemma_command_waits_or_counts(
        pruned,
        CommandDest::Broadcast,
        CommandBody::Announce,
        encode,
        next,
    );
}

} // verus!
