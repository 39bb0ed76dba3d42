//! Choosing on the gamepad which endpoints the frames go to.
//!
//! A long press switches between sending frames and choosing. While choosing, the
//! stick moves a cursor over the known endpoints, one button adds the endpoint under
//! the cursor and another removes it, and no frame is sent. Leaving, or doing
//! nothing for a while, puts the choice in force.

use crate::bits;
use crate::comm::peer_registry::{self, PeerInfo, PeerList, PeerRegistry};
use crate::time::{Duration, Instant, TICKS_PER_MS};
use vstd::prelude::*;

verus! {

/// Endpoints that the panel shows at once.
pub const VISIBLE_ROWS: usize = 3;

/// A press this long switches the mode when it ends.
pub const SWITCH_LONG_PRESS_MS: u64 = 800;

/// Choosing ends after this long without an action.
pub const SELECTOR_TIMEOUT_MS: u64 = 10_000;

/// A deflection of the stick that moves the cursor.
pub const JOY_EDGE_THRESHOLD: i16 = 1000;

/// The stick must come back to less than this before it moves the cursor again.
pub const JOY_EDGE_RELEASE: i16 = 400;

/// All endpoints.
pub const BROADCAST_MASK: u32 = 0xFFFF_FFFF;

/// What the inputs are used for.
#[derive(Debug, Clone, Copy, PartialEq, Eq, Structural)]
pub enum UiMode {
    /// For frames.
    Normal,
    /// For choosing.
    Selecting,
}

impl Default for UiMode {
    fn default() -> (m: UiMode)
        ensures
            m == UiMode::Normal,
    {
        UiMode::Normal
    }
}

impl UiMode {
    /// Whether the inputs are used for choosing.
    pub fn is_selecting(self) -> (r: bool)
        ensures
            r == (self is Selecting),
    {
        match self {
            UiMode::Selecting => true,
            UiMode::Normal => false,
        }
    }
}

/// What the panel shows.
pub struct SelectorSnapshot {
    /// The endpoint under the cursor.
    pub cursor: u8,
    /// The endpoints chosen so far.
    pub pending_mask: u32,
    /// The known endpoints.
    pub candidates: PeerList,
    /// Milliseconds until choosing ends by itself.
    pub remaining_ms: u32,
}

impl SelectorSnapshot {
    /// Nothing to show.
    pub fn empty() -> (s: SelectorSnapshot)
        ensures
            s.cursor == 0,
            s.pending_mask == 0,
            s.candidates@ == Seq::<PeerInfo>::empty(),
            s.remaining_ms == 0,
    {
        SelectorSnapshot { cursor: 0, pending_mask: 0, candidates: PeerList::new(), remaining_ms: 0 }
    }
}

/// The state of the selector.
#[derive(Debug, Clone, Copy)]
pub struct TargetSelectorInner {
    pub mode: UiMode,
    pub cursor: u8,
    /// The endpoints chosen so far.
    pub pending_mask: u32,
    /// When choosing began.
    pub entered_at: Instant,
    /// When the last action happened.
    pub last_activity_at: Instant,
    /// Since when the switch has been pressed.
    pub switch_press_started_at: Option<Instant>,
    /// The stick has moved the cursor and has not come back yet.
    pub joy_y_edge_latched: bool,
    /// The endpoints that frames go to.
    pub active_dest_mask: u32,
}

/// A movement of the stick that moves the cursor.
#[derive(Debug, Clone, Copy, PartialEq, Eq, Structural)]
pub enum JoyYEdge {
    Up,
    Down,
    Neither,
}

/// One sample of what the selector reacts to.
#[derive(Debug, Clone, Copy)]
pub struct SelectorInput {
    pub switch_on: bool,
    pub btn1_just_pressed: bool,
    pub btn2_just_pressed: bool,
    pub joy_y: i16,
    pub now: Instant,
}

/// What a sample led to.
#[derive(Debug, Clone, Copy, PartialEq, Eq, Structural)]
pub struct SelectorOutcome {
    /// No frame may be sent now.
    pub suppress_frame_send: bool,
    pub just_exited: bool,
    pub just_entered: bool,
}

// ---- What each action does ----

/// A press that ends now was a long one.
pub open spec fn long_press_ends(s: TargetSelectorInner, switch_on: bool, now: Instant) -> bool {
    !switch_on && s.switch_press_started_at is Some && now.ticks - s.switch_press_started_at->0.ticks
        >= SWITCH_LONG_PRESS_MS * TICKS_PER_MS
}

/// The selector after looking at the switch: a press is timed from its first sample.
pub open spec fn switch_seen(s: TargetSelectorInner, switch_on: bool, now: Instant) -> TargetSelectorInner {
    TargetSelectorInner {
        switch_press_started_at: if !switch_on {
            None
        } else if s.switch_press_started_at is None {
            Some(now)
        } else {
            s.switch_press_started_at
        },
        ..s
    }
}

/// The selector after choosing began. Sending to all counts as no choice made yet.
pub open spec fn entered(s: TargetSelectorInner, now: Instant) -> TargetSelectorInner {
    TargetSelectorInner {
        mode: UiMode::Selecting,
        cursor: 0,
        pending_mask: if s.active_dest_mask == BROADCAST_MASK {
            0
        } else {
            s.active_dest_mask
        },
        entered_at: now,
        last_activity_at: now,
        joy_y_edge_latched: false,
        ..s
    }
}

/// The selector after choosing ended. No choice means sending to all.
pub open spec fn exited(s: TargetSelectorInner) -> TargetSelectorInner {
    TargetSelectorInner {
        mode: UiMode::Normal,
        active_dest_mask: if s.pending_mask == 0 {
            BROADCAST_MASK
        } else {
            s.pending_mask
        },
        switch_press_started_at: None,
        ..s
    }
}

/// The movement that a deflection means.
pub open spec fn edge(s: TargetSelectorInner, joy_y: i16) -> JoyYEdge {
    if s.joy_y_edge_latched {
        JoyYEdge::Neither
    } else if joy_y >= JOY_EDGE_THRESHOLD {
        JoyYEdge::Up
    } else if joy_y <= -JOY_EDGE_THRESHOLD {
        JoyYEdge::Down
    } else {
        JoyYEdge::Neither
    }
}

/// Whether the stick still has to come back.
pub open spec fn latched(s: TargetSelectorInner, joy_y: i16) -> bool {
    if s.joy_y_edge_latched {
        !(-JOY_EDGE_RELEASE < joy_y < JOY_EDGE_RELEASE)
    } else {
        edge(s, joy_y) != JoyYEdge::Neither
    }
}

/// The selector after looking at the stick: the cursor moves one endpoint up or
/// down, round and round.
pub open spec fn stick_seen(s: TargetSelectorInner, input: SelectorInput, n: int) -> TargetSelectorInner {
    TargetSelectorInner {
        joy_y_edge_latched: latched(s, input.joy_y),
        cursor: match edge(s, input.joy_y) {
            JoyYEdge::Up => ((s.cursor - 1) % n) as u8,
            JoyYEdge::Down => ((s.cursor + 1) % n) as u8,
            JoyYEdge::Neither => s.cursor,
        },
        last_activity_at: if edge(s, input.joy_y) == JoyYEdge::Neither {
            s.last_activity_at
        } else {
            input.now
        },
        ..s
    }
}

/// The choice with the endpoint under the cursor.
pub open spec fn with_current(mask: u32, cursor: u8, candidates: Seq<PeerInfo>) -> u32 {
    if cursor < candidates.len() {
        mask | bits::one_bit(candidates[cursor as int].receiver_id as int % 32)
    } else {
        mask
    }
}

/// The choice without the endpoint under the cursor.
pub open spec fn without_current(mask: u32, cursor: u8, candidates: Seq<PeerInfo>) -> u32 {
    if cursor < candidates.len() {
        mask & !bits::one_bit(candidates[cursor as int].receiver_id as int % 32)
    } else {
        mask
    }
}

/// The selector after looking at the buttons.
pub open spec fn buttons_seen(s: TargetSelectorInner, input: SelectorInput, candidates: Seq<PeerInfo>) -> TargetSelectorInner {
    let added = if input.btn1_just_pressed {
        with_current(s.pending_mask, s.cursor, candidates)
    } else {
        s.pending_mask
    };
    TargetSelectorInner {
        pending_mask: if input.btn2_just_pressed {
            without_current(added, s.cursor, candidates)
        } else {
            added
        },
        last_activity_at: if input.btn1_just_pressed || input.btn2_just_pressed {
            input.now
        } else {
            s.last_activity_at
        },
        ..s
    }
}

/// The selector after looking at the switch and switching the mode.
pub open spec fn toggled(s: TargetSelectorInner, input: SelectorInput) -> TargetSelectorInner {
    let seen = switch_seen(s, input.switch_on, input.now);
    if !long_press_ends(s, input.switch_on, input.now) {
        seen
    } else if s.mode is Normal {
        entered(seen, input.now)
    } else {
        exited(seen)
    }
}

/// Choosing has gone on too long without an action.
pub open spec fn timed_out(s: TargetSelectorInner, now: Instant) -> bool {
    s.mode is Selecting && now.ticks - s.last_activity_at.ticks >= SELECTOR_TIMEOUT_MS * TICKS_PER_MS
}

/// The selector after a sample.
pub open spec fn handled(s: TargetSelectorInner, input: SelectorInput, candidates: Seq<PeerInfo>) -> TargetSelectorInner {
    let t = toggled(s, input);
    if t.mode is Normal {
        t
    } else if timed_out(t, input.now) {
        exited(t)
    } else if candidates.len() > 0 {
        buttons_seen(stick_seen(t, input, candidates.len() as int), input, candidates)
    } else {
        t
    }
}

impl TargetSelectorInner {
    /// Nothing recorded lies after `now`.
    pub open spec fn not_after(self, now: Instant) -> bool {
        &&& self.last_activity_at.ticks <= now.ticks
        &&& self.switch_press_started_at is Some ==> self.switch_press_started_at->0.ticks <= now.ticks
    }

    /// Frames go to all endpoints.
    pub fn new() -> (s: TargetSelectorInner)
        ensures
            s == (TargetSelectorInner {
                mode: UiMode::Normal,
                cursor: 0,
                pending_mask: 0,
                entered_at: Instant { ticks: 0 },
                last_activity_at: Instant { ticks: 0 },
                switch_press_started_at: None,
                joy_y_edge_latched: false,
                active_dest_mask: BROADCAST_MASK,
            }),
    {
        TargetSelectorInner {
            mode: UiMode::Normal,
            cursor: 0,
            pending_mask: 0,
            entered_at: Instant::from_ticks(0),
            last_activity_at: Instant::from_ticks(0),
            switch_press_started_at: None,
            joy_y_edge_latched: false,
            active_dest_mask: BROADCAST_MASK,
        }
    }
}

/// Looks at the switch; true if a long press ends now.
pub fn detect_switch_long_press(inner: &mut TargetSelectorInner, switch_on: bool, now: Instant) -> (toggle: bool)
    requires
        old(inner).not_after(now),
    ensures
        toggle == long_press_ends(*old(inner), switch_on, now),
        *final(inner) == switch_seen(*old(inner), switch_on, now),
{
    match (switch_on, inner.switch_press_started_at) {
        (true, None) => {
            inner.switch_press_started_at = Some(now);
            false
        },
        (true, Some(_)) => false,
        (false, Some(started)) => {
            inner.switch_press_started_at = None;
            now.duration_since(started).ticks >= Duration::from_millis(SWITCH_LONG_PRESS_MS).ticks
        },
        (false, None) => false,
    }
}

/// Begins choosing.
pub fn enter_selecting(inner: &mut TargetSelectorInner, now: Instant)
    ensures
        *final(inner) == entered(*old(inner), now),
{
    inner.mode = UiMode::Selecting;
    inner.cursor = 0;
    inner.pending_mask = if inner.active_dest_mask == BROADCAST_MASK {
        0
    } else {
        inner.active_dest_mask
    };
    inner.entered_at = now;
    inner.last_activity_at = now;
    inner.joy_y_edge_latched = false;
}

/// Ends choosing and puts the choice in force.
pub fn exit_selecting_saving(inner: &mut TargetSelectorInner)
    ensures
        *final(inner) == exited(*old(inner)),
{
    inner.mode = UiMode::Normal;
    inner.active_dest_mask = if inner.pending_mask == 0 {
        BROADCAST_MASK
    } else {
        inner.pending_mask
    };
    inner.switch_press_started_at = None;
}

/// Looks at the stick. One deflection counts once, until the stick has come back.
pub fn detect_joy_y_edge(inner: &mut TargetSelectorInner, joy_y: i16) -> (e: JoyYEdge)
    ensures
        e == edge(*old(inner), joy_y),
        *final(inner) == (TargetSelectorInner {
            joy_y_edge_latched: latched(*old(inner), joy_y),
            ..*old(inner)
        }),
{
    if inner.joy_y_edge_latched {
        if -JOY_EDGE_RELEASE < joy_y && joy_y < JOY_EDGE_RELEASE {
            inner.joy_y_edge_latched = false;
        }
        return JoyYEdge::Neither;
    }
    if joy_y >= JOY_EDGE_THRESHOLD {
        inner.joy_y_edge_latched = true;
        return JoyYEdge::Up;
    }
    if joy_y <= -JOY_EDGE_THRESHOLD {
        inner.joy_y_edge_latched = true;
        return JoyYEdge::Down;
    }
    JoyYEdge::Neither
}

/// Moves the cursor one endpoint up or down, round and round.
pub fn move_cursor(inner: &mut TargetSelectorInner, down: bool, len: usize)
    requires
        0 < len <= 255,
    ensures
        *final(inner) == (TargetSelectorInner {
            cursor: (if down {
                (old(inner).cursor + 1) % (len as int)
            } else {
                (old(inner).cursor - 1) % (len as int)
            }) as u8,
            ..*old(inner)
        }),
        final(inner).cursor < len,
{
    let cur: u32 = inner.cursor as u32;
    let n: u32 = len as u32;
    let next: u32 = if down {
        (cur + 1) % n
    } else {
        proof {
            vstd::arithmetic::div_mod::lemma_mod_add_multiples_vanish(cur - 1, n as int);
        }
        (cur + n - 1) % n
    };
    inner.cursor = next as u8;
}

/// Adds the endpoint under the cursor to the choice.
pub fn add_current_to_mask(inner: &mut TargetSelectorInner, candidates: &[PeerInfo])
    ensures
        *final(inner) == (TargetSelectorInner {
            pending_mask: with_current(old(inner).pending_mask, old(inner).cursor, candidates@),
            ..*old(inner)
        }),
{
    if (inner.cursor as usize) < candidates.len() {
        let bit: u32 = (candidates[inner.cursor as usize].receiver_id % 32) as u32;
        inner.pending_mask = inner.pending_mask | (1u32 << bit);
    }
}

/// Removes the endpoint under the cursor from the choice.
pub fn remove_current_from_mask(inner: &mut TargetSelectorInner, candidates: &[PeerInfo])
    ensures
        *final(inner) == (TargetSelectorInner {
            pending_mask: without_current(old(inner).pending_mask, old(inner).cursor, candidates@),
            ..*old(inner)
        }),
{
    if (inner.cursor as usize) < candidates.len() {
        let bit: u32 = (candidates[inner.cursor as usize].receiver_id % 32) as u32;
        inner.pending_mask = inner.pending_mask & !(1u32 << bit);
    }
}

/// Reacts to one sample.
pub fn handle_input(inner: &mut TargetSelectorInner, registry: &PeerRegistry, input: SelectorInput) -> (outcome: SelectorOutcome)
    requires
        old(inner).not_after(input.now),
    ensures
        *final(inner) == handled(*old(inner), input, peer_registry::infos(registry@)),
        outcome == (SelectorOutcome {
            suppress_frame_send: final(inner).mode is Selecting,
            just_entered: old(inner).mode is Normal && long_press_ends(
                *old(inner),
                input.switch_on,
                input.now,
            ),
            just_exited: old(inner).mode is Selecting && final(inner).mode is Normal,
        }),
        final(inner).not_after(input.now),
        old(inner).mode is Selecting && final(inner).mode is Selecting && final(inner).cursor < registry@.len()
            && registry@[final(inner).cursor as int].info.receiver_id < 32 ==> forall|i: u32|
            i < 32 ==> {
                let id = registry@[final(inner).cursor as int].info.receiver_id;
                let before = old(inner).pending_mask & (1u32 << i) != 0;
                let after = #[trigger] (final(inner).pending_mask & (1u32 << i)) != 0;
                &&& input.btn1_just_pressed && !input.btn2_just_pressed ==> (after <==> before || i == id)
                &&& input.btn2_just_pressed ==> (after <==> before && i != id)
                &&& !input.btn1_just_pressed && !input.btn2_just_pressed ==> (after <==> before)
            },
{
    let list = registry.snapshot();
    let candidates = list.as_slice();
    let mut outcome = SelectorOutcome {
        suppress_frame_send: false,
        just_exited: false,
        just_entered: false,
    };
    let switch_toggle = detect_switch_long_press(inner, input.switch_on, input.now);
    if switch_toggle {
        match inner.mode {
            UiMode::Normal => enter_selecting(inner, input.now),
            UiMode::Selecting => exit_selecting_saving(inner),
        }
        outcome.just_entered = inner.mode.is_selecting();
        outcome.just_exited = !inner.mode.is_selecting();
    }
    assert(*inner == toggled(*old(inner), input));
    if inner.mode.is_selecting() {
        let idle: Duration = input.now.duration_since(inner.last_activity_at);
        if idle.ticks >= Duration::from_millis(SELECTOR_TIMEOUT_MS).ticks {
            exit_selecting_saving(inner);
            outcome.just_exited = true;
        } else if candidates.len() > 0 {
            let n: usize = candidates.len();
            let ghost before = *inner;
            match detect_joy_y_edge(inner, input.joy_y) {
                JoyYEdge::Up => {
                    move_cursor(inner, false, n);
                    inner.last_activity_at = input.now;
                },
                JoyYEdge::Down => {
                    move_cursor(inner, true, n);
                    inner.last_activity_at = input.now;
                },
                JoyYEdge::Neither => {},
            }
            assert(*inner == stick_seen(before, input, n as int));
            if input.btn1_just_pressed {
                add_current_to_mask(inner, candidates);
                inner.last_activity_at = input.now;
            }
            if input.btn2_just_pressed {
                remove_current_from_mask(inner, candidates);
                inner.last_activity_at = input.now;
            }
        }
    }
    outcome.suppress_frame_send = inner.mode.is_selecting();
    proof {
        let known = peer_registry::infos(registry@);
        if old(inner).mode is Selecting && inner.mode is Selecting && inner.cursor < known.len()
            && known[inner.cursor as int].receiver_id < 32 {
            assert forall|i: u32| i < 32 implies {
                let id = known[inner.cursor as int].receiver_id;
                let before = old(inner).pending_mask & (1u32 << i) != 0;
                let after = #[trigger] (inner.pending_mask & (1u32 << i)) != 0;
                &&& input.btn1_just_pressed && !input.btn2_just_pressed ==> (after <==> before || i == id)
                &&& input.btn2_just_pressed ==> (after <==> before && i != id)
                &&& !input.btn1_just_pressed && !input.btn2_just_pressed ==> (after <==> before)
            } by {
                lemma_buttons_change_one_endpoint(*old(inner), input, known, i);
            }
        }
    }
    outcome
}

/// Milliseconds until choosing ends by itself.
pub open spec fn remaining(last: Instant, now: Instant) -> int {
    let elapsed = (now.ticks - last.ticks) / TICKS_PER_MS as int;
    if elapsed < SELECTOR_TIMEOUT_MS {
        SELECTOR_TIMEOUT_MS - elapsed
    } else {
        0
    }
}

/// What the panel shows.
pub fn snapshot(inner: &TargetSelectorInner, registry: &PeerRegistry, now: Instant) -> (s: SelectorSnapshot)
    requires
        inner.last_activity_at.ticks <= now.ticks,
    ensures
        s.cursor == inner.cursor,
        s.pending_mask == inner.pending_mask,
        s.candidates@ == peer_registry::infos(registry@),
        s.remaining_ms == remaining(inner.last_activity_at, now),
{
    let candidates = registry.snapshot();
    let elapsed: u64 = now.duration_since(inner.last_activity_at).as_millis();
    let remaining_ms: u64 = if elapsed < SELECTOR_TIMEOUT_MS {
        SELECTOR_TIMEOUT_MS - elapsed
    } else {
        0
    };
    SelectorSnapshot {
        cursor: inner.cursor,
        pending_mask: inner.pending_mask,
        candidates,
        remaining_ms: remaining_ms as u32,
    }
}

/// What the inputs are used for.
pub fn current_mode(inner: &TargetSelectorInner) -> (m: UiMode)
    ensures
        m == inner.mode,
{
    inner.mode
}

/// The endpoints that frames go to.
pub fn active_dest_mask(inner: &TargetSelectorInner) -> (mask: u32)
    ensures
        mask == inner.active_dest_mask,
{
    inner.active_dest_mask
}

// ---- Laws ----

/// No sequence of inputs silences the gamepad: frames always go to somebody.
pub proof fn lemma_frames_always_have_a_target(s: TargetSelectorInner, input: SelectorInput, candidates: Seq<PeerInfo>)
    requires
        s.active_dest_mask != 0,
    ensures
        handled(s, input, candidates).active_dest_mask != 0,
{
}

/// The endpoints that frames go to change only when choosing ends, and then to what
/// was chosen.
pub proof fn lemma_choice_takes_effect_on_leaving(s: TargetSelectorInner, input: SelectorInput, candidates: Seq<PeerInfo>)
    ensures
        ({
            let t = handled(s, input, candidates);
            if s.mode is Selecting && t.mode is Normal {
                t.active_dest_mask == if s.pending_mask == 0 {
                    BROADCAST_MASK
                } else {
                    s.pending_mask
                }
            } else {
                t.active_dest_mask == s.active_dest_mask
            }
        }),
{
}

/// `states` is the history of one selector that reacted to `inputs`, with the endpoints
/// `lists` known at each of them.
pub open spec fn selector_history(
    inputs: Seq<SelectorInput>,
    lists: Seq<Seq<PeerInfo>>,
    states: Seq<TargetSelectorInner>,
) -> bool {
    &&& lists.len() == inputs.len()
    &&& states.len() == inputs.len() + 1
    &&& forall|t: int|
        #![trigger inputs[t]]
        0 <= t < inputs.len() ==> states[t + 1] == handled(states[t], inputs[t], lists[t])
}

/// A sample makes no choice: the list is closed, or neither button is pressed.
pub open spec fn makes_no_choice(s: TargetSelectorInner, input: SelectorInput) -> bool {
    toggled(s, input).mode is Normal || (!input.btn1_just_pressed && !input.btn2_just_pressed)
}

/// Looking changes nothing: however often the list is opened and left, and however the
/// cursor is moved, without a choice sending to all stays sending to all, and a choice
/// made earlier stays in force.
pub proof fn lemma_looking_changes_nothing(
    inputs: Seq<SelectorInput>,
    lists: Seq<Seq<PeerInfo>>,
    states: Seq<TargetSelectorInner>,
    n: int,
)
    requires
        selector_history(inputs, lists, states),
        states[0].mode is Normal,
        states[0].active_dest_mask != 0,
        forall|t: int| #![trigger inputs[t]] 0 <= t < inputs.len() ==> makes_no_choice(states[t], inputs[t]),
        0 <= n < states.len(),
    ensures
        states[n].active_dest_mask == states[0].active_dest_mask,
{
    lemma_nothing_chosen(inputs, lists, states, n);
}

/// While the list is open, what is marked is what is in force.
pub open spec fn marks_what_is_in_force(s: TargetSelectorInner) -> bool {
    s.mode is Selecting ==> s.pending_mask == (if s.active_dest_mask == BROADCAST_MASK {
        0
    } else {
        s.active_dest_mask
    })
}

proof fn lemma_nothing_chosen(
    inputs: Seq<SelectorInput>,
    lists: Seq<Seq<PeerInfo>>,
    states: Seq<TargetSelectorInner>,
    n: int,
)
    requires
        selector_history(inputs, lists, states),
        states[0].mode is Normal,
        states[0].active_dest_mask != 0,
        forall|t: int| #![trigger inputs[t]] 0 <= t < inputs.len() ==> makes_no_choice(states[t], inputs[t]),
        0 <= n < states.len(),
    ensures
        states[n].active_dest_mask == states[0].active_dest_mask,
        marks_what_is_in_force(states[n]),
    decreases n,
{
    if n > 0 {
        lemma_nothing_chosen(inputs, lists, states, n - 1);
        let t = n - 1;
        assert(makes_no_choice(states[t], inputs[t]));
        assert(states[t + 1] == handled(states[t], inputs[t], lists[t]));
    }
}

/// Adding the endpoint under the cursor chooses exactly that endpoint, and removing
/// it takes back exactly that.
pub proof fn lemma_buttons_choose_the_endpoint_under_the_cursor(mask: u32, cursor: u8, candidates: Seq<PeerInfo>, i: int)
    requires
        cursor < candidates.len(),
        candidates[cursor as int].receiver_id < 32,
    ensures
        ({
            let id = candidates[cursor as int].receiver_id;
            &&& bits::has_bit(with_current(mask, cursor, candidates), i) <==> i == id || bits::has_bit(
                mask,
                i,
            )
            &&& bits::has_bit(without_current(mask, cursor, candidates), i) <==> i != id
                && bits::has_bit(mask, i)
        }),
{
    let id = candidates[cursor as int].receiver_id as int;
    bits::lemma_set_bit(mask, id);
    bits::lemma_clear_bit(mask, id);
}

/// What the buttons do to the choice while choosing goes on, over the state that a
/// sample leaves. The first button adds the endpoint under the cursor and nothing else,
/// the second one alone takes it back and nothing else, both together take it back, and
/// without a button, or without an endpoint under the cursor, the choice stays as it was.
/// What is in force never changes.
pub proof fn lemma_buttons_change_one_endpoint(s: TargetSelectorInner, input: SelectorInput, candidates: Seq<PeerInfo>, i: u32)
    requires
        s.mode is Selecting,
        handled(s, input, candidates).mode is Selecting,
        handled(s, input, candidates).cursor < candidates.len() ==> candidates[handled(
            s,
            input,
            candidates,
        ).cursor as int].receiver_id < 32,
        i < 32,
    ensures
        ({
            let t = handled(s, input, candidates);
            let id = candidates[t.cursor as int].receiver_id;
            let listed = t.cursor < candidates.len();
            let before = s.pending_mask & (1u32 << i) != 0;
            let after = t.pending_mask & (1u32 << i) != 0;
            &&& listed && input.btn1_just_pressed && !input.btn2_just_pressed ==> (after <==> before || i == id)
            &&& listed && input.btn2_just_pressed ==> (after <==> before && i != id)
            &&& !listed ==> t.pending_mask == s.pending_mask
            &&& !input.btn1_just_pressed && !input.btn2_just_pressed ==> t.pending_mask == s.pending_mask
            &&& t.active_dest_mask == s.active_dest_mask
        }),
{
    let t = handled(s, input, candidates);
    if t.cursor < candidates.len() {
        let id = candidates[t.cursor as int].receiver_id as int;
        bits::lemma_set_bit(s.pending_mask, id);
        bits::lemma_clear_bit(s.pending_mask, id);
        bits::lemma_clear_bit(s.pending_mask | bits::one_bit(id), id);
        let k = i as int;
        assert(bits::has_bit(s.pending_mask | bits::one_bit(id), k) <==> k == id || bits::has_bit(s.pending_mask, k));
        assert(bits::has_bit(s.pending_mask & !bits::one_bit(id), k) <==> k != id && bits::has_bit(s.pending_mask, k));
        assert(bits::has_bit((s.pending_mask | bits::one_bit(id)) & !bits::one_bit(id), k) <==> k != id && bits::has_bit(
            s.pending_mask | bits::one_bit(id),
            k,
        ));
    }
}

/// How the stick moves the cursor while choosing goes on, over the state that a sample
/// leaves. A deflection to the end moves it by one, up towards the first endpoint and
/// down towards the last, round at both ends; a smaller one, or one that was counted
/// before and has not come back yet, leaves it where it was.
pub proof fn lemma_stick_moves_the_cursor_by_one(s: TargetSelectorInner, input: SelectorInput, candidates: Seq<PeerInfo>)
    requires
        s.mode is Selecting,
        handled(s, input, candidates).mode is Selecting,
        s.cursor < candidates.len() <= 255,
    ensures
        ({
            let t = handled(s, input, candidates);
            let n = candidates.len();
            &&& !s.joy_y_edge_latched && input.joy_y >= 1000 ==> t.joy_y_edge_latched && t.cursor == (if s.cursor == 0 {
                n - 1
            } else {
                s.cursor - 1
            })
            &&& !s.joy_y_edge_latched && input.joy_y <= -1000 ==> t.joy_y_edge_latched && t.cursor == (if s.cursor + 1 == n {
                0
            } else {
                s.cursor + 1
            })
            &&& s.joy_y_edge_latched || -1000 < input.joy_y < 1000 ==> t.cursor == s.cursor
            &&& !s.joy_y_edge_latched && -1000 < input.joy_y < 1000 ==> !t.joy_y_edge_latched
            &&& s.joy_y_edge_latched ==> (t.joy_y_edge_latched <==> input.joy_y <= -400 || input.joy_y >= 400)
            &&& t.cursor < n
        }),
{
    let n = candidates.len() as int;
    if s.cursor == 0 {
        assert((-1int) % n == n - 1) by (nonlinear_arith)
            requires
                n >= 1,
        ;
    } else {
        vstd::arithmetic::div_mod::lemma_small_mod((s.cursor - 1) as nat, n as nat);
    }
    if s.cursor + 1 == n {
        assert(n % n == 0) by (nonlinear_arith)
            requires
                n >= 1,
        ;
    } else {
        vstd::arithmetic::div_mod::lemma_small_mod((s.cursor + 1) as nat, n as nat);
    }
}

/// When the mode changes. A press is timed from its first sample to the sample at which
/// the switch is released; if that takes 800 ms or more, choosing begins or ends.
/// Ten seconds after the last action choosing ends by itself. Nothing else changes the
/// mode.
pub proof fn lemma_mode_changes_by_long_press_or_pause(s: TargetSelectorInner, input: SelectorInput, candidates: Seq<PeerInfo>)
    ensures
        ({
            let t = handled(s, input, candidates);
            let long = !input.switch_on && s.switch_press_started_at is Some && input.now.ticks
                - s.switch_press_started_at->0.ticks >= 800_000;
            let idle = input.now.ticks - s.last_activity_at.ticks >= 10_000_000;
            &&& s.mode is Normal ==> (t.mode is Selecting <==> long)
            &&& s.mode is Selecting ==> (t.mode is Normal <==> long || idle)
            &&& s.mode is Normal && !long ==> t.active_dest_mask == s.active_dest_mask && t.pending_mask == s.pending_mask
                && t.cursor == s.cursor
            &&& input.switch_on && t.mode == s.mode ==> t.switch_press_started_at == (if s.switch_press_started_at is None {
                Some(input.now)
            } else {
                s.switch_press_started_at
            })
            &&& !input.switch_on ==> t.switch_press_started_at is None
        }),
{
}

/// Choosing starts at the first endpoint, with what is in force marked: sending to
/// all starts with nothing marked. Anything that was marked when choosing ends is in
/// force from then on, and nothing marked means sending to all.
pub proof fn lemma_choosing_starts_and_ends_with_what_is_in_force(s: TargetSelectorInner, now: Instant)
    ensures
        entered(s, now).cursor == 0,
        entered(s, now).pending_mask == (if s.active_dest_mask == 0xFFFF_FFFF {
            0
        } else {
            s.active_dest_mask
        }),
        entered(s, now).active_dest_mask == s.active_dest_mask,
        entered(s, now).last_activity_at == now,
        !entered(s, now).joy_y_edge_latched,
        exited(s).active_dest_mask == (if s.pending_mask == 0 {
            0xFFFF_FFFF
        } else {
            s.pending_mask
        }),
        s.active_dest_mask != 0 ==> exited(entered(s, now)).active_dest_mask == s.active_dest_mask,
{
}

/// Only actions put off the end of choosing: a movement that counts, or a button.
pub proof fn lemma_only_actions_put_off_the_end(s: TargetSelectorInner, input: SelectorInput, candidates: Seq<PeerInfo>)
    requires
        s.mode is Selecting,
        handled(s, input, candidates).mode is Selecting,
        candidates.len() > 0,
    ensures
        handled(s, input, candidates).last_activity_at == (if input.btn1_just_pressed || input.btn2_just_pressed || (
        !s.joy_y_edge_latched && (input.joy_y >= 1000 || input.joy_y <= -1000)) {
            input.now
        } else {
            s.last_activity_at
        }),
{
}

/// The time left and the time since the last action add up to ten seconds, to the
/// millisecond, as long as any is left.
pub proof fn lemma_time_left_counts_down(last: Instant, now: Instant)
    requires
        last.ticks <= now.ticks,
    ensures
        0 <= remaining(last, now) <= 10_000,
        remaining(last, now) == 0 <==> now.ticks - last.ticks >= 10_000_000,
        remaining(last, now) > 0 ==> (10_000 - remaining(last, now)) * 1000 <= now.ticks - last.ticks < (10_001
            - remaining(last, now)) * 1000,
{
}

/// A short press leaves the mode alone.
pub proof fn lemma_short_press_keeps_the_mode(s: TargetSelectorInner, start: Instant, end: Instant, candidates: Seq<PeerInfo>, input: SelectorInput)
    requires
        s.switch_press_started_at == Some(start),
        end.ticks - start.ticks < SWITCH_LONG_PRESS_MS * TICKS_PER_MS,
        input.now == end,
        !timed_out(s, end),
    ensures
        handled(s, input, candidates).mode == s.mode,
{
}

/// Choosing always ends: after a pause of `SELECTOR_TIMEOUT_MS` any sample ends it.
pub proof fn lemma_choosing_ends(s: TargetSelectorInner, input: SelectorInput, candidates: Seq<PeerInfo>)
    requires
        s.mode is Selecting,
        input.now.ticks - s.last_activity_at.ticks >= SELECTOR_TIMEOUT_MS * TICKS_PER_MS,
    ensures
        handled(s, input, candidates).mode is Normal,
{
}

/// One deflection of the stick moves the cursor once: held, it does not move again.
pub proof fn lemma_held_stick_moves_once(s: TargetSelectorInner, a: SelectorInput, b: SelectorInput, n: int)
    requires
        !s.joy_y_edge_latched,
        a.joy_y >= JOY_EDGE_THRESHOLD || a.joy_y <= -JOY_EDGE_THRESHOLD,
        b.joy_y >= JOY_EDGE_RELEASE || b.joy_y <= -JOY_EDGE_RELEASE,
    ensures
        stick_seen(stick_seen(s, a, n), b, n).cursor == stick_seen(s, a, n).cursor,
{
}

/// Up and down cancel: the cursor comes back to where it was.
pub proof fn lemma_up_and_down_cancel(cursor: u8, n: int)
    requires
        0 <= cursor < n <= 255,
    ensures
        ((((cursor - 1) % n) as u8) + 1) % n == cursor,
        ((((cursor + 1) % n) as u8) - 1) % n == cursor,
{
    if cursor == 0 {
        assert((-1int) % n == n - 1) by (nonlinear_arith)
            requires
                n >= 1,
        ;
        assert(n % n == 0) by (nonlinear_arith)
            requires
                n >= 1,
        ;
    }
    if cursor == n - 1 {
        assert(n % n == 0) by (nonlinear_arith)
            requires
                n >= 1,
        ;
        assert((-1int) % n == n - 1) by (nonlinear_arith)
            requires
                n >= 1,
        ;
    }
    vstd::arithmetic::div_mod::lemma_small_mod(cursor as nat, n as nat);
    if cursor > 0 {
        vstd::arithmetic::div_mod::lemma_small_mod((cursor - 1) as nat, n as nat);
    }
    if cursor + 1 < n {
        vstd::arithmetic::div_mod::lemma_small_mod((cursor + 1) as nat, n as nat);
    }
}

} // verus!
