//! Push buttons with their bouncing taken out.

use crate::controller::config::DEBOUNCE_MS;
use crate::time::{Duration, Instant, TICKS_PER_MS};
use vstd::prelude::*;

verus! {

/// What a button does.
#[derive(Debug, Clone, Copy, PartialEq, Eq, Structural)]
pub enum ButtonState {
    Released,
    Pressed,
    /// Pressed with this sample.
    JustPressed,
    /// Released with this sample.
    JustReleased,
}

impl Default for ButtonState {
    fn default() -> (s: ButtonState)
        ensures
            s == ButtonState::Released,
    {
        ButtonState::Released
    }
}

impl ButtonState {
    /// The button is down.
    pub open spec fn down(self) -> bool {
        self is Pressed || self is JustPressed
    }

    /// Whether the button is down.
    pub fn is_down(self) -> (r: bool)
        ensures
            r == self.down(),
    {
        match self {
            ButtonState::Pressed | ButtonState::JustPressed => true,
            _ => false,
        }
    }
}

/// A change of the button with the newest sample.
#[derive(Debug, Clone, Copy, PartialEq, Eq, Structural)]
pub enum Edge {
    Rising,
    Falling,
}

/// A push button. A level counts once it has held for `DEBOUNCE_MS`.
#[derive(Debug, Clone, Copy)]
pub struct Button {
    /// The pin is high while the button is down.
    pub active_high: bool,
    /// The button is down, bouncing taken out.
    pub last_stable: bool,
    /// The newest sample.
    pub last_raw: bool,
    /// When the samples last changed.
    pub last_change: Instant,
    /// What changed with the newest sample.
    pub edge: Option<Edge>,
}

/// The button after a sample: another level only starts the clock; a level that has
/// held long enough becomes the button's state.
pub open spec fn sampled(b: Button, raw_high: bool, now: Instant) -> Button {
    let down = raw_high == b.active_high;
    if down != b.last_raw {
        Button { last_raw: down, last_change: now, edge: None, ..b }
    } else if now.ticks - b.last_change.ticks >= DEBOUNCE_MS * TICKS_PER_MS && down != b.last_stable {
        Button {
            last_stable: down,
            edge: Some(
                if down {
                    Edge::Rising
                } else {
                    Edge::Falling
                },
            ),
            ..b
        }
    } else {
        Button { edge: None, ..b }
    }
}

impl Button {
    /// What the button does.
    pub open spec fn current(self) -> ButtonState {
        match self.edge {
            Some(Edge::Rising) => ButtonState::JustPressed,
            Some(Edge::Falling) => ButtonState::JustReleased,
            None => if self.last_stable {
                ButtonState::Pressed
            } else {
                ButtonState::Released
            },
        }
    }

    /// A button that is up.
    pub fn new(active_high: bool, now: Instant) -> (b: Button)
        ensures
            b == (Button {
                active_high,
                last_stable: false,
                last_raw: false,
                last_change: now,
                edge: None,
            }),
    {
        Button { active_high, last_stable: false, last_raw: false, last_change: now, edge: None }
    }

    /// Takes a sample of the pin.
    pub fn poll(&mut self, raw_high: bool, now: Instant) -> (state: ButtonState)
        requires
            old(self).last_change.ticks <= now.ticks,
        ensures
            *final(self) == sampled(*old(self), raw_high, now),
            state == final(self).current(),
            final(self).last_change.ticks <= now.ticks,
    {
        let pressed_now = if self.active_high {
            raw_high
        } else {
            !raw_high
        };
        if pressed_now != self.last_raw {
            self.last_raw = pressed_now;
            self.last_change = now;
            self.edge = None;
            return self.state();
        }
        let held: Duration = now.duration_since(self.last_change);
        let debounced = held.ticks >= Duration::from_millis(DEBOUNCE_MS).ticks;
        if debounced && pressed_now != self.last_stable {
            self.edge = Some(
                if pressed_now {
                    Edge::Rising
                } else {
                    Edge::Falling
                },
            );
            self.last_stable = pressed_now;
        } else {
            self.edge = None;
        }
        self.state()
    }

    /// What the button does, without a new sample.
    pub fn state(&self) -> (s: ButtonState)
        ensures
            s == self.current(),
    {
        match self.edge {
            Some(Edge::Rising) => ButtonState::JustPressed,
            Some(Edge::Falling) => ButtonState::JustReleased,
            None => if self.last_stable {
                ButtonState::Pressed
            } else {
                ButtonState::Released
            },
        }
    }

    /// Whether the button is down, bouncing taken out.
    pub fn is_pressed(&self) -> (r: bool)
        ensures
            r == self.last_stable,
    {
        self.last_stable
    }
}

// ---- Laws ----

/// Bouncing never shows: a sample at another level than the one before leaves the
/// button's state alone, and so does a level that has not held long enough.
pub proof fn lemma_bouncing_never_shows(b: Button, raw_high: bool, now: Instant)
    requires
        (raw_high == b.active_high) != b.last_raw || now.ticks - b.last_change.ticks < DEBOUNCE_MS * TICKS_PER_MS,
    ensures
        sampled(b, raw_high, now).last_stable == b.last_stable,
        sampled(b, raw_high, now).edge is None,
{
}

/// A level that holds is taken over, with exactly one sample that reports the
/// change.
pub proof fn lemma_held_level_shows_once(b: Button, raw_high: bool, first: Instant, later: Instant, next: Instant)
    requires
        first.ticks + DEBOUNCE_MS * TICKS_PER_MS <= later.ticks <= next.ticks,
        (raw_high == b.active_high) != b.last_raw,
        (raw_high == b.active_high) != b.last_stable,
    ensures
        ({
            let b1 = sampled(b, raw_high, first);
            let b2 = sampled(b1, raw_high, later);
            let b3 = sampled(b2, raw_high, next);
            &&& b2.current() == (if raw_high == b.active_high {
                ButtonState::JustPressed
            } else {
                ButtonState::JustReleased
            })
            &&& b3.current() == (if raw_high == b.active_high {
                ButtonState::Pressed
            } else {
                ButtonState::Released
            })
        }),
{
}

/// A button reports a press only while it is down: the state and the change agree.
pub proof fn lemma_state_matches_level(b: Button, raw_high: bool, now: Instant)
    ensures
        sampled(b, raw_high, now).current().down() == sampled(b, raw_high, now).last_stable,
{
}

/// When a button turns. The pin is read against its resting level; the state follows it
/// once two samples in a row have agreed and 20 ms have passed since the level changed,
/// and only then. A change of the level restarts the clock and nothing else does.
pub proof fn lemma_button_turns_after_twenty_milliseconds(b: Button, raw_high: bool, now: Instant)
    ensures
        ({
            let down = if b.active_high {
                raw_high
            } else {
                !raw_high
            };
            let next = sampled(b, raw_high, now);
            let turns = down == b.last_raw && down != b.last_stable && now.ticks - b.last_change.ticks >= 20_000;
            &&& next.last_raw == down
            &&& next.last_stable == (if turns {
                down
            } else {
                b.last_stable
            })
            &&& next.last_change == (if down != b.last_raw {
                now
            } else {
                b.last_change
            })
            &&& turns && down ==> next.current() is JustPressed
            &&& turns && !down ==> next.current() is JustReleased
            &&& !turns && b.last_stable ==> next.current() is Pressed
            &&& !turns && !b.last_stable ==> next.current() is Released
            &&& next.active_high == b.active_high
        }),
{
}

/// A button counts as down from the sample that reports its press to the one before the
/// sample that reports its release.
pub proof fn lemma_down_means_pressed(s: ButtonState)
    ensures
        s.down() <==> s == ButtonState::Pressed || s == ButtonState::JustPressed,
{
}

} // verus!
