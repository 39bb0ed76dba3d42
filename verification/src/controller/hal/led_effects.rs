//! What the lights show: the buttons, or a blinking sequence over them.

use super::led::Led;
use embassy_sync::blocking_mutex::raw::CriticalSectionRawMutex;
use embassy_sync::signal::Signal;
use vstd::prelude::*;

verus! {

/// The first light in the button state.
pub const LED1_BIT: u8 = 1;

/// The second light in the button state.
pub const LED2_BIT: u8 = 2;

/// Shortest period of a blinking sequence.
pub const MIN_PERIOD_MS: u16 = 50;

/// Milliseconds between two looks at the buttons.
pub const IDLE_REFRESH_MS: u64 = 20;

/// Milliseconds that the coloured lights stay on, and off.
pub const COLOR_BLINK_HALF_MS: u64 = 400;

/// What the lights show without an effect: one bit each.
#[derive(Debug, Clone, Copy, PartialEq, Eq, Structural)]
pub struct ButtonLedState {
    pub bits: u8,
}

impl ButtonLedState {
    /// Both lights off.
    pub fn new() -> (s: ButtonLedState)
        ensures
            s.bits == 0,
    {
        ButtonLedState { bits: 0 }
    }
}

impl Default for ButtonLedState {
    fn default() -> (s: ButtonLedState)
        ensures
            s.bits == 0,
    {
        ButtonLedState::new()
    }
}

/// Records what both lights show.
pub fn set_button_led_state(state: &mut ButtonLedState, led1_on: bool, led2_on: bool)
    ensures
        final(state).bits == (if led1_on {
            LED1_BIT
        } else {
            0
        }) + (if led2_on {
            LED2_BIT
        } else {
            0
        }),
{
    let a: u8 = if led1_on {
        LED1_BIT
    } else {
        0
    };
    let b: u8 = if led2_on {
        LED2_BIT
    } else {
        0
    };
    state.bits = a + b;
}

/// A blinking sequence.
#[derive(Debug, Clone, Copy, PartialEq, Eq, Structural)]
pub struct LedEffect {
    /// Which light: 0 or 1.
    pub led_idx: u8,
    pub count: u8,
    pub period_ms: u16,
}

/// The slot for the next blinking sequence, an `embassy_sync::signal::Signal`.
#[verifier::external_body]
pub struct LedEffectSignal {
    slot: Signal<CriticalSectionRawMutex, LedEffect>,
}

/// The sequence that waits in the slot.
pub uninterp spec fn pending_effect(signal: LedEffectSignal) -> Option<LedEffect>;

impl View for LedEffectSignal {
    type V = Option<LedEffect>;

    open spec fn view(&self) -> Option<LedEffect> {
        pending_effect(*self)
    }
}

/// `Signal::new`: nothing waits.
#[verifier::external_body]
fn effect_slot_new() -> (signal: LedEffectSignal)
    ensures
        pending_effect(signal) == None::<LedEffect>,
{
    LedEffectSignal { slot: Signal::new() }
}

/// `Signal::signal`: the value waits, whatever waited before is gone.
#[verifier::external_body]
fn effect_slot_put(signal: &mut LedEffectSignal, effect: LedEffect)
    ensures
        pending_effect(*final(signal)) == Some(effect),
{
    signal.slot.signal(effect)
}

/// `Signal::try_take`: hands out what waits and leaves nothing.
#[verifier::external_body]
fn effect_slot_take(signal: &mut LedEffectSignal) -> (effect: Option<LedEffect>)
    ensures
        effect == pending_effect(*old(signal)),
        pending_effect(*final(signal)) == None::<LedEffect>,
{
    signal.slot.try_take()
}

impl LedEffectSignal {
    /// An empty slot.
    pub fn new() -> (s: LedEffectSignal)
        ensures
            s@ == None::<LedEffect>,
    {
        effect_slot_new()
    }

    /// Takes the sequence that waits.
    pub fn try_take(&mut self) -> (effect: Option<LedEffect>)
        ensures
            effect == old(self)@,
            final(self)@ == None::<LedEffect>,
    {
        effect_slot_take(self)
    }
}

/// A blinking sequence as it is played: at least one blink, and never so fast that
/// nothing else gets a turn.
pub open spec fn playable(led_idx: u8, count: u8, period_ms: u16) -> LedEffect {
    LedEffect {
        led_idx,
        count: if count < 1 {
            1
        } else {
            count
        },
        period_ms: if period_ms < MIN_PERIOD_MS {
            MIN_PERIOD_MS
        } else {
            period_ms
        },
    }
}

/// Asks for a blinking sequence, in place of one that was not played yet.
pub fn signal_led_effect(signal: &mut LedEffectSignal, led_idx: u8, count: u8, period_ms: u16)
    ensures
        final(signal)@ == Some(playable(led_idx, count, period_ms)),
{
    let effect = LedEffect {
        led_idx,
        count: if count < 1 {
            1
        } else {
            count
        },
        period_ms: if period_ms < MIN_PERIOD_MS {
            MIN_PERIOD_MS
        } else {
            period_ms
        },
    };
    effect_slot_put(signal, effect);
}

/// Whether the coloured lights are on at a time.
pub fn color_blink(now_ms: u64) -> (on: bool)
    ensures
        on == ((now_ms / COLOR_BLINK_HALF_MS) % 2 == 0),
{
    (now_ms / COLOR_BLINK_HALF_MS) % 2 == 0
}

/// Sets the coloured lights for a time.
pub fn apply_color_blink(color_led: &mut Led, now_ms: u64)
    ensures
        *final(color_led) == (Led { on: (now_ms / COLOR_BLINK_HALF_MS) % 2 == 0, ..*old(color_led) }),
{
    color_led.set(color_blink(now_ms));
}

/// Shows the buttons.
pub fn apply_idle_state(state: &ButtonLedState, led1: &mut Led, led2: &mut Led)
    ensures
        *final(led1) == (Led { on: state.bits & LED1_BIT != 0, ..*old(led1) }),
        *final(led2) == (Led { on: state.bits & LED2_BIT != 0, ..*old(led2) }),
{
    led1.set(state.bits & LED1_BIT != 0);
    led2.set(state.bits & LED2_BIT != 0);
}

/// Sets one of the two lights.
pub fn set_target(led1: &mut Led, led2: &mut Led, led_idx: u8, on: bool)
    ensures
        *final(led1) == (if led_idx == 0 {
            Led { on, ..*old(led1) }
        } else {
            *old(led1)
        }),
        *final(led2) == (if led_idx == 1 {
            Led { on, ..*old(led2) }
        } else {
            *old(led2)
        }),
{
    match led_idx {
        0 => led1.set(on),
        1 => led2.set(on),
        _ => {},
    }
}

/// One step of a blinking sequence: a light turned on or off, then a pause.
#[derive(Debug, Clone, Copy, PartialEq, Eq, Structural)]
pub struct EffectStep {
    pub led_idx: u8,
    pub on: bool,
    pub wait_ms: u64,
}

/// A blinking sequence step by step: on and off `count` times, half a period each.
pub open spec fn effect_steps(effect: LedEffect) -> Seq<EffectStep> {
    Seq::new(
        2 * effect.count as nat,
        |i: int|
            EffectStep {
                led_idx: effect.led_idx,
                on: i % 2 == 0,
                wait_ms: (effect.period_ms / 2) as u64,
            },
    )
}

/// A blinking sequence step by step.
pub fn play_effect(effect: &LedEffect) -> (steps: Vec<EffectStep>)
    ensures
        steps@ == effect_steps(*effect),
{
    let half: u64 = (effect.period_ms / 2) as u64;
    let mut steps: Vec<EffectStep> = Vec::new();
    let mut i: u8 = 0;
    while i < effect.count
        invariant
            i <= effect.count,
            half == effect.period_ms / 2,
            steps@.len() == 2 * i,
            forall|k: int|
                0 <= k < 2 * i ==> #[trigger] steps@[k] == (EffectStep {
                    led_idx: effect.led_idx,
                    on: k % 2 == 0,
                    wait_ms: half,
                }),
        decreases effect.count - i,
    {
        steps.push(EffectStep { led_idx: effect.led_idx, on: true, wait_ms: half });
        steps.push(EffectStep { led_idx: effect.led_idx, on: false, wait_ms: half });
        i = i + 1;
    }
    assert(steps@ =~= effect_steps(*effect));
    steps
}

/// A sequence that was asked for ends with its light off, and never stalls: every
/// pause takes time.
pub proof fn lemma_effects_end_dark(led_idx: u8, count: u8, period_ms: u16)
    ensures
        effect_steps(playable(led_idx, count, period_ms)).len() >= 2,
        !effect_steps(playable(led_idx, count, period_ms)).last().on,
        forall|i: int|
            0 <= i < effect_steps(playable(led_idx, count, period_ms)).len() ==> (#[trigger] effect_steps(
                playable(led_idx, count, period_ms),
            )[i]).wait_ms > 0,
{
}

/// The button state shows each light as it was recorded.
pub proof fn lemma_button_lights_show(bits: u8, led1_on: bool, led2_on: bool)
    requires
        bits == (if led1_on {
            LED1_BIT
        } else {
            0
        }) + (if led2_on {
            LED2_BIT
        } else {
            0
        }),
    ensures
        (bits & LED1_BIT != 0) == led1_on,
        (bits & LED2_BIT != 0) == led2_on,
{
    assert(0u8 & 1 == 0 && 1u8 & 1 == 1 && 2u8 & 1 == 0 && 3u8 & 1 == 1) by (bit_vector);
    assert(0u8 & 2 == 0 && 1u8 & 2 == 0 && 2u8 & 2 == 2 && 3u8 & 2 == 2) by (bit_vector);
}

/// A sequence is played as it was asked for: on that light, that often, at that period.
/// Only a count of zero becomes one, and a period below 50 ms becomes 50 ms.
pub proof fn lemma_effect_keeps_what_was_asked_for(led_idx: u8, count: u8, period_ms: u16)
    ensures
        playable(led_idx, count, period_ms).led_idx == led_idx,
        count >= 1 ==> playable(led_idx, count, period_ms).count == count,
        count == 0 ==> playable(led_idx, count, period_ms).count == 1,
        period_ms >= 50 ==> playable(led_idx, count, period_ms).period_ms == period_ms,
        period_ms < 50 ==> playable(led_idx, count, period_ms).period_ms == 50,
{
}

/// A sequence turns its light on and off in turn, on first, `count` times each, and waits
/// half a period after every turn.
pub proof fn lemma_effect_alternates(effect: LedEffect, i: int)
    requires
        0 <= i < effect.count,
    ensures
        effect_steps(effect).len() == 2 * effect.count,
        effect_steps(effect)[2 * i].on,
        !effect_steps(effect)[2 * i + 1].on,
        effect_steps(effect)[2 * i].led_idx == effect.led_idx,
        effect_steps(effect)[2 * i + 1].led_idx == effect.led_idx,
        effect.period_ms - 1 <= 2 * effect_steps(effect)[2 * i].wait_ms <= effect.period_ms,
        effect_steps(effect)[2 * i + 1].wait_ms == effect_steps(effect)[2 * i].wait_ms,
{
}

} // verus!
