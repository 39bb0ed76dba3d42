//! All inputs sampled at once.

use crate::bits;
use crate::controller::hal::analog;
use crate::controller::hal::button;
use crate::controller::hal::joystick;
use crate::controller::hal::led_effects::{set_button_led_state, ButtonLedState, LED1_BIT, LED2_BIT};
use crate::controller::hal::{AnalogInput, Button, ButtonState, Joystick, JoystickReading};
use crate::protocol::{ButtonBits, GamepadState};
use crate::time::Instant;
use vstd::prelude::*;

verus! {

/// What the pins and the converter read.
#[derive(Debug, Clone, Copy)]
pub struct RawInputs {
    pub button_1: bool,
    pub button_2: bool,
    pub button_3: bool,
    pub button_4: bool,
    pub joy_button: bool,
    pub joy_x: Option<u16>,
    pub joy_y: Option<u16>,
    pub knob_1: Option<u16>,
    pub knob_2: Option<u16>,
}

/// One sample: what goes on the air, and what the gamepad itself reacts to.
#[derive(Debug, Clone, Copy)]
pub struct SampleOutput {
    pub state: GamepadState,
    pub buttons: [ButtonState; 4],
    pub joy_button: ButtonState,
    pub joystick: JoystickReading,
}

impl Default for SampleOutput {
    fn default() -> (s: SampleOutput)
        ensures
            s.state == GamepadState::spec_empty(),
            forall|i: int| 0 <= i < 4 ==> #[trigger] s.buttons@[i] == ButtonState::Released,
            s.joy_button == ButtonState::Released,
            s.joystick == (JoystickReading { x: 0, y: 0, button: ButtonState::Released }),
    {
        let up = ButtonState::Released;
        SampleOutput {
            state: GamepadState::empty(),
            buttons: [up, up, up, up],
            joy_button: up,
            joystick: JoystickReading { x: 0, y: 0, button: up },
        }
    }
}

/// The gamepad's inputs.
#[derive(Debug, Clone, Copy)]
pub struct InputSampler {
    pub button_1: Button,
    pub button_2: Button,
    pub button_3: Button,
    pub button_4: Button,
    pub joystick: Joystick,
    pub knob_1: AnalogInput,
    pub knob_2: AnalogInput,
}

/// A sample agrees with the inputs it was taken from: every control is reported as
/// it reads, and nothing else is reported as held: this gamepad has no switch.
pub open spec fn sample_of(s: InputSampler, raw: RawInputs, now: Instant, out: SampleOutput) -> bool {
    let b1 = button::sampled(s.button_1, raw.button_1, now).current();
    let b2 = button::sampled(s.button_2, raw.button_2, now).current();
    let b3 = button::sampled(s.button_3, raw.button_3, now).current();
    let b4 = button::sampled(s.button_4, raw.button_4, now).current();
    let jb = button::sampled(s.joystick.button, raw.joy_button, now).current();
    &&& out.buttons@ == seq![b1, b2, b3, b4]
    &&& out.joy_button == jb
    &&& out.joystick.button == jb
    &&& out.joystick.x == joystick::axis(s.joystick.x, raw.joy_x)
    &&& out.joystick.y == -joystick::axis(s.joystick.y, raw.joy_y)
    &&& out.state.joy_x == out.joystick.x
    &&& out.state.joy_y == out.joystick.y
    &&& out.state.knob_1 == analog::normalized(analog::average(joystick::fed(s.knob_1, raw.knob_1)))
    &&& out.state.knob_2 == analog::normalized(analog::average(joystick::fed(s.knob_2, raw.knob_2)))
    &&& out.state.pressed(ButtonBits::Btn1) == b1.down()
    &&& out.state.pressed(ButtonBits::Btn2) == b2.down()
    &&& out.state.pressed(ButtonBits::Btn3) == b3.down()
    &&& out.state.pressed(ButtonBits::Btn4) == b4.down()
    &&& out.state.pressed(ButtonBits::JoyBtn) == jb.down()
    &&& forall|i: int| ButtonBits::Switch.position() <= i ==> !#[trigger] bits::has_bit16(out.state.buttons, i)
}

/// The inputs after a sample.
pub open spec fn inputs_after(s: InputSampler, raw: RawInputs, now: Instant, next: InputSampler) -> bool {
    &&& next.button_1 == button::sampled(s.button_1, raw.button_1, now)
    &&& next.button_2 == button::sampled(s.button_2, raw.button_2, now)
    &&& next.button_3 == button::sampled(s.button_3, raw.button_3, now)
    &&& next.button_4 == button::sampled(s.button_4, raw.button_4, now)
    &&& next.joystick.button == button::sampled(s.joystick.button, raw.joy_button, now)
    &&& next.joystick.x.recent() == joystick::fed(s.joystick.x, raw.joy_x)
    &&& next.joystick.y.recent() == joystick::fed(s.joystick.y, raw.joy_y)
    &&& next.knob_1.recent() == joystick::fed(s.knob_1, raw.knob_1)
    &&& next.knob_2.recent() == joystick::fed(s.knob_2, raw.knob_2)
    &&& next.joystick.x.center() == s.joystick.x.center()
    &&& next.joystick.y.center() == s.joystick.y.center()
    &&& next.joystick.x.dead() == s.joystick.x.dead()
    &&& next.joystick.y.dead() == s.joystick.y.dead()
    &&& next.knob_1.center() == s.knob_1.center()
    &&& next.knob_2.center() == s.knob_2.center()
    &&& next.knob_1.dead() == s.knob_1.dead()
    &&& next.knob_2.dead() == s.knob_2.dead()
}

impl InputSampler {
    /// All analog inputs are in order.
    pub open spec fn wf(self) -> bool {
        &&& self.joystick.wf()
        &&& self.knob_1.wf()
        &&& self.knob_2.wf()
    }

    /// No button changed after `now`.
    pub open spec fn not_after(self, now: Instant) -> bool {
        &&& self.button_1.last_change.ticks <= now.ticks
        &&& self.button_2.last_change.ticks <= now.ticks
        &&& self.button_3.last_change.ticks <= now.ticks
        &&& self.button_4.last_change.ticks <= now.ticks
        &&& self.joystick.button.last_change.ticks <= now.ticks
    }

    /// The gamepad's inputs.
    pub fn new(
        button_1: Button,
        button_2: Button,
        button_3: Button,
        button_4: Button,
        joystick: Joystick,
        knob_1: AnalogInput,
        knob_2: AnalogInput,
    ) -> (s: InputSampler)
        ensures
            s == (InputSampler { button_1, button_2, button_3, button_4, joystick, knob_1, knob_2 }),
    {
        InputSampler { button_1, button_2, button_3, button_4, joystick, knob_1, knob_2 }
    }

    /// Samples everything.
    pub fn poll(&mut self, raw: &RawInputs, now: Instant) -> (out: SampleOutput)
        requires
            old(self).wf(),
            old(self).not_after(now),
        ensures
            final(self).wf(),
            final(self).not_after(now),
            sample_of(*old(self), *raw, now, out),
            inputs_after(*old(self), *raw, now, *final(self)),
    {
        let b1 = self.button_1.poll(raw.button_1, now);
        let b2 = self.button_2.poll(raw.button_2, now);
        let b3 = self.button_3.poll(raw.button_3, now);
        let b4 = self.button_4.poll(raw.button_4, now);
        let joy = self.joystick.read(raw.joy_x, raw.joy_y, raw.joy_button, now);
        let k1: u16 = self.knob_1.read_normalized(raw.knob_1);
        let k2: u16 = self.knob_2.read_normalized(raw.knob_2);
        let mut state = GamepadState::empty();
        state.joy_x = joy.x;
        state.joy_y = joy.y;
        state.knob_1 = k1;
        state.knob_2 = k2;
        state.set_button(ButtonBits::Btn1, b1.is_down());
        state.set_button(ButtonBits::Btn2, b2.is_down());
        state.set_button(ButtonBits::Btn3, b3.is_down());
        state.set_button(ButtonBits::Btn4, b4.is_down());
        state.set_button(ButtonBits::JoyBtn, joy.is_button_down());
        let out = SampleOutput { state, buttons: [b1, b2, b3, b4], joy_button: joy.button, joystick: joy };
        assert(out.buttons@ =~= seq![b1, b2, b3, b4]);
        out
    }
}

/// The first two buttons light the two lights.
pub fn update_button_led_state(leds: &mut ButtonLedState, sample: &SampleOutput)
    ensures
        final(leds).bits == (if sample.buttons@[0].down() {
            LED1_BIT
        } else {
            0
        }) + (if sample.buttons@[1].down() {
            LED2_BIT
        } else {
            0
        }),
{
    set_button_led_state(leds, sample.buttons[0].is_down(), sample.buttons[1].is_down());
}

// ---- Laws ----

/// Every control is reported as itself: each button under its own bit exactly while it is
/// down, bouncing taken out, each stick axis and each knob from its own conversion, and no
/// bit beyond those of the five buttons is ever set.
pub proof fn lemma_sample_reports_every_control(s: InputSampler, raw: RawInputs, now: Instant, out: SampleOutput, next: InputSampler)
    requires
        sample_of(s, raw, now, out),
        inputs_after(s, raw, now, next),
    ensures
        out.state.buttons & 1u16 != 0 <==> next.button_1.last_stable,
        out.state.buttons & 2u16 != 0 <==> next.button_2.last_stable,
        out.state.buttons & 4u16 != 0 <==> next.button_3.last_stable,
        out.state.buttons & 8u16 != 0 <==> next.button_4.last_stable,
        out.state.buttons & 16u16 != 0 <==> next.joystick.button.last_stable,
        out.state.buttons & 32u16 == 0,
        out.buttons@[0] == next.button_1.current(),
        out.buttons@[1] == next.button_2.current(),
        out.buttons@[2] == next.button_3.current(),
        out.buttons@[3] == next.button_4.current(),
        out.joy_button == next.joystick.button.current(),
        out.state.joy_x == analog::centered(
            analog::average(next.joystick.x.recent()),
            s.joystick.x.center(),
            s.joystick.x.dead(),
        ),
        out.state.joy_y == -analog::centered(
            analog::average(next.joystick.y.recent()),
            s.joystick.y.center(),
            s.joystick.y.dead(),
        ),
        out.state.knob_1 == analog::normalized(analog::average(next.knob_1.recent())),
        out.state.knob_2 == analog::normalized(analog::average(next.knob_2.recent())),
        next.button_1 == button::sampled(s.button_1, raw.button_1, now),
        next.button_2 == button::sampled(s.button_2, raw.button_2, now),
        next.button_3 == button::sampled(s.button_3, raw.button_3, now),
        next.button_4 == button::sampled(s.button_4, raw.button_4, now),
        next.joystick.button == button::sampled(s.joystick.button, raw.joy_button, now),
{
    crate::protocol::frame::lemma_each_button_has_its_bit(out.state);
    button::lemma_state_matches_level(s.button_1, raw.button_1, now);
    button::lemma_state_matches_level(s.button_2, raw.button_2, now);
    button::lemma_state_matches_level(s.button_3, raw.button_3, now);
    button::lemma_state_matches_level(s.button_4, raw.button_4, now);
    button::lemma_state_matches_level(s.joystick.button, raw.joy_button, now);
    assert(!bits::has_bit16(out.state.buttons, 5));
}

} // verus!
