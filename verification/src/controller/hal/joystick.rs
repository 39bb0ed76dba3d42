//! The stick: two axes and a button.

use super::analog::{self, AnalogInput};
use super::button::{self, Button, ButtonState};
use crate::controller::config::{AXIS_RANGE, JOYSTICK_CALIBRATION_SAMPLES};
use crate::time::Instant;
use vstd::prelude::*;

verus! {

/// One reading of the stick: right and up are positive.
#[derive(Debug, Clone, Copy, PartialEq, Eq, Structural)]
pub struct JoystickReading {
    pub x: i16,
    pub y: i16,
    pub button: ButtonState,
}

impl Default for JoystickReading {
    fn default() -> (r: JoystickReading)
        ensures
            r == (JoystickReading { x: 0, y: 0, button: ButtonState::Released }),
    {
        JoystickReading { x: 0, y: 0, button: ButtonState::Released }
    }
}

impl JoystickReading {
    /// Whether the stick is at rest.
    pub fn is_centered(&self) -> (r: bool)
        ensures
            r == (self.x == 0 && self.y == 0),
    {
        self.x == 0 && self.y == 0
    }

    /// Whether the stick's button is down.
    pub fn is_button_down(&self) -> (r: bool)
        ensures
            r == self.button.down(),
    {
        self.button.is_down()
    }
}

/// The stick.
#[derive(Debug, Clone, Copy)]
pub struct Joystick {
    pub x: AnalogInput,
    pub y: AnalogInput,
    pub button: Button,
}

/// The readings kept by an input after a conversion.
pub open spec fn fed(input: AnalogInput, conversion: Option<u16>) -> Seq<u16> {
    analog::remembered(input.recent(), analog::reading(conversion))
}

/// The deflection that an axis reads.
pub open spec fn axis(input: AnalogInput, conversion: Option<u16>) -> int {
    analog::centered(analog::average(fed(input, conversion)), input.center(), input.dead())
}

impl Joystick {
    /// Both axes are in order.
    pub open spec fn wf(self) -> bool {
        self.x.wf() && self.y.wf()
    }

    /// A stick of two axes and a button.
    pub fn new(x: AnalogInput, y: AnalogInput, button: Button) -> (j: Joystick)
        ensures
            j == (Joystick { x, y, button }),
    {
        Joystick { x, y, button }
    }

    /// Settles on the centre of both axes.
    pub fn calibrate(
        &mut self,
        x_conversions: &[Option<u16>; JOYSTICK_CALIBRATION_SAMPLES],
        y_conversions: &[Option<u16>; JOYSTICK_CALIBRATION_SAMPLES],
    ) -> (zeros: (u16, u16))
        requires
            old(self).wf(),
        ensures
            final(self).wf(),
            zeros.0 == analog::settled(
                analog::averages(old(self).x.recent(), analog::readings(x_conversions@)) / JOYSTICK_CALIBRATION_SAMPLES as int,
            ),
            zeros.1 == analog::settled(
                analog::averages(old(self).y.recent(), analog::readings(y_conversions@)) / JOYSTICK_CALIBRATION_SAMPLES as int,
            ),
            final(self).x.center() == zeros.0,
            final(self).y.center() == zeros.1,
            final(self).x.recent() == analog::after_all(old(self).x.recent(), analog::readings(x_conversions@)),
            final(self).y.recent() == analog::after_all(old(self).y.recent(), analog::readings(y_conversions@)),
            final(self).x.dead() == old(self).x.dead(),
            final(self).y.dead() == old(self).y.dead(),
            final(self).button == old(self).button,
    {
        let x_zero: u16 = self.x.calibrate(x_conversions);
        let y_zero: u16 = self.y.calibrate(y_conversions);
        (x_zero, y_zero)
    }

    /// Takes a reading. The stick is mounted upside down, so its vertical axis is
    /// turned over.
    pub fn read(
        &mut self,
        x_conversion: Option<u16>,
        y_conversion: Option<u16>,
        button_high: bool,
        now: Instant,
    ) -> (r: JoystickReading)
        requires
            old(self).wf(),
            old(self).button.last_change.ticks <= now.ticks,
        ensures
            final(self).wf(),
            r.x == axis(old(self).x, x_conversion),
            r.y == -axis(old(self).y, y_conversion),
            r.button == final(self).button.current(),
            -AXIS_RANGE <= r.x <= AXIS_RANGE,
            -AXIS_RANGE <= r.y <= AXIS_RANGE,
            final(self).button == button::sampled(old(self).button, button_high, now),
            final(self).button.last_change.ticks <= now.ticks,
            final(self).x.recent() == fed(old(self).x, x_conversion),
            final(self).y.recent() == fed(old(self).y, y_conversion),
            final(self).x.center() == old(self).x.center(),
            final(self).y.center() == old(self).y.center(),
            final(self).x.dead() == old(self).x.dead(),
            final(self).y.dead() == old(self).y.dead(),
    {
        let x: i16 = self.x.read_centered(x_conversion);
        let y: i16 = -self.y.read_centered(y_conversion);
        let button = self.button.poll(button_high, now);
        JoystickReading { x, y, button }
    }
}

// ---- Laws ----

/// An axis reads the newest conversion together with the ones before it, and its value
/// lies on the line through the centre and the end of the side with less room: zero in
/// the dead zone, a thousand from that end on, in proportion between.
pub proof fn lemma_axis_reads_the_average_on_the_line(input: AnalogInput, conversion: Option<u16>)
    requires
        input.recent().len() <= 4,
        input.dead() >= 0,
    ensures
        ({
            let v = axis(input, conversion);
            let window = fed(input, conversion);
            let raw = analog::average(window);
            let zero = input.center();
            let dead = input.dead();
            let r = if zero <= 4095 - zero {
                zero - dead
            } else {
                4095 - zero - dead
            };
            &&& 1 <= window.len() <= 4
            &&& window.last() == (match conversion {
                Some(c) => c,
                None => 2048,
            })
            &&& input.recent().len() > 0 ==> window.len() >= 2 && window[window.len() - 2] == input.recent().last()
            &&& -dead <= raw - zero <= dead ==> v == 0
            &&& 0 < raw - zero - dead <= r ==> v >= 0 && v * r <= (raw - zero - dead) * 1000 < (v + 1) * r
            &&& 0 < zero - raw - dead <= r ==> v <= 0 && -v * r <= (zero - raw - dead) * 1000 < (-v + 1) * r
            &&& raw - zero > dead && raw - zero - dead >= r ==> v == 1000
            &&& zero - raw > dead && zero - raw - dead >= r ==> v == -1000
        }),
{
    analog::lemma_window_holds_the_last_four(input.recent(), conversion);
    analog::lemma_axis_is_linear(analog::average(fed(input, conversion)), input.center(), input.dead());
}

} // verus!
