//! A light.

use vstd::prelude::*;

verus! {

/// A light and the pin that drives it.
#[derive(Debug, Clone, Copy, PartialEq, Eq, Structural)]
pub struct Led {
    /// The pin is high while the light is on.
    pub active_high: bool,
    pub on: bool,
}

impl Led {
    /// The pin's level.
    pub open spec fn pin_high(self) -> bool {
        self.on == self.active_high
    }

    /// A light that is off.
    pub fn new(active_high: bool) -> (led: Led)
        ensures
            led == (Led { active_high, on: false }),
    {
        Led { active_high, on: false }
    }

    /// Turns the light on.
    pub fn on(&mut self)
        ensures
            *final(self) == (Led { on: true, ..*old(self) }),
    {
        self.on = true;
    }

    /// Turns the light off.
    pub fn off(&mut self)
        ensures
            *final(self) == (Led { on: false, ..*old(self) }),
    {
        self.on = false;
    }

    /// Turns the light over.
    pub fn toggle(&mut self)
        ensures
            *final(self) == (Led { on: !old(self).on, ..*old(self) }),
    {
        if self.on {
            self.off();
        } else {
            self.on();
        }
    }

    /// Turns the light on or off.
    pub fn set(&mut self, on: bool)
        ensures
            *final(self) == (Led { on, ..*old(self) }),
    {
        if on {
            self.on();
        } else {
            self.off();
        }
    }

    /// Whether the light is on.
    pub fn is_on(&self) -> (r: bool)
        ensures
            r == self.on,
    {
        self.on
    }

    /// The level to put on the pin.
    pub fn level_high(&self) -> (high: bool)
        ensures
            high == self.pin_high(),
    {
        if self.active_high {
            self.on
        } else {
            !self.on
        }
    }
}

/// The pin follows the light, or its opposite if the light is on while the pin is low.
pub proof fn lemma_pin_follows_the_light(led: Led)
    ensures
        led.active_high ==> (led.pin_high() <==> led.on),
        !led.active_high ==> (led.pin_high() <==> !led.on),
{
}

} // verus!
