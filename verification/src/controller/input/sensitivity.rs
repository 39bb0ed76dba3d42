//! Scaling a sample by the sensitivities that a host has set.

use crate::controller::transport::control::{self, ControlState, SENSITIVITY_MAX};
use crate::protocol::GamepadState;
use vstd::prelude::*;

verus! {

/// A value scaled in thousandths, rounded towards zero.
pub open spec fn scaled(value: int, scale: u16) -> int {
    if value >= 0 {
        value * scale / (SENSITIVITY_MAX as int)
    } else {
        -((-value) * scale / (SENSITIVITY_MAX as int))
    }
}

/// A sample as the gamepad reports it.
pub open spec fn scaled_state(state: GamepadState, joy_scale: u16, knob_scale: u16) -> GamepadState {
    GamepadState {
        buttons: state.buttons,
        joy_x: scaled(state.joy_x as int, joy_scale) as i16,
        joy_y: scaled(state.joy_y as int, joy_scale) as i16,
        knob_1: scaled(state.knob_1 as int, knob_scale) as u16,
        knob_2: scaled(state.knob_2 as int, knob_scale) as u16,
    }
}

/// A scaled size, from its unscaled one.
fn scale_size(size: u32, scale: u16) -> (n: u32)
    requires
        size <= 0xFFFF,
        scale <= SENSITIVITY_MAX,
    ensures
        n == scaled(size as int, scale),
        n <= size,
{
    proof {
        lemma_scaling_never_enlarges(size as int, scale);
    }
    assert(size * scale <= 0xFFFF * 1000) by (nonlinear_arith)
        requires
            size <= 0xFFFF,
            scale <= 1000,
    ;
    size * (scale as u32) / (SENSITIVITY_MAX as u32)
}

fn scale_axis(value: i16, scale: u16) -> (v: i16)
    requires
        scale <= SENSITIVITY_MAX,
    ensures
        v == scaled(value as int, scale),
{
    if value >= 0 {
        scale_size(value as u32, scale) as i16
    } else {
        let size: u32 = (-(value as i32)) as u32;
        (-(scale_size(size, scale) as i32)) as i16
    }
}

/// Scales the stick and the knobs of a sample. Buttons stay as they are.
pub fn apply_sensitivity(state: &mut GamepadState, control: &ControlState)
    requires
        control.wf(),
    ensures
        *final(state) == scaled_state(*old(state), control.joy_sensitivity, control.knob_sensitivity),
{
    let joy: u16 = control::joy_sensitivity(control);
    let knob: u16 = control::knob_sensitivity(control);
    state.joy_x = scale_axis(state.joy_x, joy);
    state.joy_y = scale_axis(state.joy_y, joy);
    state.knob_1 = scale_size(state.knob_1 as u32, knob) as u16;
    state.knob_2 = scale_size(state.knob_2 as u32, knob) as u16;
}

/// Scaling never makes a value larger and never turns it round.
pub proof fn lemma_scaling_never_enlarges(value: int, scale: u16)
    requires
        scale <= SENSITIVITY_MAX,
    ensures
        value >= 0 ==> 0 <= scaled(value, scale) <= value,
        value <= 0 ==> value <= scaled(value, scale) <= 0,
{
    let size = if value >= 0 {
        value
    } else {
        -value
    };
    assert(0 <= size * scale / 1000 <= size) by (nonlinear_arith)
        requires
            size >= 0,
            0 <= scale <= 1000,
    ;
}

/// Full sensitivity leaves a sample as it is.
pub proof fn lemma_full_sensitivity_changes_nothing(state: GamepadState)
    ensures
        scaled_state(state, SENSITIVITY_MAX, SENSITIVITY_MAX) == state,
{
}

/// Without sensitivity only the buttons are left of a sample.
pub proof fn lemma_no_sensitivity_leaves_the_buttons(state: GamepadState)
    ensures
        scaled_state(state, 0, 0) == (GamepadState { buttons: state.buttons, ..GamepadState::spec_empty() }),
{
}

/// Scaling is in proportion: a value times the scale is a thousand times the result, up to
/// rounding towards zero.
pub proof fn lemma_scaling_is_in_proportion(value: int, scale: u16)
    ensures
        value >= 0 ==> scaled(value, scale) * 1000 <= value * scale < (scaled(value, scale) + 1) * 1000,
        value <= 0 ==> -scaled(value, scale) * 1000 <= -value * scale < (-scaled(value, scale) + 1) * 1000,
{
    assert(0 * scale == 0) by (nonlinear_arith);
}

/// The stick is scaled by the stick's sensitivity and the knobs by the knobs', each axis
/// and each knob from its own value; the buttons are left alone.
pub proof fn lemma_each_control_is_scaled_by_its_sensitivity(state: GamepadState, joy_scale: u16, knob_scale: u16)
    requires
        joy_scale <= 1000,
        knob_scale <= 1000,
    ensures
        ({
            let out = scaled_state(state, joy_scale, knob_scale);
            &&& out.buttons == state.buttons
            &&& state.joy_x >= 0 ==> out.joy_x * 1000 <= state.joy_x * joy_scale < (out.joy_x + 1) * 1000
            &&& state.joy_x <= 0 ==> -out.joy_x * 1000 <= -state.joy_x * joy_scale < (-out.joy_x + 1) * 1000
            &&& state.joy_y >= 0 ==> out.joy_y * 1000 <= state.joy_y * joy_scale < (out.joy_y + 1) * 1000
            &&& state.joy_y <= 0 ==> -out.joy_y * 1000 <= -state.joy_y * joy_scale < (-out.joy_y + 1) * 1000
            &&& out.knob_1 * 1000 <= state.knob_1 * knob_scale < (out.knob_1 + 1) * 1000
            &&& out.knob_2 * 1000 <= state.knob_2 * knob_scale < (out.knob_2 + 1) * 1000
        }),
{
    lemma_scaling_is_in_proportion(state.joy_x as int, joy_scale);
    lemma_scaling_is_in_proportion(state.joy_y as int, joy_scale);
    lemma_scaling_is_in_proportion(state.knob_1 as int, knob_scale);
    lemma_scaling_is_in_proportion(state.knob_2 as int, knob_scale);
    lemma_scaling_never_enlarges(state.joy_x as int, joy_scale);
    lemma_scaling_never_enlarges(state.joy_y as int, joy_scale);
    lemma_scaling_never_enlarges(state.knob_1 as int, knob_scale);
    lemma_scaling_never_enlarges(state.knob_2 as int, knob_scale);
}

} // verus!
