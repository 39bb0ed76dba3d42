//! The picture of the gamepad.

use super::state::{AppState, AppView};
use crate::protocol::{ButtonBits, GamepadState};
use crate::text;
use vstd::prelude::*;

verus! {

/// Full scale of stick and knobs.
pub const AXIS_RANGE: u16 = 1000;

/// The stick's coordinates as text.
pub open spec fn readout(state: GamepadState) -> Seq<char> {
    "X="@ + text::signed_zero_filled(state.joy_x as int, 5) + " Y="@ + text::signed_zero_filled(
        state.joy_y as int,
        5,
    )
}

/// The class of a button's lamp.
pub open spec fn lamp_text(on: bool) -> Seq<char> {
    if on {
        "btn-lamp on"@
    } else {
        "btn-lamp"@
    }
}

/// The class of a button's lamp: lit while the button is held.
pub fn lamp_class(state: &GamepadState, bit: ButtonBits) -> (s: &'static str)
    ensures
        s@ == lamp_text(state.pressed(bit)),
{
    if state.is_pressed(bit) {
        "btn-lamp on"
    } else {
        "btn-lamp"
    }
}

/// How far a knob's bar is filled, in percent with one decimal: a thousandth of the
/// full scale is a tenth of a percent, and the bar is never more than full.
pub open spec fn fill_text(knob: u16) -> Seq<char> {
    let tenths = if knob < AXIS_RANGE {
        knob as nat
    } else {
        AXIS_RANGE as nat
    };
    text::decimal(tenths / 10) + "."@ + text::decimal(tenths % 10) + "%"@
}

/// How far a knob's bar is filled.
pub fn knob_fill(knob: u16) -> (s: String)
    ensures
        s@ == fill_text(knob),
{
    let tenths: u64 = if knob < AXIS_RANGE {
        knob as u64
    } else {
        AXIS_RANGE as u64
    };
    let mut s = text::decimal_text(tenths / 10);
    s.append(".");
    text::push_decimal(&mut s, tenths % 10);
    s.append("%");
    assert(s@ =~= fill_text(knob));
    s
}

/// What the picture shows in words: the coordinates, the four lamps, and the two
/// knobs with their bars.
pub struct GamepadVisual {
    pub readout: String,
    pub lamps: [&'static str; 4],
    pub knob_1: String,
    pub knob_1_fill: String,
    pub knob_2: String,
    pub knob_2_fill: String,
}

impl GamepadVisual {
    /// The picture shows this state of the dashboard.
    pub open spec fn shows(self, app: AppView) -> bool {
        &&& self.readout@ == readout(app.gamepad)
        &&& self.lamps@[0]@ == lamp_text(app.gamepad.pressed(ButtonBits::Btn1))
        &&& self.lamps@[1]@ == lamp_text(app.gamepad.pressed(ButtonBits::Btn2))
        &&& self.lamps@[2]@ == lamp_text(app.gamepad.pressed(ButtonBits::Btn3))
        &&& self.lamps@[3]@ == lamp_text(app.gamepad.pressed(ButtonBits::Btn4))
        &&& self.knob_1@ == text::decimal(app.gamepad.knob_1 as nat)
        &&& self.knob_1_fill@ == fill_text(app.gamepad.knob_1)
        &&& self.knob_2@ == text::decimal(app.gamepad.knob_2 as nat)
        &&& self.knob_2_fill@ == fill_text(app.gamepad.knob_2)
    }

    /// The picture of a dashboard's newest frame.
    pub fn new(app: &AppState) -> (v: GamepadVisual)
        ensures
            v.shows(app@),
    {
        let state = &app.gamepad;
        let mut words = String::new();
        words.append("X=");
        let x = text::signed_zero_filled_text(state.joy_x as i32, 5);
        words.append(x.as_str());
        words.append(" Y=");
        let y = text::signed_zero_filled_text(state.joy_y as i32, 5);
        words.append(y.as_str());
        assert(words@ =~= readout(app@.gamepad));
        GamepadVisual {
            readout: words,
            lamps: [
                lamp_class(state, ButtonBits::Btn1),
                lamp_class(state, ButtonBits::Btn2),
                lamp_class(state, ButtonBits::Btn3),
                lamp_class(state, ButtonBits::Btn4),
            ],
            knob_1: text::decimal_text(state.knob_1 as u64),
            knob_1_fill: knob_fill(state.knob_1),
            knob_2: text::decimal_text(state.knob_2 as u64),
            knob_2_fill: knob_fill(state.knob_2),
        }
    }
}

// ---- Laws ----

/// A knob's bar is filled in proportion: the percentage and its tenth are the knob's value
/// in thousandths, and at most one hundred percent.
pub proof fn lemma_bar_is_filled_in_proportion(knob: u16)
    ensures
        ({
            let s = fill_text(knob);
            let n = s.len();
            let tenths = if knob < 1000 {
                knob as int
            } else {
                1000
            };
            &&& n >= 4
            &&& s[n - 1] == '%'
            &&& s[n - 3] == '.'
            &&& text::number_of(s.subrange(0, n - 3), 10) * 10 + text::sign_value(s[n - 2]) == tenths
        }),
{
    reveal_strlit(".");
    reveal_strlit("%");
    let tenths = if knob < AXIS_RANGE {
        knob as nat
    } else {
        AXIS_RANGE as nat
    };
    let whole = text::decimal(tenths / 10);
    let tenth = text::decimal(tenths % 10);
    text::lemma_decimal_reads_back(tenths / 10);
    text::lemma_signs_stand_for_their_numbers((tenths % 10) as int);
    assert(tenth == seq![text::digit((tenths % 10) as int)]);
    let s = fill_text(knob);
    assert(s.subrange(0, s.len() - 3) =~= whole);
}

/// A lamp is lit exactly while its button is held, and each lamp belongs to its button.
pub proof fn lemma_lamps_show_their_buttons(v: GamepadVisual, app: AppView)
    requires
        v.shows(app),
    ensures
        v.lamps@[0]@ == "btn-lamp on"@ <==> app.gamepad.buttons & 1u16 != 0,
        v.lamps@[1]@ == "btn-lamp on"@ <==> app.gamepad.buttons & 2u16 != 0,
        v.lamps@[2]@ == "btn-lamp on"@ <==> app.gamepad.buttons & 4u16 != 0,
        v.lamps@[3]@ == "btn-lamp on"@ <==> app.gamepad.buttons & 8u16 != 0,
        text::number_of(v.knob_1@, 10) == app.gamepad.knob_1,
        text::number_of(v.knob_2@, 10) == app.gamepad.knob_2,
{
    reveal_strlit("btn-lamp on");
    reveal_strlit("btn-lamp");
    assert("btn-lamp on"@.len() == 11 && "btn-lamp"@.len() == 8);
    crate::protocol::frame::lemma_each_button_has_its_bit(app.gamepad);
    text::lemma_decimal_reads_back(app.gamepad.knob_1 as nat);
    text::lemma_decimal_reads_back(app.gamepad.knob_2 as nat);
}

/// The coordinates are shown with their signs, the horizontal one first.
pub proof fn lemma_readout_shows_both_axes(state: GamepadState)
    requires
        -9999 <= state.joy_x <= 9999,
    ensures
        ({
            let s = readout(state);
            &&& s[2] == (if state.joy_x < 0 {
                '-'
            } else {
                '+'
            })
            &&& text::number_of(s.subrange(3, 7), 10) == (if state.joy_x < 0 {
                -state.joy_x
            } else {
                state.joy_x as int
            })
            &&& s[10] == (if state.joy_y < 0 {
                '-'
            } else {
                '+'
            })
            &&& text::number_of(s.subrange(11, s.len() as int), 10) == (if state.joy_y < 0 {
                -state.joy_y
            } else {
                state.joy_y as int
            })
        }),
{
    reveal_strlit("X=");
    reveal_strlit(" Y=");
    let sx = text::signed_zero_filled(state.joy_x as int, 5);
    let sy = text::signed_zero_filled(state.joy_y as int, 5);
    text::lemma_signed_zero_filled_reads_back(state.joy_x as int, 5);
    text::lemma_signed_zero_filled_reads_back(state.joy_y as int, 5);
    let size = if state.joy_x < 0 {
        -state.joy_x
    } else {
        state.joy_x as int
    } as nat;
    text::lemma_decimal_grows(size, 9999);
    reveal_with_fuel(text::decimal, 5);
    assert(text::decimal(9999).len() == 4);
    text::lemma_zero_filled_reads_back(size, 4);
    reveal_strlit("-");
    reveal_strlit("+");
    assert(sx.len() == 5);
    let s = readout(state);
    assert(s.subrange(3, 7) =~= sx.skip(1));
    assert(s.subrange(11, s.len() as int) =~= sy.skip(1));
}

} // verus!
