//! State frames: what the gamepad reports many times a second.

use crate::bits::{self, bit_is_set};
use vstd::prelude::*;

verus! {

/// Little-endian magic of a state frame.
pub const FRAME_MAGIC: u16 = 0xC71E;

/// Encoded length of a state frame.
pub const FRAME_LEN: usize = 25;

/// Positions of the buttons in `GamepadState::buttons`.
#[derive(Debug, Clone, Copy, PartialEq, Eq, Structural)]
pub enum ButtonBits {
    Btn1,
    Btn2,
    Btn3,
    Btn4,
    JoyBtn,
    Switch,
}

impl ButtonBits {
    /// The button's bit position.
    pub open spec fn position(self) -> int {
        match self {
            ButtonBits::Btn1 => 0,
            ButtonBits::Btn2 => 1,
            ButtonBits::Btn3 => 2,
            ButtonBits::Btn4 => 3,
            ButtonBits::JoyBtn => 4,
            ButtonBits::Switch => 5,
        }
    }

    /// The button's bit position.
    pub fn index(self) -> (i: u16)
        ensures
            i == self.position(),
    {
        match self {
            ButtonBits::Btn1 => 0,
            ButtonBits::Btn2 => 1,
            ButtonBits::Btn3 => 2,
            ButtonBits::Btn4 => 3,
            ButtonBits::JoyBtn => 4,
            ButtonBits::Switch => 5,
        }
    }
}

/// One sample of everything a player can move.
#[derive(Debug, Clone, Copy, PartialEq, Eq, Structural)]
pub struct GamepadState {
    pub buttons: u16,
    pub joy_x: i16,
    pub joy_y: i16,
    pub knob_1: u16,
    pub knob_2: u16,
}

impl GamepadState {
    /// Nothing pressed, nothing moved.
    pub open spec fn spec_empty() -> GamepadState {
        GamepadState { buttons: 0, joy_x: 0, joy_y: 0, knob_1: 0, knob_2: 0 }
    }

    /// A button is held.
    pub open spec fn pressed(self, bit: ButtonBits) -> bool {
        bits::has_bit16(self.buttons, bit.position())
    }

    /// Nothing pressed, nothing moved.
    pub fn empty() -> (s: GamepadState)
        ensures
            s == GamepadState::spec_empty(),
            forall|i: int| !#[trigger] bits::has_bit16(s.buttons, i),
    {
        proof {
            assert forall|i: int| !#[trigger] bits::has_bit16(0u16, i) by {
                let k = i as u16;
                assert(0u16 & (1u16 << k) == 0) by (bit_vector);
            }
        }
        GamepadState { buttons: 0, joy_x: 0, joy_y: 0, knob_1: 0, knob_2: 0 }
    }

    /// Whether a button is held.
    pub fn is_pressed(&self, bit: ButtonBits) -> (r: bool)
        ensures
            r == self.pressed(bit),
    {
        let i: u16 = bit.index();
        self.buttons & (1u16 << i) != 0
    }

    /// Records one button; everything else stays.
    pub fn set_button(&mut self, bit: ButtonBits, on: bool)
        ensures
            final(self).buttons == (if on {
                old(self).buttons | (1u16 << (bit.position() as u16))
            } else {
                old(self).buttons & !(1u16 << (bit.position() as u16))
            }),
            final(self).pressed(bit) == on,
            forall|i: int|
                i != bit.position() ==> #[trigger] bits::has_bit16(final(self).buttons, i) == bits::has_bit16(
                    old(self).buttons,
                    i,
                ),
            final(self).joy_x == old(self).joy_x,
            final(self).joy_y == old(self).joy_y,
            final(self).knob_1 == old(self).knob_1,
            final(self).knob_2 == old(self).knob_2,
    {
        let i: u16 = bit.index();
        let before: u16 = self.buttons;
        if on {
            self.buttons = before | (1u16 << i);
        } else {
            self.buttons = before & !(1u16 << i);
        }
        proof {
            let after = self.buttons;
            assert forall|p: int| #[trigger] bits::has_bit16(after, p) == (if p == bit.position() {
                on
            } else {
                bits::has_bit16(before, p)
            }) by {
                if 0 <= p < 16 {
                    let j = p as u16;
                    assert(((before | (1u16 << i)) & (1u16 << j) != 0) <==> (i == j || before & (1u16
                        << j) != 0)) by (bit_vector)
                        requires
                            i < 16,
                            j < 16,
                    ;
                    assert(((before & !(1u16 << i)) & (1u16 << j) != 0) <==> (i != j && before & (1u16
                        << j) != 0)) by (bit_vector)
                        requires
                            i < 16,
                            j < 16,
                    ;
                }
            }
        }
    }
}

/// Each button has its own bit, and which one is fixed: the four buttons have the bits
/// 0 to 3, the stick's button bit 4 and the switch bit 5.
pub proof fn lemma_each_button_has_its_bit(s: GamepadState)
    ensures
        s.pressed(ButtonBits::Btn1) <==> s.buttons & 1u16 != 0,
        s.pressed(ButtonBits::Btn2) <==> s.buttons & 2u16 != 0,
        s.pressed(ButtonBits::Btn3) <==> s.buttons & 4u16 != 0,
        s.pressed(ButtonBits::Btn4) <==> s.buttons & 8u16 != 0,
        s.pressed(ButtonBits::JoyBtn) <==> s.buttons & 16u16 != 0,
        s.pressed(ButtonBits::Switch) <==> s.buttons & 32u16 != 0,
{
    assert(1u16 << 0u16 == 1u16 && 1u16 << 1u16 == 2u16 && 1u16 << 2u16 == 4u16 && 1u16 << 3u16 == 8u16 && 1u16
        << 4u16 == 16u16 && 1u16 << 5u16 == 32u16) by (bit_vector);
}

/// A frame carries what it was made of, unchanged.
pub proof fn lemma_frame_carries_its_parts(seq: u32, payload: GamepadState, dest_mask: u32)
    ensures
        Frame::spec_with_dest(seq, payload, dest_mask).header.seq == seq,
        Frame::spec_with_dest(seq, payload, dest_mask).payload == payload,
        Frame::spec_with_dest(seq, payload, dest_mask).dest_mask == dest_mask,
        GamepadState::spec_empty().buttons == 0,
        GamepadState::spec_empty().joy_x == 0,
        GamepadState::spec_empty().joy_y == 0,
        GamepadState::spec_empty().knob_1 == 0,
        GamepadState::spec_empty().knob_2 == 0,
{
}

impl Default for GamepadState {
    fn default() -> (s: GamepadState)
        ensures
            s == GamepadState::spec_empty(),
    {
        GamepadState::empty()
    }
}

/// Numbering of a frame.
#[derive(Debug, Clone, Copy, PartialEq, Eq, Structural)]
pub struct FrameHeader {
    pub seq: u32,
}

/// A numbered gamepad state with its addressees: bit `i` of `dest_mask` stands
/// for endpoint `i`.
#[derive(Debug, Clone, Copy, PartialEq, Eq, Structural)]
pub struct Frame {
    pub header: FrameHeader,
    pub payload: GamepadState,
    pub dest_mask: u32,
}

impl Frame {
    /// A frame for the given endpoints.
    pub open spec fn spec_with_dest(seq: u32, payload: GamepadState, dest_mask: u32) -> Frame {
        Frame { header: FrameHeader { seq }, payload, dest_mask }
    }

    /// A frame that is addressed to nobody.
    pub fn new(seq: u32, payload: GamepadState) -> (f: Frame)
        ensures
            f == Frame::spec_with_dest(seq, payload, 0),
    {
        Frame { header: FrameHeader { seq }, payload, dest_mask: 0 }
    }

    /// A frame for the given endpoints.
    pub fn with_dest(seq: u32, payload: GamepadState, dest_mask: u32) -> (f: Frame)
        ensures
            f == Frame::spec_with_dest(seq, payload, dest_mask),
    {
        Frame { header: FrameHeader { seq }, payload, dest_mask }
    }

    /// Whether endpoint `receiver_id` is addressed. Ids past the mask never are.
    pub fn is_addressed_to(&self, receiver_id: u8) -> (r: bool)
        ensures
            r == bits::has_bit(self.dest_mask, receiver_id as int),
            r == (receiver_id < 32 && self.dest_mask & (1u32 << (receiver_id as u32)) != 0),
    {
        bit_is_set(self.dest_mask, receiver_id)
    }
}

} // verus!
