//! A subscriber to frames that notices lost ones.

use crate::protocol::{ButtonBits, Frame, GamepadState, FRAME_LEN};
use crate::text;
use vstd::prelude::*;

verus! {

/// The number that follows on `seq`.
pub open spec fn follows(seq: u32) -> u32 {
    if seq == u32::MAX {
        0
    } else {
        (seq + 1) as u32
    }
}

/// A state in which only buttons are held.
pub open spec fn only_held(buttons: u16) -> GamepadState {
    GamepadState { buttons, ..GamepadState::spec_empty() }
}

/// A short session at the gamepad: nothing, two button presses, the stick, the knobs,
/// and four buttons at once.
pub fn simulate_gamepad_session() -> (session: Vec<(u32, GamepadState)>)
    ensures
        session@.len() == 6,
        forall|i: int| 0 <= i < 6 ==> (#[trigger] session@[i]).0 == i + 1,
        session@[0].1 == GamepadState::spec_empty(),
        session@[1].1 == only_held(0b0001),
        session@[2].1 == only_held(0b0101),
        session@[3].1 == (GamepadState { joy_x: 20_000, joy_y: 15_000, ..GamepadState::spec_empty() }),
        session@[4].1 == (GamepadState { knob_1: 32_768, knob_2: 16_384, ..GamepadState::spec_empty() }),
        session@[5].1 == only_held(0b1111),
{
    proof {
        assert(0u16 | (1u16 << 0u16) == 0b0001) by (bit_vector);
        assert(0b0001u16 | (1u16 << 2u16) == 0b0101) by (bit_vector);
        assert(0b0001u16 | (1u16 << 1u16) == 0b0011) by (bit_vector);
        assert(0b0011u16 | (1u16 << 2u16) == 0b0111) by (bit_vector);
        assert(0b0111u16 | (1u16 << 3u16) == 0b1111) by (bit_vector);
    }
    let mut session: Vec<(u32, GamepadState)> = Vec::new();
    let idle = GamepadState::empty();
    session.push((1, idle));
    let mut s = GamepadState::empty();
    s.set_button(ButtonBits::Btn1, true);
    session.push((2, s));
    let mut s = GamepadState::empty();
    s.set_button(ButtonBits::Btn1, true);
    s.set_button(ButtonBits::Btn3, true);
    session.push((3, s));
    session.push((4, GamepadState { buttons: 0, joy_x: 20_000, joy_y: 15_000, knob_1: 0, knob_2: 0 }));
    session.push((5, GamepadState { buttons: 0, joy_x: 0, joy_y: 0, knob_1: 32_768, knob_2: 16_384 }));
    let mut s = GamepadState::empty();
    s.set_button(ButtonBits::Btn1, true);
    s.set_button(ButtonBits::Btn2, true);
    s.set_button(ButtonBits::Btn3, true);
    s.set_button(ButtonBits::Btn4, true);
    session.push((6, s));
    session
}

/// The names of the held buttons, joined.
pub open spec fn held_names(state: GamepadState, n: nat) -> Seq<char>
    decreases n,
{
    if n == 0 {
        Seq::empty()
    } else {
        let before = held_names(state, (n - 1) as nat);
        let b = named_button(n - 1);
        if !state.pressed(b.0) {
            before
        } else if before.len() == 0 {
            b.1
        } else {
            before + "+"@ + b.1
        }
    }
}

/// The buttons with their names, in order.
pub open spec fn named_button(i: int) -> (ButtonBits, Seq<char>) {
    if i == 0 {
        (ButtonBits::Btn1, "Btn1"@)
    } else if i == 1 {
        (ButtonBits::Btn2, "Btn2"@)
    } else if i == 2 {
        (ButtonBits::Btn3, "Btn3"@)
    } else {
        (ButtonBits::Btn4, "Btn4"@)
    }
}

fn named_button_at(i: usize) -> (b: (ButtonBits, &'static str))
    ensures
        b.0 == named_button(i as int).0,
        b.1@ == named_button(i as int).1,
{
    if i == 0 {
        (ButtonBits::Btn1, "Btn1")
    } else if i == 1 {
        (ButtonBits::Btn2, "Btn2")
    } else if i == 2 {
        (ButtonBits::Btn3, "Btn3")
    } else {
        (ButtonBits::Btn4, "Btn4")
    }
}

/// A state in one line.
pub open spec fn description(state: GamepadState) -> Seq<char> {
    let names = held_names(state, 4);
    let btns = if names.len() == 0 {
        "─"@
    } else {
        names
    };
    "btn="@ + text::left_aligned(btns, 12) + " joy=("@ + text::right_aligned(
        text::signed(state.joy_x as int),
        6,
    ) + ","@ + text::right_aligned(text::signed(state.joy_y as int), 6) + ") knob=("@ + text::right_aligned(
        text::decimal(state.knob_1 as nat),
        5,
    ) + ","@ + text::right_aligned(text::decimal(state.knob_2 as nat), 5) + ")"@
}

/// A state in one line.
pub fn describe_state(state: &GamepadState) -> (line: String)
    ensures
        line@ == description(*state),
{
    let mut btns = String::new();
    let mut i: usize = 0;
    assert(btns@ =~= held_names(*state, 0));
    while i < 4
        invariant
            i <= 4,
            btns@ == held_names(*state, i as nat),
        decreases 4 - i,
    {
        let (bit, name) = named_button_at(i);
        if state.is_pressed(bit) {
            if btns.as_str().unicode_len() > 0 {
                btns.append("+");
            }
            let ghost so_far = btns@;
            btns.append(name);
            assert(so_far.len() == 0 ==> btns@ =~= name@);
        }
        i = i + 1;
        assert(btns@ =~= held_names(*state, i as nat));
    }
    if btns.as_str().unicode_len() == 0 {
        btns = "─".to_string();
    }
    let padded = text::align_left(btns.as_str(), 12);
    let joy_x = text::signed_text(state.joy_x as i32);
    let joy_y = text::signed_text(state.joy_y as i32);
    let knob_1 = text::decimal_text(state.knob_1 as u64);
    let knob_2 = text::decimal_text(state.knob_2 as u64);
    let joy_x_padded = text::align_right(joy_x.as_str(), 6);
    let joy_y_padded = text::align_right(joy_y.as_str(), 6);
    let knob_1_padded = text::align_right(knob_1.as_str(), 5);
    let knob_2_padded = text::align_right(knob_2.as_str(), 5);
    let mut line = "btn=".to_string();
    line.append(padded.as_str());
    line.append(" joy=(");
    line.append(joy_x_padded.as_str());
    line.append(",");
    line.append(joy_y_padded.as_str());
    line.append(") knob=(");
    line.append(knob_1_padded.as_str());
    line.append(",");
    line.append(knob_2_padded.as_str());
    line.append(")");
    assert(line@ =~= description(*state));
    line
}

/// The frames among what the decoder gave, in order.
pub open spec fn decoded(frames: Seq<Option<Frame>>) -> Seq<Frame>
    decreases frames.len(),
{
    if frames.len() == 0 {
        Seq::empty()
    } else {
        match frames.last() {
            Some(f) => decoded(frames.drop_last()).push(f),
            None => decoded(frames.drop_last()),
        }
    }
}

/// How often a frame does not follow on the one before.
pub open spec fn gaps(frames: Seq<Frame>) -> nat
    decreases frames.len(),
{
    if frames.len() < 2 {
        0
    } else {
        let before = frames.drop_last();
        gaps(before) + if frames.last().header.seq == follows(before.last().header.seq) {
            0nat
        } else {
            1nat
        }
    }
}

/// What a frame says about the frames before it: the number that was due and how
/// many are missing, if it is not the one.
pub fn gap_before(prev: Option<u32>, seq: u32) -> (gap: Option<(u32, u32)>)
    ensures
        match prev {
            None => gap is None,
            Some(p) => if seq == follows(p) {
                gap is None
            } else {
                gap == Some((follows(p), ((seq - follows(p)) % 0x1_0000_0000) as u32))
            },
        },
        prev is Some && seq == prev->0 + 1 ==> gap is None,
        prev is Some && seq > prev->0 + 1 ==> gap == Some(((prev->0 + 1) as u32, (seq - prev->0 - 1) as u32)),
        prev is Some && seq <= prev->0 && prev->0 < 0xFFFF_FFFF ==> gap is Some,
{
    match prev {
        None => None,
        Some(p) => {
            let expected: u32 = p.wrapping_add(1);
            if seq == expected {
                None
            } else {
                let missing: u32 = seq.wrapping_sub(expected);
                proof {
                    if seq < expected {
                        vstd::arithmetic::div_mod::lemma_mod_add_multiples_vanish(
                            seq - expected,
                            0x1_0000_0000,
                        );
                        vstd::arithmetic::div_mod::lemma_small_mod(
                            (seq - expected + 0x1_0000_0000) as nat,
                            0x1_0000_0000,
                        );
                    } else {
                        vstd::arithmetic::div_mod::lemma_small_mod(
                            (seq - expected) as nat,
                            0x1_0000_0000,
                        );
                    }
                    assert(seq > p + 1 ==> missing == seq - p - 1);
                }
                Some((expected, missing))
            }
        },
    }
}

/// The line that reports a gap: the number that was due, the number that came, and
/// how many are missing.
pub open spec fn gap_report(expected: u32, got: u32, missing: u32) -> Seq<char> {
    "  ⚠️  seq gap detected: expected="@ + text::decimal(expected as nat) + ", got="@ + text::decimal(
        got as nat,
    ) + " (missing "@ + text::decimal(missing as nat) + " frame"@ + (if missing == 1 {
        ""@
    } else {
        "s"@
    }) + ")"@
}

/// The line that reports a gap.
pub fn gap_line(expected: u32, got: u32, missing: u32) -> (line: String)
    ensures
        line@ == gap_report(expected, got, missing),
{
    let mut line = "  ⚠️  seq gap detected: expected=".to_string();
    text::push_decimal(&mut line, expected as u64);
    line.append(", got=");
    text::push_decimal(&mut line, got as u64);
    line.append(" (missing ");
    text::push_decimal(&mut line, missing as u64);
    line.append(" frame");
    line.append(
        if missing == 1 {
            ""
        } else {
            "s"
        },
    );
    line.append(")");
    assert(line@ =~= gap_report(expected, got, missing));
    line
}

/// The line that reports a frame.
pub open spec fn frame_report(frame: Frame) -> Seq<char> {
    "  ← seq="@ + text::left_aligned(text::decimal(frame.header.seq as nat), 4) + " "@ + description(
        frame.payload,
    )
}

/// The line that reports a frame.
pub fn frame_line(frame: &Frame) -> (line: String)
    ensures
        line@ == frame_report(*frame),
{
    let seq = text::decimal_text(frame.header.seq as u64);
    let seq_padded = text::align_left(seq.as_str(), 4);
    let state = describe_state(&frame.payload);
    let mut line = "  ← seq=".to_string();
    line.append(seq_padded.as_str());
    line.append(" ");
    line.append(state.as_str());
    assert(line@ =~= frame_report(*frame));
    line
}

/// What a decoder gives for a series of packets.
pub open spec fn decodes<D: Fn(&[u8; FRAME_LEN]) -> Option<Frame>>(
    decode: D,
    packets: Seq<[u8; FRAME_LEN]>,
    frames: Seq<Option<Frame>>,
) -> bool {
    &&& frames.len() == packets.len()
    &&& forall|i: int| 0 <= i < packets.len() ==> decode.ensures((&packets[i],), #[trigger] frames[i])
}

/// Decodes packets, counts the frames among them, and the gaps between them. Packets
/// that are no frames count for nothing.
pub fn process_wire_batch<D>(packets: &Vec<[u8; FRAME_LEN]>, decode: D) -> (counts: (usize, usize)) where
    D: Fn(&[u8; FRAME_LEN]) -> Option<Frame>,

    requires
        forall|i: int| 0 <= i < packets@.len() ==> decode.requires((&#[trigger] packets@[i],)),
    ensures
        exists|frames: Seq<Option<Frame>>|
            {
                &&& #[trigger] decodes(decode, packets@, frames)
                &&& counts.0 == decoded(frames).len()
                &&& counts.1 == gaps(decoded(frames))
            },
{
    let mut frames: Vec<Option<Frame>> = Vec::new();
    let mut i: usize = 0;
    while i < packets.len()
        invariant
            i <= packets@.len(),
            frames@.len() == i,
            forall|k: int| 0 <= k < packets@.len() ==> decode.requires((&#[trigger] packets@[k],)),
            forall|k: int| 0 <= k < i ==> decode.ensures((&packets@[k],), #[trigger] frames@[k]),
        decreases packets@.len() - i,
    {
        let frame = decode(&packets[i]);
        frames.push(frame);
        i = i + 1;
    }
    assert(decodes(decode, packets@, frames@));
    count_frames(&frames)
}

/// Counts the frames among what a decoder gave, and the gaps between them.
pub fn count_frames(frames: &Vec<Option<Frame>>) -> (counts: (usize, usize))
    ensures
        counts.0 == decoded(frames@).len(),
        counts.1 == gaps(decoded(frames@)),
{
    let mut ok_count: usize = 0;
    let mut gap_count: usize = 0;
    let mut last_seq: Option<u32> = None;
    let mut i: usize = 0;
    assert(frames@.subrange(0, 0) =~= Seq::<Option<Frame>>::empty());
    while i < frames.len()
        invariant
            i <= frames@.len(),
            ok_count == decoded(frames@.subrange(0, i as int)).len(),
            gap_count == gaps(decoded(frames@.subrange(0, i as int))),
            gap_count <= ok_count <= i,
            last_seq == (if ok_count == 0 {
                None
            } else {
                Some(decoded(frames@.subrange(0, i as int)).last().header.seq)
            }),
        decreases frames@.len() - i,
    {
        let ghost done = decoded(frames@.subrange(0, i as int));
        proof {
            let now = frames@.subrange(0, i + 1);
            assert(now.drop_last() =~= frames@.subrange(0, i as int));
            assert(now.last() == frames@[i as int]);
        }
        match &frames[i] {
            Some(frame) => {
                if gap_before(last_seq, frame.header.seq).is_some() {
                    gap_count = gap_count + 1;
                }
                last_seq = Some(frame.header.seq);
                ok_count = ok_count + 1;
                assert(done.push(*frame).drop_last() =~= done);
            },
            None => {},
        }
        i = i + 1;
    }
    assert(frames@.subrange(0, i as int) =~= frames@);
    (ok_count, gap_count)
}

// ---- Laws ----

/// Frames that follow on each other have no gap.
pub proof fn lemma_unbroken_run_has_no_gap(frames: Seq<Frame>)
    requires
        forall|i: int|
            #![trigger frames[i]]
            1 <= i < frames.len() ==> frames[i].header.seq == follows(frames[i - 1].header.seq),
    ensures
        gaps(frames) == 0,
    decreases frames.len(),
{
    if frames.len() >= 2 {
        let before = frames.drop_last();
        assert forall|i: int|
            #![trigger before[i]]
            1 <= i < before.len() implies before[i].header.seq == follows(before[i - 1].header.seq) by {
            assert(before[i] == frames[i]);
            assert(before[i - 1] == frames[i - 1]);
        }
        lemma_unbroken_run_has_no_gap(before);
        assert(frames[frames.len() - 1] == frames.last());
    }
}

/// Numbers follow on each other one by one; zero follows on the largest.
pub proof fn lemma_numbers_follow_one_by_one(seq: u32)
    ensures
        seq < 0xFFFF_FFFF ==> follows(seq) == seq + 1,
        seq == 0xFFFF_FFFF ==> follows(seq) == 0,
{
}

/// A frame adds a gap exactly if its number is not one more than the number before it,
/// and a first frame adds none.
pub proof fn lemma_gap_is_a_skipped_number(frames: Seq<Frame>, frame: Frame)
    ensures
        frames.len() == 0 ==> gaps(frames.push(frame)) == 0,
        frames.len() > 0 && frames.last().header.seq < 0xFFFF_FFFF ==> gaps(frames.push(frame)) == gaps(frames) + (
        if frame.header.seq == frames.last().header.seq + 1 {
            0int
        } else {
            1
        }),
        frames.len() > 0 && frames.last().header.seq == 0xFFFF_FFFF ==> gaps(frames.push(frame)) == gaps(frames) + (
        if frame.header.seq == 0 {
            0int
        } else {
            1
        }),
{
    assert(frames.push(frame).drop_last() =~= frames);
}

/// Only frames count, each once and in order: a packet that is a frame adds it at the end,
/// and one that is none adds nothing.
pub proof fn lemma_only_frames_count(packets: Seq<Option<Frame>>, packet: Option<Frame>)
    ensures
        decoded(Seq::<Option<Frame>>::empty()).len() == 0,
        packet is Some ==> decoded(packets.push(packet)) == decoded(packets).push(packet->0),
        packet is None ==> decoded(packets.push(packet)) == decoded(packets),
{
    assert(packets.push(packet).drop_last() =~= packets);
}

/// A state names a button exactly while one of the four is held.
pub proof fn lemma_names_need_a_held_button(state: GamepadState)
    ensures
        held_names(state, 4).len() == 0 <==> state.buttons & 1u16 == 0 && state.buttons & 2u16 == 0 && state.buttons
            & 4u16 == 0 && state.buttons & 8u16 == 0,
{
    crate::protocol::frame::lemma_each_button_has_its_bit(state);
    reveal_with_fuel(held_names, 5);
    reveal_strlit("Btn1");
    reveal_strlit("Btn2");
    reveal_strlit("Btn3");
    reveal_strlit("Btn4");
    reveal_strlit("+");
}

/// A gap report uses the singular for exactly one missing frame.
pub proof fn lemma_gap_report_counts(expected: u32, got: u32, missing: u32)
    ensures
        gap_report(expected, got, missing) == "  ⚠️  seq gap detected: expected="@ + text::decimal(expected as nat)
            + ", got="@ + text::decimal(got as nat) + " (missing "@ + text::decimal(missing as nat) + (if missing == 1 {
            " frame)"@
        } else {
            " frames)"@
        }),
{
    reveal_strlit(" frame");
    reveal_strlit(")");
    reveal_strlit("s");
    reveal_strlit("");
    reveal_strlit(" frame)");
    reveal_strlit(" frames)");
    let head = "  ⚠️  seq gap detected: expected="@ + text::decimal(expected as nat) + ", got="@ + text::decimal(got as nat)
        + " (missing "@ + text::decimal(missing as nat);
    assert(head + " frame"@ + ""@ + ")"@ =~= head + " frame)"@);
    assert(head + " frame"@ + "s"@ + ")"@ =~= head + " frames)"@);
}

/// The four buttons are named after themselves.
pub proof fn lemma_buttons_are_named_after_themselves()
    ensures
        named_button(0) == (ButtonBits::Btn1, "Btn1"@),
        named_button(1) == (ButtonBits::Btn2, "Btn2"@),
        named_button(2) == (ButtonBits::Btn3, "Btn3"@),
        named_button(3) == (ButtonBits::Btn4, "Btn4"@),
{
}

} // verus!
