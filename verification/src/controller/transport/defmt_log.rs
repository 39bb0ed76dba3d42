//! Frames as log lines, for debugging.

use super::Transport;
use crate::protocol::Frame;
use crate::text;
use core::convert::Infallible;
use vstd::prelude::*;

verus! {

/// Turns some of the frames into log lines: the first one, every one in which a
/// button changed, and one in `print_every`.
pub struct DefmtLogTransport {
    pub print_every: u32,
    pub counter: u32,
    pub last_buttons: u16,
    pub first: bool,
    /// The line of the newest frame, if it has one.
    pub line: Option<String>,
}

/// Why a frame is logged, if it is.
pub open spec fn log_tag(t: DefmtLogTransport, frame: Frame) -> Option<Seq<char>> {
    if t.first {
        Some("start"@)
    } else if frame.payload.buttons != t.last_buttons {
        Some("edge"@)
    } else if t.counter as int % t.print_every as int == 0 {
        Some("tick"@)
    } else {
        None
    }
}

/// The line of a frame.
pub open spec fn log_line(tag: Seq<char>, frame: Frame) -> Seq<char> {
    let s = frame.payload;
    "[TX "@ + tag + "] seq="@ + text::decimal(frame.header.seq as nat) + " btns=0x"@ + text::lower_hex(
        s.buttons as nat,
        4,
    ) + " joy=("@ + text::integer(s.joy_x as int) + ","@ + text::integer(s.joy_y as int) + ") knob=("@
        + text::decimal(s.knob_1 as nat) + ","@ + text::decimal(s.knob_2 as nat) + ")"@
}

/// The log after a frame.
pub open spec fn logged(before: DefmtLogTransport, frame: Frame, after: DefmtLogTransport) -> bool {
    &&& after.print_every == before.print_every
    &&& after.counter == (if before.counter == u32::MAX {
        0
    } else {
        before.counter + 1
    })
    &&& after.last_buttons == frame.payload.buttons
    &&& !after.first
    &&& match log_tag(before, frame) {
        Some(tag) => after.line is Some && after.line->0@ == log_line(tag, frame),
        None => after.line is None,
    }
}

impl DefmtLogTransport {
    /// One frame in how many is logged is at least one.
    pub open spec fn wf(self) -> bool {
        self.print_every >= 1
    }

    /// A log of one frame in `print_every`, of every frame if that is zero.
    pub fn new(print_every: u32) -> (t: DefmtLogTransport)
        ensures
            t.wf(),
            t == (DefmtLogTransport {
                print_every: if print_every == 0 {
                    1
                } else {
                    print_every
                },
                counter: 0,
                last_buttons: 0,
                first: true,
                line: None,
            }),
    {
        DefmtLogTransport {
            print_every: if print_every == 0 {
                1
            } else {
                print_every
            },
            counter: 0,
            last_buttons: 0,
            first: true,
            line: None,
        }
    }

    /// The line of a frame.
    pub fn print_frame(tag: &str, frame: &Frame) -> (line: String)
        ensures
            line@ == log_line(tag@, *frame),
    {
        let mut line = String::new();
        line.append("[TX ");
        line.append(tag);
        line.append("] seq=");
        text::push_decimal(&mut line, frame.header.seq as u64);
        line.append(" btns=0x");
        text::push_lower_hex(&mut line, frame.payload.buttons as u32, 4);
        line.append(" joy=(");
        text::push_integer(&mut line, frame.payload.joy_x as i32);
        line.append(",");
        text::push_integer(&mut line, frame.payload.joy_y as i32);
        line.append(") knob=(");
        text::push_decimal(&mut line, frame.payload.knob_1 as u64);
        line.append(",");
        text::push_decimal(&mut line, frame.payload.knob_2 as u64);
        line.append(")");
        assert(line@ =~= log_line(tag@, *frame));
        line
    }
}

impl Default for DefmtLogTransport {
    fn default() -> (t: DefmtLogTransport)
        ensures
            t == (DefmtLogTransport {
                print_every: 15,
                counter: 0,
                last_buttons: 0,
                first: true,
                line: None,
            }),
    {
        DefmtLogTransport::new(15)
    }
}

impl Transport for DefmtLogTransport {
    type Error = Infallible;

    open spec fn sends(
        before: DefmtLogTransport,
        frame: Frame,
        after: DefmtLogTransport,
        result: Result<(), Infallible>,
    ) -> bool {
        before.wf() ==> result is Ok && logged(before, frame, after)
    }

    fn send(&mut self, frame: &Frame) -> (result: Result<(), Infallible>) {
        let every: u32 = if self.print_every == 0 {
            1
        } else {
            self.print_every
        };
        let buttons_changed = frame.payload.buttons != self.last_buttons;
        self.line = if self.first {
            Some(DefmtLogTransport::print_frame("start", frame))
        } else if buttons_changed {
            Some(DefmtLogTransport::print_frame("edge", frame))
        } else if self.counter % every == 0 {
            Some(DefmtLogTransport::print_frame("tick", frame))
        } else {
            None
        };
        self.first = false;
        self.last_buttons = frame.payload.buttons;
        self.counter = self.counter.wrapping_add(1);
        Ok(())
    }
}

// ---- Laws ----

/// No button press goes unlogged.
pub proof fn lemma_button_changes_are_logged(t: DefmtLogTransport, frame: Frame)
    requires
        frame.payload.buttons != t.last_buttons,
    ensures
        log_tag(t, frame) is Some,
{
}

/// A frame is logged exactly if it is the first, if a button changed since the one before,
/// or if the number of frames before it is a multiple of the pace.
pub proof fn lemma_logged_frames(t: DefmtLogTransport, frame: Frame)
    requires
        t.print_every >= 1,
    ensures
        log_tag(t, frame) is Some <==> t.first || frame.payload.buttons != t.last_buttons || t.counter % t.print_every
            == 0,
        t.first ==> log_tag(t, frame) == Some("start"@),
        !t.first && frame.payload.buttons != t.last_buttons ==> log_tag(t, frame) == Some("edge"@),
        !t.first && frame.payload.buttons == t.last_buttons && t.counter % t.print_every == 0 ==> log_tag(t, frame)
            == Some("tick"@),
{
}

/// The log remembers of a frame what it needs for the next one: its buttons, and that one
/// more was seen.
pub proof fn lemma_log_remembers_the_buttons(before: DefmtLogTransport, frame: Frame, after: DefmtLogTransport)
    requires
        logged(before, frame, after),
    ensures
        after.last_buttons == frame.payload.buttons,
        !after.first,
        before.counter < 0xFFFF_FFFF ==> after.counter == before.counter + 1,
        before.counter == 0xFFFF_FFFF ==> after.counter == 0,
        after.print_every == before.print_every,
        after.line is Some <==> log_tag(before, frame) is Some,
{
}

/// A line names why it was logged, the frame's number, its buttons in hexadecimal, and then
/// the stick and the knobs, each as an ordered pair.
pub proof fn lemma_line_tells_the_frame(tag: Seq<char>, frame: Frame)
    ensures
        ({
            let joy = "("@ + text::integer(frame.payload.joy_x as int) + ","@ + text::integer(frame.payload.joy_y as int)
                + ")"@;
            let knob = "("@ + text::decimal(frame.payload.knob_1 as nat) + ","@ + text::decimal(
                frame.payload.knob_2 as nat,
            ) + ")"@;
            log_line(tag, frame) == "[TX "@ + tag + "] seq="@ + text::decimal(frame.header.seq as nat) + " btns=0x"@
                + text::lower_hex(frame.payload.buttons as nat, 4) + " joy="@ + joy + " knob="@ + knob
        }),
{
    reveal_strlit("(");
    reveal_strlit(")");
    reveal_strlit(" joy=(");
    reveal_strlit(" joy=");
    reveal_strlit(") knob=(");
    reveal_strlit(" knob=");
    let joy = "("@ + text::integer(frame.payload.joy_x as int) + ","@ + text::integer(frame.payload.joy_y as int) + ")"@;
    let knob = "("@ + text::decimal(frame.payload.knob_1 as nat) + ","@ + text::decimal(frame.payload.knob_2 as nat) + ")"@;
    assert(log_line(tag, frame) =~= "[TX "@ + tag + "] seq="@ + text::decimal(frame.header.seq as nat) + " btns=0x"@
        + text::lower_hex(frame.payload.buttons as nat, 4) + " joy="@ + joy + " knob="@ + knob);
}

} // verus!
