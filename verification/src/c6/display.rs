//! What the 240x240 screen shows.
//!
//! A screen is a list of drawing steps. Only what changed since the last screen is
//! drawn again: every text is drawn with its background and every column has a
//! fixed width, so a new value covers the old one without clearing the screen.

use super::peer::INITIAL_RECEIVER_ID;
use super::self_test::{item_at, SelfTestItem, SelfTestReport, SelfTestStatus, ITEM_COUNT};
use crate::protocol::{ButtonBits, GamepadState};
use crate::text;
use vstd::prelude::*;

verus! {

/// Width of the screen.
pub const SCREEN_W: u16 = 240;

/// Height of the screen.
pub const SCREEN_H: u16 = 240;

/// Full scale of stick and knobs.
pub const AXIS_RANGE: u16 = 1000;

/// Knob movements below this are taken for noise.
pub const KNOB_DISPLAY_HYSTERESIS: u16 = 8;

/// Side of the square that shows the stick.
pub const JOY_REGION: i32 = 80;

/// Half the side of the stick's dot.
pub const JOY_DOT: i32 = 3;

/// How far the dot moves from the centre: the dot never touches the border.
pub const JOY_SPAN: i32 = 35;

/// Width of a button.
pub const BTN_W: u32 = 34;

/// Height of a button.
pub const BTN_H: u32 = 32;

/// Space between buttons.
pub const BTN_GAP: i32 = 4;

/// The colours of the screen.
#[derive(Debug, Clone, Copy, PartialEq, Eq, Structural)]
pub enum Paint {
    Background,
    Foreground,
    Accent,
    Warn,
    Good,
    Off,
}

/// One drawing step. `T` is the type of texts.
#[derive(Debug, PartialEq, Eq)]
pub enum DrawOp<T> {
    /// A filled rectangle.
    Fill { x: i32, y: i32, w: u32, h: u32, paint: Paint },
    /// A filled rectangle with a border.
    Block { x: i32, y: i32, w: u32, h: u32, fill: Paint, stroke: Paint, stroke_width: u32 },
    /// A text with its background, from its top left corner.
    Text { x: i32, y: i32, text: T, paint: Paint, background: Paint, bold: bool },
}

/// A drawing step with its text as a sequence of characters.
pub open spec fn shown(op: DrawOp<String>) -> DrawOp<Seq<char>> {
    match op {
        DrawOp::Fill { x, y, w, h, paint } => DrawOp::Fill { x, y, w, h, paint },
        DrawOp::Block { x, y, w, h, fill, stroke, stroke_width } => DrawOp::Block {
            x,
            y,
            w,
            h,
            fill,
            stroke,
            stroke_width,
        },
        DrawOp::Text { x, y, text, paint, background, bold } => DrawOp::Text {
            x,
            y,
            text: text@,
            paint,
            background,
            bold,
        },
    }
}

/// Drawing steps with their texts as sequences of characters.
pub open spec fn shown_all(ops: Seq<DrawOp<String>>) -> Seq<DrawOp<Seq<char>>> {
    Seq::new(ops.len(), |i: int| shown(ops[i]))
}

/// Everything that the screen shows.
#[derive(Debug, Clone, Copy, PartialEq, Eq, Structural)]
pub struct ViewModel {
    /// A frame was received.
    pub have_data: bool,
    /// Number of the newest frame.
    pub last_seq: u32,
    /// How often a number did not follow on the one before.
    pub gap_count: u32,
    /// Frames received.
    pub ok_count: u32,
    /// Frames received that were for others.
    pub filtered_count: u32,
    /// The id of this endpoint.
    pub receiver_id: u8,
    /// The coordinator assigned the id.
    pub assigned: bool,
    /// Announcements answered.
    pub reply_count: u32,
    /// What the newest frame reported.
    pub state: GamepadState,
}

impl ViewModel {
    /// Nothing received yet.
    pub open spec fn spec_empty() -> ViewModel {
        ViewModel {
            have_data: false,
            last_seq: 0,
            gap_count: 0,
            ok_count: 0,
            filtered_count: 0,
            receiver_id: INITIAL_RECEIVER_ID,
            assigned: false,
            reply_count: 0,
            state: GamepadState::spec_empty(),
        }
    }

    /// Nothing received yet.
    pub fn empty() -> (vm: ViewModel)
        ensures
            vm == ViewModel::spec_empty(),
    {
        ViewModel {
            have_data: false,
            last_seq: 0,
            gap_count: 0,
            ok_count: 0,
            filtered_count: 0,
            receiver_id: INITIAL_RECEIVER_ID,
            assigned: false,
            reply_count: 0,
            state: GamepadState::empty(),
        }
    }
}

/// Division that drops the fraction, for a positive divisor.
pub open spec fn toward_zero(a: int, b: int) -> int {
    if a >= 0 {
        a / b
    } else {
        -((-a) / b)
    }
}

/// A value held within limits.
pub open spec fn held(v: int, low: int, high: int) -> int {
    if v < low {
        low
    } else if v > high {
        high
    } else {
        v
    }
}

/// How far a knob must be turned to be shown anew; the two ends are always shown.
pub open spec fn steadied(prev: u16, new: u16) -> u16 {
    if new == 0 || new >= AXIS_RANGE {
        new
    } else if -KNOB_DISPLAY_HYSTERESIS < new - prev < KNOB_DISPLAY_HYSTERESIS {
        prev
    } else {
        new
    }
}

/// The knob value to show after `prev` was shown and `new` was measured.
#[must_use]
pub fn stabilize_knob(prev: u16, new: u16) -> (shown: u16)
    ensures
        shown == steadied(prev, new),
{
    if new == 0 || new >= AXIS_RANGE {
        return new;
    }
    let moved: u16 = if new >= prev {
        new - prev
    } else {
        prev - new
    };
    if moved < KNOB_DISPLAY_HYSTERESIS {
        prev
    } else {
        new
    }
}

/// How far the dot is from the centre along one axis.
pub open spec fn dot_offset(axis: i16) -> int {
    held(toward_zero(axis * JOY_SPAN, AXIS_RANGE as int), -JOY_SPAN, JOY_SPAN as int)
}

fn dot_shift(axis: i16) -> (d: i32)
    ensures
        d == dot_offset(axis),
        -JOY_SPAN <= d <= JOY_SPAN,
{
    let v: i32 = axis as i32;
    let size: u32 = if v < 0 {
        (-v) as u32
    } else {
        v as u32
    };
    let moved: u32 = size * 35 / 1000;
    let capped: i32 = if moved > 35 {
        35
    } else {
        moved as i32
    };
    if v < 0 {
        -capped
    } else {
        capped
    }
}

/// The centre of the dot in the square at (`x`, `y`): right and up are positive.
pub open spec fn dot_center(x: int, y: int, joy_x: i16, joy_y: i16) -> (int, int) {
    (x + JOY_REGION / 2 + dot_offset(joy_x), y + JOY_REGION / 2 - dot_offset(joy_y))
}

/// The centre of the dot in the square at (`x`, `y`).
pub fn joy_dot_center(x: i32, y: i32, joy_x: i16, joy_y: i16) -> (c: (i32, i32))
    requires
        x + JOY_REGION <= i32::MAX,
        y + JOY_REGION <= i32::MAX,
    ensures
        (c.0 as int, c.1 as int) == dot_center(x as int, y as int, joy_x, joy_y),
        x + JOY_DOT < c.0 < x + JOY_REGION - JOY_DOT,
        y + JOY_DOT < c.1 < y + JOY_REGION - JOY_DOT,
{
    let dx: i32 = dot_shift(joy_x);
    let dy: i32 = dot_shift(joy_y);
    (x + 40 + dx, y + 40 - dy)
}

// ---- Drawing steps of the parts ----

fn draw(ops: &mut Vec<DrawOp<String>>, op: DrawOp<String>)
    ensures
        shown_all(final(ops)@) == shown_all(old(ops)@).push(shown(op)),
{
    ops.push(op);
    assert(shown_all(ops@) =~= shown_all(old(ops)@).push(shown(op)));
}

/// The whole screen in one colour.
pub open spec fn screen_cleared(paint: Paint) -> DrawOp<Seq<char>> {
    DrawOp::Fill { x: 0, y: 0, w: SCREEN_W as u32, h: SCREEN_H as u32, paint }
}

fn fill_screen(ops: &mut Vec<DrawOp<String>>, paint: Paint)
    ensures
        shown_all(final(ops)@) == shown_all(old(ops)@).push(screen_cleared(paint)),
{
    draw(ops, DrawOp::Fill { x: 0, y: 0, w: 240, h: 240, paint });
}

/// A text on the screen's background.
pub open spec fn written(x: i32, y: i32, text: Seq<char>, paint: Paint, bold: bool) -> DrawOp<Seq<char>> {
    DrawOp::Text { x, y, text, paint, background: Paint::Background, bold }
}

fn draw_text(ops: &mut Vec<DrawOp<String>>, s: &str, x: i32, y: i32, paint: Paint, bold: bool)
    ensures
        shown_all(final(ops)@) == shown_all(old(ops)@).push(written(x, y, s@, paint, bold)),
{
    let text = s.to_string();
    draw(ops, DrawOp::Text { x, y, text, paint, background: Paint::Background, bold });
}

/// A button: its block and its label, centred in an 8x13 font.
pub open spec fn button_ops(label: Seq<char>, x: int, y: int, width: int, pressed: bool) -> Seq<DrawOp<Seq<char>>> {
    let fill = if pressed {
        Paint::Good
    } else {
        Paint::Background
    };
    seq![
        DrawOp::Block {
            x: x as i32,
            y: y as i32,
            w: width as u32,
            h: BTN_H,
            fill,
            stroke: if pressed {
                Paint::Accent
            } else {
                Paint::Off
            },
            stroke_width: 2,
        },
        DrawOp::Text {
            x: (x + (width - label.len() * 8) / 2) as i32,
            y: (y + (BTN_H - 13) / 2) as i32,
            text: label,
            paint: if pressed {
                Paint::Background
            } else {
                Paint::Off
            },
            background: fill,
            bold: true,
        },
    ]
}

fn draw_button(ops: &mut Vec<DrawOp<String>>, label: &str, x: i32, y: i32, width: u32, pressed: bool)
    requires
        0 <= x <= SCREEN_W,
        0 <= y <= SCREEN_H,
        label@.len() * 8 <= width <= SCREEN_W,
    ensures
        shown_all(final(ops)@) == shown_all(old(ops)@) + button_ops(
            label@,
            x as int,
            y as int,
            width as int,
            pressed,
        ),
{
    let (fill, paint, stroke) = if pressed {
        (Paint::Good, Paint::Background, Paint::Accent)
    } else {
        (Paint::Background, Paint::Off, Paint::Off)
    };
    draw(ops, DrawOp::Block { x, y, w: width, h: BTN_H, fill, stroke, stroke_width: 2 });
    let len: u32 = label.unicode_len() as u32;
    let text_x: i32 = x + ((width - len * 8) / 2) as i32;
    let text_y: i32 = y + 9;
    let text = label.to_string();
    draw(ops, DrawOp::Text { x: text_x, y: text_y, text, paint, background: fill, bold: true });
    assert(shown_all(ops@) =~= shown_all(old(ops)@) + button_ops(
        label@,
        x as int,
        y as int,
        width as int,
        pressed,
    ));
}

/// How much of a bar is filled: in proportion to the value, never past the frame.
pub open spec fn bar_fill(val: u16, width: int) -> int {
    held(val * (width - 2) / AXIS_RANGE as int, 0, width - 2)
}

/// A bar: its frame and, unless it is empty, its filled part.
pub open spec fn bar_ops(x: int, y: int, width: int, height: int, val: u16) -> Seq<DrawOp<Seq<char>>> {
    let frame: Seq<DrawOp<Seq<char>>> = seq![
        DrawOp::Block {
            x: x as i32,
            y: y as i32,
            w: width as u32,
            h: height as u32,
            fill: Paint::Background,
            stroke: Paint::Off,
            stroke_width: 1,
        },
    ];
    if bar_fill(val, width) > 0 {
        frame.push(
            DrawOp::Fill {
                x: (x + 1) as i32,
                y: (y + 1) as i32,
                w: bar_fill(val, width) as u32,
                h: (height - 2) as u32,
                paint: Paint::Accent,
            },
        )
    } else {
        frame
    }
}

fn draw_bar(ops: &mut Vec<DrawOp<String>>, x: i32, y: i32, width: u32, height: u32, val: u16)
    requires
        0 <= x <= SCREEN_W,
        0 <= y <= SCREEN_H,
        2 <= width <= SCREEN_W,
        2 <= height <= SCREEN_H,
    ensures
        shown_all(final(ops)@) == shown_all(old(ops)@) + bar_ops(
            x as int,
            y as int,
            width as int,
            height as int,
            val,
        ),
{
    draw(
        ops,
        DrawOp::Block {
            x,
            y,
            w: width,
            h: height,
            fill: Paint::Background,
            stroke: Paint::Off,
            stroke_width: 1,
        },
    );
    let inner: u32 = width - 2;
    assert(val * inner <= 65535 * 238) by (nonlinear_arith)
        requires
            val <= 65535,
            inner <= 238,
    ;
    let scaled: u32 = (val as u32) * inner / 1000;
    let filled: u32 = if scaled > inner {
        inner
    } else {
        scaled
    };
    assert(filled == bar_fill(val, width as int));
    if filled > 0 {
        draw(
            ops,
            DrawOp::Fill { x: x + 1, y: y + 1, w: filled, h: height - 2, paint: Paint::Accent },
        );
    }
    assert(shown_all(ops@) =~= shown_all(old(ops)@) + bar_ops(
        x as int,
        y as int,
        width as int,
        height as int,
        val,
    ));
}

/// The cross behind the dot.
pub open spec fn crosshair_ops(x: int, y: int) -> Seq<DrawOp<Seq<char>>> {
    seq![
        DrawOp::Fill {
            x: x as i32,
            y: (y + JOY_REGION / 2) as i32,
            w: JOY_REGION as u32,
            h: 1,
            paint: Paint::Off,
        },
        DrawOp::Fill {
            x: (x + JOY_REGION / 2) as i32,
            y: y as i32,
            w: 1,
            h: JOY_REGION as u32,
            paint: Paint::Off,
        },
    ]
}

fn draw_joy_crosshair(ops: &mut Vec<DrawOp<String>>, x: i32, y: i32)
    requires
        0 <= x <= SCREEN_W,
        0 <= y <= SCREEN_H,
    ensures
        shown_all(final(ops)@) == shown_all(old(ops)@) + crosshair_ops(x as int, y as int),
{
    draw(ops, DrawOp::Fill { x, y: y + 40, w: 80, h: 1, paint: Paint::Off });
    draw(ops, DrawOp::Fill { x: x + 40, y, w: 1, h: 80, paint: Paint::Off });
    assert(shown_all(ops@) =~= shown_all(old(ops)@) + crosshair_ops(x as int, y as int));
}

/// The dot around its centre.
pub open spec fn dot_op(center: (int, int), paint: Paint) -> DrawOp<Seq<char>> {
    DrawOp::Fill {
        x: (center.0 - JOY_DOT) as i32,
        y: (center.1 - JOY_DOT) as i32,
        w: (JOY_DOT * 2) as u32,
        h: (JOY_DOT * 2) as u32,
        paint,
    }
}

fn draw_joy_dot(ops: &mut Vec<DrawOp<String>>, center: (i32, i32), paint: Paint)
    requires
        -1000 <= center.0 <= 1000,
        -1000 <= center.1 <= 1000,
    ensures
        shown_all(final(ops)@) == shown_all(old(ops)@).push(
            dot_op((center.0 as int, center.1 as int), paint),
        ),
{
    draw(ops, DrawOp::Fill { x: center.0 - 3, y: center.1 - 3, w: 6, h: 6, paint });
}

/// The stick's square. Without a stick shown before, everything is drawn;
/// otherwise only a dot that moved: the old one is wiped, the cross mended, the
/// new one drawn.
pub open spec fn joystick_ops(x: int, y: int, joy_x: i16, joy_y: i16, prev: Option<(i16, i16)>) -> Seq<
    DrawOp<Seq<char>>,
> {
    let new = dot_center(x, y, joy_x, joy_y);
    match prev {
        None => (seq![
            DrawOp::Block {
                x: x as i32,
                y: y as i32,
                w: JOY_REGION as u32,
                h: JOY_REGION as u32,
                fill: Paint::Background,
                stroke: Paint::Off,
                stroke_width: 1,
            },
        ] + crosshair_ops(x, y)).push(dot_op(new, Paint::Accent)),
        Some((old_x, old_y)) => {
            let old = dot_center(x, y, old_x, old_y);
            if old != new {
                (seq![dot_op(old, Paint::Background)] + crosshair_ops(x, y)).push(
                    dot_op(new, Paint::Accent),
                )
            } else {
                Seq::empty()
            }
        },
    }
}

fn draw_joystick(
    ops: &mut Vec<DrawOp<String>>,
    x: i32,
    y: i32,
    joy_x: i16,
    joy_y: i16,
    prev_joy: Option<(i16, i16)>,
)
    requires
        0 <= x <= SCREEN_W,
        0 <= y <= SCREEN_H,
    ensures
        shown_all(final(ops)@) == shown_all(old(ops)@) + joystick_ops(
            x as int,
            y as int,
            joy_x,
            joy_y,
            prev_joy,
        ),
{
    let new_center = joy_dot_center(x, y, joy_x, joy_y);
    match prev_joy {
        None => {
            draw(
                ops,
                DrawOp::Block {
                    x,
                    y,
                    w: 80,
                    h: 80,
                    fill: Paint::Background,
                    stroke: Paint::Off,
                    stroke_width: 1,
                },
            );
            draw_joy_crosshair(ops, x, y);
            draw_joy_dot(ops, new_center, Paint::Accent);
        },
        Some((old_x, old_y)) => {
            let old_center = joy_dot_center(x, y, old_x, old_y);
            if old_center.0 != new_center.0 || old_center.1 != new_center.1 {
                draw_joy_dot(ops, old_center, Paint::Background);
                draw_joy_crosshair(ops, x, y);
                draw_joy_dot(ops, new_center, Paint::Accent);
            }
        },
    }
    assert(shown_all(ops@) =~= shown_all(old(ops)@) + joystick_ops(
        x as int,
        y as int,
        joy_x,
        joy_y,
        prev_joy,
    ));
}

// ---- The main screen ----

/// A field has to be drawn: nothing was drawn before, or it has another value now.
pub open spec fn dirty<T>(prev: Option<&ViewModel>, field: spec_fn(ViewModel) -> T, vm: ViewModel) -> bool {
    match prev {
        None => true,
        Some(p) => field(*p) != field(vm),
    }
}

/// The state word.
pub open spec fn title_ops(vm: ViewModel, prev: Option<&ViewModel>) -> Seq<DrawOp<Seq<char>>> {
    if dirty(prev, |v: ViewModel| v.have_data, vm) {
        if vm.have_data {
            seq![written(4, 4, "RECV"@, Paint::Good, true)]
        } else {
            seq![written(4, 4, "WAIT"@, Paint::Warn, true)]
        }
    } else {
        Seq::empty()
    }
}

fn draw_title(ops: &mut Vec<DrawOp<String>>, vm: &ViewModel, prev: Option<&ViewModel>)
    ensures
        shown_all(final(ops)@) == shown_all(old(ops)@) + title_ops(*vm, prev),
{
    let changed = match prev {
        None => true,
        Some(p) => p.have_data != vm.have_data,
    };
    if changed {
        if vm.have_data {
            draw_text(ops, "RECV", 4, 4, Paint::Good, true);
        } else {
            draw_text(ops, "WAIT", 4, 4, Paint::Warn, true);
        }
    }
    assert(shown_all(ops@) =~= shown_all(old(ops)@) + title_ops(*vm, prev));
}

/// A name, an equals sign and a number at the left of a column.
pub open spec fn labelled(label: Seq<char>, n: nat, width: nat) -> Seq<char> {
    label + text::left_aligned(text::decimal(n), width)
}

fn labelled_text(label: &str, n: u32, width: usize) -> (s: String)
    ensures
        s@ == labelled(label@, n as nat, width as nat),
{
    let mut s = String::new();
    s.append(label);
    let digits = text::decimal_text(n as u64);
    let column = text::align_left(digits.as_str(), width);
    s.append(column.as_str());
    assert(s@ =~= labelled(label@, n as nat, width as nat));
    s
}

/// The counters of the top line.
pub open spec fn counter_ops(vm: ViewModel, prev: Option<&ViewModel>) -> Seq<DrawOp<Seq<char>>> {
    (if dirty(prev, |v: ViewModel| v.last_seq, vm) {
        seq![written(50, 6, labelled("seq="@, vm.last_seq as nat, 10), Paint::Foreground, false)]
    } else {
        Seq::empty()
    }) + (if dirty(prev, |v: ViewModel| v.gap_count, vm) {
        seq![
            written(
                140,
                6,
                labelled("gap="@, vm.gap_count as nat, 4),
                if vm.gap_count > 0 {
                    Paint::Warn
                } else {
                    Paint::Off
                },
                false,
            ),
        ]
    } else {
        Seq::empty()
    }) + (if dirty(prev, |v: ViewModel| v.ok_count, vm) {
        seq![written(190, 6, labelled("ok="@, vm.ok_count as nat, 5), Paint::Off, false)]
    } else {
        Seq::empty()
    })
}

fn draw_counters(ops: &mut Vec<DrawOp<String>>, vm: &ViewModel, prev: Option<&ViewModel>)
    ensures
        shown_all(final(ops)@) == shown_all(old(ops)@) + counter_ops(*vm, prev),
{
    let seq_changed = match prev {
        None => true,
        Some(p) => p.last_seq != vm.last_seq,
    };
    if seq_changed {
        let s = labelled_text("seq=", vm.last_seq, 10);
        draw_text(ops, s.as_str(), 50, 6, Paint::Foreground, false);
    }
    let gap_changed = match prev {
        None => true,
        Some(p) => p.gap_count != vm.gap_count,
    };
    if gap_changed {
        let s = labelled_text("gap=", vm.gap_count, 4);
        let paint = if vm.gap_count > 0 {
            Paint::Warn
        } else {
            Paint::Off
        };
        draw_text(ops, s.as_str(), 140, 6, paint, false);
    }
    let ok_changed = match prev {
        None => true,
        Some(p) => p.ok_count != vm.ok_count,
    };
    if ok_changed {
        let s = labelled_text("ok=", vm.ok_count, 5);
        draw_text(ops, s.as_str(), 190, 6, Paint::Off, false);
    }
    assert(shown_all(ops@) =~= shown_all(old(ops)@) + counter_ops(*vm, prev));
}

/// The buttons that are shown, from the left.
pub open spec fn shown_button(i: int) -> ButtonBits {
    if i == 0 {
        ButtonBits::Btn1
    } else if i == 1 {
        ButtonBits::Btn2
    } else if i == 2 {
        ButtonBits::Btn3
    } else {
        ButtonBits::Btn4
    }
}

/// The label of a button.
pub open spec fn button_label(i: int) -> Seq<char> {
    if i == 0 {
        "B1"@
    } else if i == 1 {
        "B2"@
    } else if i == 2 {
        "B3"@
    } else {
        "B4"@
    }
}

/// The first `n` buttons, each drawn only if it was pressed or released.
pub open spec fn buttons_ops(vm: ViewModel, prev: Option<&ViewModel>, n: nat) -> Seq<DrawOp<Seq<char>>>
    decreases n,
{
    if n == 0 {
        Seq::empty()
    } else {
        let i = n - 1;
        buttons_ops(vm, prev, (n - 1) as nat) + (if dirty(
            prev,
            |v: ViewModel| v.state.pressed(shown_button(i)),
            vm,
        ) {
            button_ops(
                button_label(i),
                8 + i * (BTN_W + BTN_GAP),
                28,
                BTN_W as int,
                vm.state.pressed(shown_button(i)),
            )
        } else {
            Seq::empty()
        })
    }
}

fn shown_button_at(i: usize) -> (b: (ButtonBits, &'static str))
    requires
        i < 4,
    ensures
        b.0 == shown_button(i as int),
        b.1@ == button_label(i as int),
        b.1@.len() == 2,
{
    proof {
        reveal_strlit("B1");
        reveal_strlit("B2");
        reveal_strlit("B3");
        reveal_strlit("B4");
    }
    if i == 0 {
        (ButtonBits::Btn1, "B1")
    } else if i == 1 {
        (ButtonBits::Btn2, "B2")
    } else if i == 2 {
        (ButtonBits::Btn3, "B3")
    } else {
        (ButtonBits::Btn4, "B4")
    }
}

fn draw_buttons(ops: &mut Vec<DrawOp<String>>, vm: &ViewModel, prev: Option<&ViewModel>)
    ensures
        shown_all(final(ops)@) == shown_all(old(ops)@) + buttons_ops(*vm, prev, 4),
{
    let ghost before = shown_all(ops@);
    let mut i: usize = 0;
    assert(before + buttons_ops(*vm, prev, 0) =~= before);
    while i < 4
        invariant
            i <= 4,
            shown_all(ops@) == before + buttons_ops(*vm, prev, i as nat),
        decreases 4 - i,
    {
        let (bit, label) = shown_button_at(i);
        let pressed = vm.state.is_pressed(bit);
        let changed = match prev {
            None => true,
            Some(p) => p.state.is_pressed(bit) != pressed,
        };
        let ghost so_far = shown_all(ops@);
        if changed {
            draw_button(ops, label, 8 + (i as i32) * 38, 28, BTN_W, pressed);
        }
        i = i + 1;
        assert(shown_all(ops@) =~= before + buttons_ops(*vm, prev, i as nat));
    }
}

/// The stick and its coordinates.
pub open spec fn stick_ops(vm: ViewModel, prev: Option<&ViewModel>) -> Seq<DrawOp<Seq<char>>> {
    if dirty(prev, |v: ViewModel| (v.state.joy_x, v.state.joy_y), vm) {
        joystick_ops(
            8,
            72,
            vm.state.joy_x,
            vm.state.joy_y,
            match prev {
                None => None,
                Some(p) => Some((p.state.joy_x, p.state.joy_y)),
            },
        ) + seq![
            written(
                96,
                80,
                "X:"@ + text::right_aligned(text::signed(vm.state.joy_x as int), 6),
                Paint::Foreground,
                false,
            ),
            written(
                96,
                96,
                "Y:"@ + text::right_aligned(text::signed(vm.state.joy_y as int), 6),
                Paint::Foreground,
                false,
            ),
        ]
    } else {
        Seq::empty()
    }
}

fn axis_text(label: &str, axis: i16) -> (s: String)
    ensures
        s@ == label@ + text::right_aligned(text::signed(axis as int), 6),
{
    let mut s = String::new();
    s.append(label);
    let number = text::signed_text(axis as i32);
    let column = text::align_right(number.as_str(), 6);
    s.append(column.as_str());
    assert(s@ =~= label@ + text::right_aligned(text::signed(axis as int), 6));
    s
}

fn draw_stick(ops: &mut Vec<DrawOp<String>>, vm: &ViewModel, prev: Option<&ViewModel>)
    ensures
        shown_all(final(ops)@) == shown_all(old(ops)@) + stick_ops(*vm, prev),
{
    let changed = match prev {
        None => true,
        Some(p) => p.state.joy_x != vm.state.joy_x || p.state.joy_y != vm.state.joy_y,
    };
    if changed {
        let prev_joy = match prev {
            None => None,
            Some(p) => Some((p.state.joy_x, p.state.joy_y)),
        };
        draw_joystick(ops, 8, 72, vm.state.joy_x, vm.state.joy_y, prev_joy);
        let sx = axis_text("X:", vm.state.joy_x);
        draw_text(ops, sx.as_str(), 96, 80, Paint::Foreground, false);
        let sy = axis_text("Y:", vm.state.joy_y);
        draw_text(ops, sy.as_str(), 96, 96, Paint::Foreground, false);
    }
    assert(shown_all(ops@) =~= shown_all(old(ops)@) + stick_ops(*vm, prev));
}

/// One knob: its name once, its bar and value when it was turned.
pub open spec fn knob_ops(label: Seq<char>, y: int, first: bool, changed: bool, val: u16) -> Seq<
    DrawOp<Seq<char>>,
> {
    (if first {
        seq![written(8, y as i32, label, Paint::Foreground, true)]
    } else {
        Seq::empty()
    }) + (if changed {
        bar_ops(32, y, 180, 12, val).push(
            written(
                32,
                (y + 16) as i32,
                text::left_aligned(text::decimal(val as nat), 5),
                Paint::Off,
                false,
            ),
        )
    } else {
        Seq::empty()
    })
}

fn draw_knob(ops: &mut Vec<DrawOp<String>>, label: &str, y: i32, first: bool, changed: bool, val: u16)
    requires
        0 <= y <= 200,
    ensures
        shown_all(final(ops)@) == shown_all(old(ops)@) + knob_ops(label@, y as int, first, changed, val),
{
    if first {
        draw_text(ops, label, 8, y, Paint::Foreground, true);
    }
    if changed {
        draw_bar(ops, 32, y, 180, 12, val);
        let digits = text::decimal_text(val as u64);
        let column = text::align_left(digits.as_str(), 5);
        draw_text(ops, column.as_str(), 32, y + 16, Paint::Off, false);
    }
    assert(shown_all(ops@) =~= shown_all(old(ops)@) + knob_ops(label@, y as int, first, changed, val));
}

/// The bottom line: the id (a dash without one), whether it was assigned, frames
/// for others and answered announcements.
pub open spec fn peer_line(vm: ViewModel) -> Seq<char> {
    "id="@ + text::right_aligned(
        if vm.assigned {
            text::decimal(vm.receiver_id as nat)
        } else {
            "-"@
        },
        2,
    ) + (if vm.assigned {
        "*"@
    } else {
        "."@
    }) + "  filt="@ + text::left_aligned(text::decimal(vm.filtered_count as nat), 6) + "  rep="@
        + text::left_aligned(text::decimal(vm.reply_count as nat), 6)
}

/// The bottom line, if anything on it changed.
pub open spec fn peer_ops(vm: ViewModel, prev: Option<&ViewModel>) -> Seq<DrawOp<Seq<char>>> {
    if dirty(prev, |v: ViewModel| (v.receiver_id, v.assigned, v.filtered_count, v.reply_count), vm) {
        seq![
            written(
                4,
                228,
                peer_line(vm),
                if vm.assigned {
                    Paint::Good
                } else {
                    Paint::Off
                },
                false,
            ),
        ]
    } else {
        Seq::empty()
    }
}

fn peer_text(vm: &ViewModel) -> (s: String)
    ensures
        s@ == peer_line(*vm),
{
    let mut s = String::new();
    s.append("id=");
    let id = if vm.assigned {
        text::decimal_text(vm.receiver_id as u64)
    } else {
        "-".to_string()
    };
    let column = text::align_right(id.as_str(), 2);
    s.append(column.as_str());
    if vm.assigned {
        s.append("*");
    } else {
        s.append(".");
    }
    s.append("  filt=");
    let filtered = text::decimal_text(vm.filtered_count as u64);
    let filtered = text::align_left(filtered.as_str(), 6);
    s.append(filtered.as_str());
    s.append("  rep=");
    let replies = text::decimal_text(vm.reply_count as u64);
    let replies = text::align_left(replies.as_str(), 6);
    s.append(replies.as_str());
    assert(s@ =~= peer_line(*vm));
    s
}

fn draw_peer_line(ops: &mut Vec<DrawOp<String>>, vm: &ViewModel, prev: Option<&ViewModel>)
    ensures
        shown_all(final(ops)@) == shown_all(old(ops)@) + peer_ops(*vm, prev),
{
    let changed = match prev {
        None => true,
        Some(p) => p.receiver_id != vm.receiver_id || p.assigned != vm.assigned || p.filtered_count
            != vm.filtered_count || p.reply_count != vm.reply_count,
    };
    if changed {
        let s = peer_text(vm);
        let paint = if vm.assigned {
            Paint::Good
        } else {
            Paint::Off
        };
        draw_text(ops, s.as_str(), 4, 228, paint, false);
    }
    assert(shown_all(ops@) =~= shown_all(old(ops)@) + peer_ops(*vm, prev));
}

/// The drawing steps from one screen to the next; without a screen before, the
/// whole screen is cleared and drawn.
pub open spec fn screen_plan(vm: ViewModel, prev: Option<&ViewModel>) -> Seq<DrawOp<Seq<char>>> {
    (if prev is None {
        seq![screen_cleared(Paint::Background)]
    } else {
        Seq::empty()
    }) + title_ops(vm, prev) + counter_ops(vm, prev) + buttons_ops(vm, prev, 4) + stick_ops(vm, prev)
        + knob_ops(
        "K1"@,
        164,
        prev is None,
        dirty(prev, |v: ViewModel| v.state.knob_1, vm),
        vm.state.knob_1,
    ) + knob_ops(
        "K2"@,
        200,
        prev is None,
        dirty(prev, |v: ViewModel| v.state.knob_2, vm),
        vm.state.knob_2,
    ) + peer_ops(vm, prev)
}

/// Draws what changed since the last screen.
pub fn render(vm: &ViewModel, prev: Option<&ViewModel>) -> (ops: Vec<DrawOp<String>>)
    ensures
        shown_all(ops@) == screen_plan(*vm, prev),
{
    let mut ops: Vec<DrawOp<String>> = Vec::new();
    let full = prev.is_none();
    if full {
        fill_screen(&mut ops, Paint::Background);
    }
    draw_title(&mut ops, vm, prev);
    draw_counters(&mut ops, vm, prev);
    draw_buttons(&mut ops, vm, prev);
    draw_stick(&mut ops, vm, prev);
    let knob_1_changed = match prev {
        None => true,
        Some(p) => p.state.knob_1 != vm.state.knob_1,
    };
    draw_knob(&mut ops, "K1", 164, full, knob_1_changed, vm.state.knob_1);
    let knob_2_changed = match prev {
        None => true,
        Some(p) => p.state.knob_2 != vm.state.knob_2,
    };
    draw_knob(&mut ops, "K2", 200, full, knob_2_changed, vm.state.knob_2);
    draw_peer_line(&mut ops, vm, prev);
    assert(shown_all(ops@) =~= screen_plan(*vm, prev));
    ops
}

// ---- The self test screen ----

/// The tag of a result.
pub open spec fn status_tag(status: SelfTestStatus) -> (Seq<char>, Paint) {
    match status {
        SelfTestStatus::Pending => ("[ .. ]"@, Paint::Off),
        SelfTestStatus::Passed => ("[ OK ]"@, Paint::Good),
        SelfTestStatus::Fail(_) => ("[FAIL]"@, Paint::Warn),
    }
}

/// One line of the self test screen: name, tag and, after a failure, the reason.
pub open spec fn self_test_row(report: SelfTestReport, i: int) -> Seq<DrawOp<Seq<char>>> {
    let item = SelfTestItem::at(i);
    let y = 40 + i * 22;
    let row = seq![
        written(8, y as i32, item.name(), Paint::Foreground, true),
        written(
            96,
            y as i32,
            status_tag(report.status(item)).0,
            status_tag(report.status(item)).1,
            true,
        ),
    ];
    match report.status(item) {
        SelfTestStatus::Fail(reason) => row.push(
            written(160, (y + 2) as i32, reason@, Paint::Warn, false),
        ),
        _ => row,
    }
}

/// The first `n` lines of the self test screen.
pub open spec fn self_test_rows(report: SelfTestReport, n: nat) -> Seq<DrawOp<Seq<char>>>
    decreases n,
{
    if n == 0 {
        Seq::empty()
    } else {
        self_test_rows(report, (n - 1) as nat) + self_test_row(report, n - 1)
    }
}

/// The summary of a self test.
pub open spec fn summary(report: SelfTestReport) -> (Seq<char>, Paint) {
    if report.has_fail() {
        ("FAILED - CHECK HW"@, Paint::Warn)
    } else if report.has_passed() {
        ("ALL OK"@, Paint::Good)
    } else {
        ("TESTING..."@, Paint::Accent)
    }
}

/// A line across the screen.
pub open spec fn separator(y: int) -> DrawOp<Seq<char>> {
    DrawOp::Fill { x: 4, y: y as i32, w: 232, h: 1, paint: Paint::Off }
}

/// The self test screen.
pub open spec fn self_test_plan(report: SelfTestReport) -> Seq<DrawOp<Seq<char>>> {
    seq![
        screen_cleared(Paint::Background),
        written(72, 8, "SELF-TEST"@, Paint::Accent, true),
        separator(26),
    ] + self_test_rows(report, ITEM_COUNT as nat) + seq![
        separator(202),
        written(8, 208, summary(report).0, summary(report).1, true),
    ]
}

fn draw_self_test_row(ops: &mut Vec<DrawOp<String>>, report: &SelfTestReport, i: usize)
    requires
        i < ITEM_COUNT,
    ensures
        shown_all(final(ops)@) == shown_all(old(ops)@) + self_test_row(*report, i as int),
{
    let item = item_at(i);
    let y: i32 = 40 + (i as i32) * 22;
    draw_text(ops, item.label(), 8, y, Paint::Foreground, true);
    let status = report.status_of(item);
    match status {
        SelfTestStatus::Pending => {
            draw_text(ops, "[ .. ]", 96, y, Paint::Off, true);
        },
        SelfTestStatus::Passed => {
            draw_text(ops, "[ OK ]", 96, y, Paint::Good, true);
        },
        SelfTestStatus::Fail(reason) => {
            draw_text(ops, "[FAIL]", 96, y, Paint::Warn, true);
            draw_text(ops, reason, 160, y + 2, Paint::Warn, false);
        },
    }
    assert(shown_all(ops@) =~= shown_all(old(ops)@) + self_test_row(*report, i as int));
}

/// Draws the self test screen.
pub fn render_self_test(report: &SelfTestReport) -> (ops: Vec<DrawOp<String>>)
    ensures
        shown_all(ops@) == self_test_plan(*report),
{
    let mut ops: Vec<DrawOp<String>> = Vec::new();
    fill_screen(&mut ops, Paint::Background);
    draw_text(&mut ops, "SELF-TEST", 72, 8, Paint::Accent, true);
    draw(&mut ops, DrawOp::Fill { x: 4, y: 26, w: 232, h: 1, paint: Paint::Off });
    let ghost head = shown_all(ops@);
    let mut i: usize = 0;
    assert(head + self_test_rows(*report, 0) =~= head);
    while i < ITEM_COUNT
        invariant
            i <= ITEM_COUNT,
            shown_all(ops@) == head + self_test_rows(*report, i as nat),
        decreases ITEM_COUNT - i,
    {
        draw_self_test_row(&mut ops, report, i);
        i = i + 1;
        assert(shown_all(ops@) =~= head + self_test_rows(*report, i as nat));
    }
    draw(&mut ops, DrawOp::Fill { x: 4, y: 202, w: 232, h: 1, paint: Paint::Off });
    if report.any_fail() {
        draw_text(&mut ops, "FAILED - CHECK HW", 8, 208, Paint::Warn, true);
    } else if report.all_ok() {
        draw_text(&mut ops, "ALL OK", 8, 208, Paint::Good, true);
    } else {
        draw_text(&mut ops, "TESTING...", 8, 208, Paint::Accent, true);
    }
    assert(shown_all(ops@) =~= self_test_plan(*report));
    ops
}

// ---- Laws ----

/// A screen that did not change draws nothing.
pub proof fn lemma_unchanged_draws_nothing(vm: ViewModel, prev: &ViewModel)
    requires
        *prev == vm,
    ensures
        screen_plan(vm, Some(prev)) == Seq::<DrawOp<Seq<char>>>::empty(),
{
    reveal_with_fuel(buttons_ops, 5);
    assert(screen_plan(vm, Some(prev)) =~= Seq::<DrawOp<Seq<char>>>::empty());
}

/// What is not drawn again is up to date: a part that draws nothing would look the
/// same on a screen drawn from scratch as it did before.
pub proof fn lemma_what_stays_is_current(vm: ViewModel, prev: &ViewModel)
    ensures
        title_ops(vm, Some(prev)).len() == 0 ==> title_ops(vm, None) == title_ops(*prev, None),
        counter_ops(vm, Some(prev)).len() == 0 ==> counter_ops(vm, None) == counter_ops(*prev, None),
        peer_ops(vm, Some(prev)).len() == 0 ==> peer_ops(vm, None) == peer_ops(*prev, None),
        stick_ops(vm, Some(prev)).len() == 0 ==> stick_ops(vm, None) == stick_ops(*prev, None),
        joystick_ops(
            8,
            72,
            vm.state.joy_x,
            vm.state.joy_y,
            Some((prev.state.joy_x, prev.state.joy_y)),
        ).len() == 0 ==> joystick_ops(8, 72, vm.state.joy_x, vm.state.joy_y, None) == joystick_ops(
            8,
            72,
            prev.state.joy_x,
            prev.state.joy_y,
            None,
        ),
        buttons_ops(vm, Some(prev), 4).len() == 0 ==> buttons_ops(vm, None, 4) == buttons_ops(*prev, None, 4),
{
    let f = |v: ViewModel| (v.state.joy_x, v.state.joy_y);
    let g = |v: ViewModel| (v.receiver_id, v.assigned, v.filtered_count, v.reply_count);
    if !dirty(Some(prev), f, vm) {
        assert(f(*prev) == f(vm));
    }
    if !dirty(Some(prev), g, vm) {
        assert(g(*prev) == g(vm));
    }
    reveal_with_fuel(buttons_ops, 5);
}

/// A step draws a part of the screen: its rectangle lies on the screen and does not
/// fill it.
pub open spec fn is_part(op: DrawOp<Seq<char>>) -> bool {
    match op {
        DrawOp::Fill { x, y, w, h, .. } => {
            &&& 0 <= x && x + w <= SCREEN_W
            &&& 0 <= y && y + h <= SCREEN_H
            &&& !(w == SCREEN_W && h == SCREEN_H)
        },
        DrawOp::Block { x, y, w, h, .. } => {
            &&& 0 <= x && x + w <= SCREEN_W
            &&& 0 <= y && y + h <= SCREEN_H
            &&& !(w == SCREEN_W && h == SCREEN_H)
        },
        DrawOp::Text { x, y, .. } => 0 <= x < SCREEN_W && 0 <= y < SCREEN_H,
    }
}

/// Every step draws a part of the screen.
pub open spec fn all_parts(ops: Seq<DrawOp<Seq<char>>>) -> bool {
    forall|i: int| 0 <= i < ops.len() ==> is_part(#[trigger] ops[i])
}

proof fn lemma_parts_add(a: Seq<DrawOp<Seq<char>>>, b: Seq<DrawOp<Seq<char>>>)
    requires
        all_parts(a),
        all_parts(b),
    ensures
        all_parts(a + b),
{
    assert forall|i: int| 0 <= i < (a + b).len() implies is_part(#[trigger] (a + b)[i]) by {
        if i < a.len() {
            assert((a + b)[i] == a[i]);
        } else {
            assert((a + b)[i] == b[i - a.len()]);
        }
    }
}

proof fn lemma_button_is_part(label: Seq<char>, i: int, pressed: bool)
    requires
        0 <= i < 4,
        label.len() == 2,
    ensures
        all_parts(button_ops(label, 8 + i * (BTN_W + BTN_GAP), 28, BTN_W as int, pressed)),
{
    assert(0 <= i * (BTN_W + BTN_GAP) <= 114) by {
        assert(i == 0 || i == 1 || i == 2 || i == 3);
    }
    let ops = button_ops(label, 8 + i * (BTN_W + BTN_GAP), 28, BTN_W as int, pressed);
    assert(is_part(ops[0]));
    assert(is_part(ops[1]));
}

proof fn lemma_buttons_are_parts(vm: ViewModel, prev: Option<&ViewModel>, n: nat)
    requires
        n <= 4,
    ensures
        all_parts(buttons_ops(vm, prev, n)),
    decreases n,
{
    if n > 0 {
        reveal_strlit("B1");
        reveal_strlit("B2");
        reveal_strlit("B3");
        reveal_strlit("B4");
        let i = n - 1;
        lemma_buttons_are_parts(vm, prev, (n - 1) as nat);
        let pressed = vm.state.pressed(shown_button(i));
        lemma_button_is_part(button_label(i), i, pressed);
        let last = if dirty(prev, |v: ViewModel| v.state.pressed(shown_button(i)), vm) {
            button_ops(button_label(i), 8 + i * (BTN_W + BTN_GAP), 28, BTN_W as int, pressed)
        } else {
            Seq::empty()
        };
        lemma_parts_add(buttons_ops(vm, prev, (n - 1) as nat), last);
    }
}

proof fn lemma_stick_is_part(vm: ViewModel, prev: Option<&ViewModel>)
    ensures
        all_parts(stick_ops(vm, prev)),
{
    assert forall|axis: i16| -JOY_SPAN <= #[trigger] dot_offset(axis) <= JOY_SPAN by {
    }
    let prev_joy = match prev {
        None => None,
        Some(p) => Some((p.state.joy_x, p.state.joy_y)),
    };
    let picture = joystick_ops(8, 72, vm.state.joy_x, vm.state.joy_y, prev_joy);
    assert(all_parts(crosshair_ops(8, 72)));
    assert(all_parts(picture));
    assert(all_parts(stick_ops(vm, prev)));
}

proof fn lemma_knob_is_part(label: Seq<char>, y: int, first: bool, changed: bool, val: u16)
    requires
        0 <= y <= 200,
    ensures
        all_parts(knob_ops(label, y, first, changed, val)),
{
    assert(0 <= bar_fill(val, 180) <= 178);
    assert(all_parts(bar_ops(32, y, 180, 12, val)));
}

/// After the first screen, nothing is ever wiped as a whole: every step draws a
/// part of the screen, and none draws outside of it.
pub proof fn lemma_later_screens_draw_parts(vm: ViewModel, prev: &ViewModel)
    ensures
        all_parts(screen_plan(vm, Some(prev))),
{
    let p = Some(prev);
    let none = Seq::<DrawOp<Seq<char>>>::empty();
    lemma_buttons_are_parts(vm, p, 4);
    lemma_stick_is_part(vm, p);
    let k1 = dirty(p, |v: ViewModel| v.state.knob_1, vm);
    let k2 = dirty(p, |v: ViewModel| v.state.knob_2, vm);
    lemma_knob_is_part("K1"@, 164, false, k1, vm.state.knob_1);
    lemma_knob_is_part("K2"@, 200, false, k2, vm.state.knob_2);
    assert(all_parts(title_ops(vm, p)));
    assert(all_parts(counter_ops(vm, p)));
    assert(all_parts(peer_ops(vm, p)));
    let s1 = none + title_ops(vm, p);
    lemma_parts_add(none, title_ops(vm, p));
    let s2 = s1 + counter_ops(vm, p);
    lemma_parts_add(s1, counter_ops(vm, p));
    let s3 = s2 + buttons_ops(vm, p, 4);
    lemma_parts_add(s2, buttons_ops(vm, p, 4));
    let s4 = s3 + stick_ops(vm, p);
    lemma_parts_add(s3, stick_ops(vm, p));
    let s5 = s4 + knob_ops("K1"@, 164, false, k1, vm.state.knob_1);
    lemma_parts_add(s4, knob_ops("K1"@, 164, false, k1, vm.state.knob_1));
    let s6 = s5 + knob_ops("K2"@, 200, false, k2, vm.state.knob_2);
    lemma_parts_add(s5, knob_ops("K2"@, 200, false, k2, vm.state.knob_2));
    lemma_parts_add(s6, peer_ops(vm, p));
}

/// The number of the newest frame always fills its column, so it covers any
/// earlier one.
pub proof fn lemma_frame_number_has_fixed_width(n: u32)
    ensures
        labelled("seq="@, n as nat, 10).len() == 14,
{
    text::lemma_u32_has_ten_digits(n as nat);
    reveal_strlit("seq=");
}

/// A counter that only grows covers its earlier value.
pub proof fn lemma_counter_covers_its_past(label: Seq<char>, old_count: u32, new_count: u32, width: nat)
    requires
        old_count <= new_count,
    ensures
        labelled(label, old_count as nat, width).len() <= labelled(label, new_count as nat, width).len(),
{
    text::lemma_decimal_grows(old_count as nat, new_count as nat);
}

/// A knob at rest is shown steady: measurements within the noise of a shown value
/// never change it, and both ends of the scale are always reached.
pub proof fn lemma_knob_noise_is_hidden(shown: u16, a: u16, b: u16)
    requires
        0 < a < AXIS_RANGE,
        0 < b < AXIS_RANGE,
        -KNOB_DISPLAY_HYSTERESIS < a - shown < KNOB_DISPLAY_HYSTERESIS,
        -KNOB_DISPLAY_HYSTERESIS < b - shown < KNOB_DISPLAY_HYSTERESIS,
    ensures
        steadied(steadied(shown, a), b) == shown,
        steadied(shown, 0) == 0,
        steadied(shown, AXIS_RANGE) == AXIS_RANGE,
{
}

/// A knob is shown anew exactly if it moved by at least 8, or lies at an end of its scale;
/// otherwise the value that was shown stays.
pub proof fn lemma_knob_moves_by_eight(prev: u16, new: u16)
    ensures
        steadied(prev, new) == new || steadied(prev, new) == prev,
        new == 0 || new >= 1000 ==> steadied(prev, new) == new,
        new - prev >= 8 || prev - new >= 8 ==> steadied(prev, new) == new,
        0 < new < 1000 && -8 < new - prev < 8 ==> steadied(prev, new) == prev,
{
}

/// The dot moves in proportion to the stick: 35 pixels for a full deflection, rounded
/// towards the centre, and never further.
pub proof fn lemma_dot_moves_in_proportion(axis: i16)
    ensures
        0 <= axis <= 1000 ==> dot_offset(axis) * 1000 <= axis * 35 < (dot_offset(axis) + 1) * 1000,
        -1000 <= axis <= 0 ==> -dot_offset(axis) * 1000 <= -axis * 35 < (-dot_offset(axis) + 1) * 1000,
        axis >= 1000 ==> dot_offset(axis) == 35,
        axis <= -1000 ==> dot_offset(axis) == -35,
{
}

/// The dot of a stick at rest is in the middle of its square; right moves it right, and up
/// moves it up the screen, where rows count down.
pub proof fn lemma_dot_follows_the_stick(x: int, y: int, joy_x: i16, joy_y: i16)
    ensures
        dot_center(x, y, 0, 0) == (x + 40, y + 40),
        dot_center(x, y, 1000, 0) == (x + 75, y + 40),
        dot_center(x, y, 0, 1000) == (x + 40, y + 5),
        dot_center(x, y, joy_x, joy_y).0 - x - 40 == dot_offset(joy_x),
        y + 40 - dot_center(x, y, joy_x, joy_y).1 == dot_offset(joy_y),
{
}

/// A bar is filled in proportion to its value, to the pixel, and full from full scale on.
pub proof fn lemma_bar_is_filled_in_proportion(val: u16, width: int)
    requires
        width >= 2,
    ensures
        val <= 1000 ==> bar_fill(val, width) * 1000 <= val * (width - 2) < (bar_fill(val, width) + 1) * 1000,
        val >= 1000 ==> bar_fill(val, width) == width - 2,
{
    let p = val * (width - 2);
    assert(val <= 1000 ==> 0 <= p <= 1000 * (width - 2)) by (nonlinear_arith)
        requires
            p == val * (width - 2),
            val >= 0,
            width >= 2,
    ;
    assert(val >= 1000 ==> p >= 1000 * (width - 2)) by (nonlinear_arith)
        requires
            p == val * (width - 2),
            width >= 2,
    ;
}

/// A pressed button is a filled block, a released one an empty block; both carry the label
/// in their middle.
pub proof fn lemma_pressed_buttons_are_filled(label: Seq<char>, x: int, y: int, width: int, pressed: bool)
    requires
        0 <= x <= 240,
        0 <= y <= 240,
        label.len() * 8 <= width <= 240,
    ensures
        ({
            let ops = button_ops(label, x, y, width, pressed);
            &&& ops.len() == 2
            &&& ops[0] is Block
            &&& ops[0]->fill == Paint::Good <==> pressed
            &&& ops[0]->fill == Paint::Background <==> !pressed
            &&& ops[1] is Text
            &&& ops[1]->text == label
            &&& 2 * (ops[1]->Text_x - x) + label.len() * 8 == width || 2 * (ops[1]->Text_x - x) + label.len() * 8
                == width - 1
        }),
{
}

/// The first screen shows everything there is: that frames come or not, the three counts,
/// and whether gaps are to be worried about.
pub proof fn lemma_first_screen_shows_the_counts(vm: ViewModel)
    ensures
        vm.have_data ==> title_ops(vm, None) == seq![written(4, 4, "RECV"@, Paint::Good, true)],
        !vm.have_data ==> title_ops(vm, None) == seq![written(4, 4, "WAIT"@, Paint::Warn, true)],
        counter_ops(vm, None).len() == 3,
        counter_ops(vm, None)[0]->text == labelled("seq="@, vm.last_seq as nat, 10),
        counter_ops(vm, None)[1]->text == labelled("gap="@, vm.gap_count as nat, 4),
        counter_ops(vm, None)[2]->text == labelled("ok="@, vm.ok_count as nat, 5),
        counter_ops(vm, None)[1]->Text_paint == Paint::Warn <==> vm.gap_count > 0,
        screen_plan(vm, None)[0] == screen_cleared(Paint::Background),
{
}

/// A labelled number is its label followed by the number, which reads back.
pub proof fn lemma_labelled_number_reads_back(label: Seq<char>, n: nat, width: nat)
    ensures
        labelled(label, n, width).subrange(0, label.len() as int) == label,
        text::number_of(
            labelled(label, n, width).subrange(label.len() as int, (label.len() + text::decimal(n).len()) as int),
            10,
        ) == n,
{
    text::lemma_decimal_reads_back(n);
    let s = labelled(label, n, width);
    assert(s.subrange(0, label.len() as int) =~= label);
    assert(s.subrange(label.len() as int, (label.len() + text::decimal(n).len()) as int) =~= text::decimal(n));
}

/// What changed is drawn: a new frame number, gap count, frame count or state word each
/// appears on the next screen.
pub proof fn lemma_changes_are_drawn(vm: ViewModel, prev: &ViewModel)
    ensures
        prev.last_seq != vm.last_seq ==> counter_ops(vm, Some(prev)).contains(
            written(50, 6, labelled("seq="@, vm.last_seq as nat, 10), Paint::Foreground, false),
        ),
        prev.ok_count != vm.ok_count ==> counter_ops(vm, Some(prev)).contains(
            written(190, 6, labelled("ok="@, vm.ok_count as nat, 5), Paint::Off, false),
        ),
        prev.gap_count != vm.gap_count && vm.gap_count > 0 ==> counter_ops(vm, Some(prev)).contains(
            written(140, 6, labelled("gap="@, vm.gap_count as nat, 4), Paint::Warn, false),
        ),
        prev.have_data != vm.have_data ==> title_ops(vm, Some(prev)).len() == 1,
        prev.receiver_id != vm.receiver_id || prev.assigned != vm.assigned || prev.filtered_count != vm.filtered_count
            || prev.reply_count != vm.reply_count ==> peer_ops(vm, Some(prev)).len() == 1,
        prev.state.joy_x != vm.state.joy_x || prev.state.joy_y != vm.state.joy_y ==> stick_ops(vm, Some(prev)).len() >= 2,
{
    let ops = counter_ops(vm, Some(prev));
    if prev.last_seq != vm.last_seq {
        assert(ops[0] == written(50, 6, labelled("seq="@, vm.last_seq as nat, 10), Paint::Foreground, false));
    }
    if prev.ok_count != vm.ok_count {
        assert(ops.last() == written(190, 6, labelled("ok="@, vm.ok_count as nat, 5), Paint::Off, false));
    }
    if prev.gap_count != vm.gap_count {
        let at = if prev.last_seq != vm.last_seq {
            1int
        } else {
            0int
        };
        assert(ops[at] is Text);
    }
    let f = |v: ViewModel| (v.state.joy_x, v.state.joy_y);
    let g = |v: ViewModel| (v.receiver_id, v.assigned, v.filtered_count, v.reply_count);
    assert(f(*prev) == (prev.state.joy_x, prev.state.joy_y) && f(vm) == (vm.state.joy_x, vm.state.joy_y));
    assert(g(*prev) == (prev.receiver_id, prev.assigned, prev.filtered_count, prev.reply_count));
    assert(g(vm) == (vm.receiver_id, vm.assigned, vm.filtered_count, vm.reply_count));
}

/// A result is shown in its colour, and the summary is good exactly if every item passed
/// and bad exactly if one failed.
pub proof fn lemma_results_show_their_colours(report: SelfTestReport, item: SelfTestItem)
    ensures
        report.status(item) is Passed <==> status_tag(report.status(item)).1 == Paint::Good,
        report.status(item) is Fail <==> status_tag(report.status(item)).1 == Paint::Warn,
        report.status(item) is Pending <==> status_tag(report.status(item)).1 == Paint::Off,
        report.status(item) is Fail ==> summary(report).1 == Paint::Warn,
        summary(report).1 == Paint::Good ==> report.status(item) is Passed,
        report.status(item) is Pending ==> summary(report).1 != Paint::Good,
{
}

proof fn lemma_part_is_on_the_screen(before: Seq<DrawOp<Seq<char>>>, part: Seq<DrawOp<Seq<char>>>, after: Seq<
    DrawOp<Seq<char>>,
>, i: int)
    requires
        0 <= i < part.len(),
    ensures
        (before + part + after).contains(part[i]),
{
    assert((before + part + after)[before.len() + i] == part[i]);
}

/// The first screen shows the controls as they are: the stick's coordinates with their
/// signs, and each knob under its own name with its own value.
pub proof fn lemma_first_screen_shows_the_controls(vm: ViewModel)
    ensures
        stick_ops(vm, None).contains(
            written(
                96,
                80,
                "X:"@ + text::right_aligned(text::signed(vm.state.joy_x as int), 6),
                Paint::Foreground,
                false,
            ),
        ),
        stick_ops(vm, None).contains(
            written(
                96,
                96,
                "Y:"@ + text::right_aligned(text::signed(vm.state.joy_y as int), 6),
                Paint::Foreground,
                false,
            ),
        ),
        screen_plan(vm, None).contains(written(8, 164, "K1"@, Paint::Foreground, true)),
        screen_plan(vm, None).contains(
            written(32, 180, text::left_aligned(text::decimal(vm.state.knob_1 as nat), 5), Paint::Off, false),
        ),
        screen_plan(vm, None).contains(written(8, 200, "K2"@, Paint::Foreground, true)),
        screen_plan(vm, None).contains(
            written(32, 216, text::left_aligned(text::decimal(vm.state.knob_2 as nat), 5), Paint::Off, false),
        ),
{
    let s = stick_ops(vm, None);
    assert(s[s.len() - 2] is Text);
    assert(s[s.len() - 1] is Text);
    let head = seq![screen_cleared(Paint::Background)] + title_ops(vm, None) + counter_ops(vm, None) + buttons_ops(
        vm,
        None,
        4,
    ) + stick_ops(vm, None);
    let k1 = knob_ops("K1"@, 164, true, true, vm.state.knob_1);
    let k2 = knob_ops("K2"@, 200, true, true, vm.state.knob_2);
    let tail = peer_ops(vm, None);
    assert(screen_plan(vm, None) =~= head + k1 + (k2 + tail));
    assert(screen_plan(vm, None) =~= (head + k1) + k2 + tail);
    lemma_part_is_on_the_screen(head, k1, k2 + tail, 0);
    lemma_part_is_on_the_screen(head, k1, k2 + tail, k1.len() - 1);
    lemma_part_is_on_the_screen(head + k1, k2, tail, 0);
    lemma_part_is_on_the_screen(head + k1, k2, tail, k2.len() - 1);
}

/// The bottom line names the id exactly if it was assigned, and a dash before.
pub proof fn lemma_bottom_line_names_the_id(vm: ViewModel)
    requires
        vm.receiver_id < 100,
    ensures
        ({
            let s = peer_line(vm);
            &&& vm.assigned ==> s[5] == '*' && text::number_of(
                s.subrange(5 - text::decimal(vm.receiver_id as nat).len(), 5),
                10,
            ) == vm.receiver_id
            &&& !vm.assigned ==> s[5] == '.' && s[4] == '-'
        }),
{
    reveal_strlit("id=");
    reveal_strlit("*");
    reveal_strlit(".");
    reveal_strlit("-");
    let n = vm.receiver_id as nat;
    text::lemma_decimal_reads_back(n);
    text::lemma_decimal_grows(n, 99);
    reveal_with_fuel(text::decimal, 3);
    assert(text::decimal(99).len() == 2);
    let s = peer_line(vm);
    if vm.assigned {
        assert(s.subrange(5 - text::decimal(n).len(), 5) =~= text::decimal(n));
    }
}

/// The four buttons stand in order and carry their own labels.
pub proof fn lemma_buttons_carry_their_labels()
    ensures
        shown_button(0) == ButtonBits::Btn1 && button_label(0) == "B1"@,
        shown_button(1) == ButtonBits::Btn2 && button_label(1) == "B2"@,
        shown_button(2) == ButtonBits::Btn3 && button_label(2) == "B3"@,
        shown_button(3) == ButtonBits::Btn4 && button_label(3) == "B4"@,
{
}

/// The dot is drawn last, where the stick is now; if it moved, it is first wiped from where
/// it was before.
pub proof fn lemma_dot_moves_from_old_to_new(vm: ViewModel, prev: &ViewModel)
    requires
        dot_offset(vm.state.joy_x) != dot_offset(prev.state.joy_x) || dot_offset(vm.state.joy_y) != dot_offset(
            prev.state.joy_y,
        ),
    ensures
        ({
            let ops = stick_ops(vm, Some(prev));
            &&& ops[0] == (DrawOp::<Seq<char>>::Fill {
                x: (8 + 40 + dot_offset(prev.state.joy_x) - 3) as i32,
                y: (72 + 40 - dot_offset(prev.state.joy_y) - 3) as i32,
                w: 6,
                h: 6,
                paint: Paint::Background,
            })
            &&& ops[ops.len() - 3] == (DrawOp::<Seq<char>>::Fill {
                x: (8 + 40 + dot_offset(vm.state.joy_x) - 3) as i32,
                y: (72 + 40 - dot_offset(vm.state.joy_y) - 3) as i32,
                w: 6,
                h: 6,
                paint: Paint::Accent,
            })
        }),
{
    let f = |v: ViewModel| (v.state.joy_x, v.state.joy_y);
    assert(f(*prev) == (prev.state.joy_x, prev.state.joy_y) && f(vm) == (vm.state.joy_x, vm.state.joy_y));
    assert(f(*prev) != f(vm));
    let old = dot_center(8, 72, prev.state.joy_x, prev.state.joy_y);
    let new = dot_center(8, 72, vm.state.joy_x, vm.state.joy_y);
    assert(old.0 != new.0 || old.1 != new.1);
}

} // verus!
