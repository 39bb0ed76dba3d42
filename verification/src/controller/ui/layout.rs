//! What the gamepad's 128x64 screen shows.
//!
//! A screen is drawn from scratch every time, as a list of drawing steps. While the
//! target is being chosen, the panel takes the whole screen; a battery alert and a
//! short text are drawn over either.

use super::selector::{SelectorSnapshot, UiMode, BROADCAST_MASK, VISIBLE_ROWS};
use super::toast::Toast;
use crate::bits;
use crate::comm::notifier::outbound;
use crate::comm::peer_registry::{self, PeerInfo, RSSI_UNKNOWN};
use crate::controller::config::{FONT_W, LINE_H, OLED_HEIGHT, OLED_WIDTH};
use crate::controller::hal::battery::BatteryLevel;
use crate::protocol::{ButtonBits, Frame, GamepadState};
use crate::text;
use vstd::prelude::*;

verus! {

/// Period of the blinking border when the battery is low.
pub const BORDER_PERIOD_LOW_MS: u64 = 500;

/// Period of the blinking border when the battery is critical.
pub const BORDER_PERIOD_CRITICAL_MS: u64 = 300;

/// Period of the blinking border when the battery is empty.
pub const BORDER_PERIOD_EMPTY_MS: u64 = 200;

/// Thickness of the border when the battery is low.
pub const BORDER_THICKNESS_LOW: u32 = 1;

/// Thickness of the border when the battery is critical.
pub const BORDER_THICKNESS_CRITICAL: u32 = 2;

/// Thickness of the border when the battery is empty.
pub const BORDER_THICKNESS_EMPTY: u32 = 2;

/// Height of a row of the panel.
pub const SELECTOR_ROW_H: i32 = 12;

/// Room for the cursor in a row.
pub const SELECTOR_MARK_W: i32 = 7;

/// Where the panel's title stands.
pub const SELECTOR_HEADER_Y: i32 = 0;

/// Where the panel's rows begin.
pub const SELECTOR_LIST_TOP_Y: i32 = 13;

/// Height of the bar behind a short text.
pub const TOAST_BAR_H: i32 = 20;

/// Where the header's lamps begin.
pub const LAMPS_X: i32 = 22;

/// Where the header's lamps have ended.
pub const LAMPS_END_X: i32 = 60;

/// Width of the target in the header: four characters.
pub const INDICATOR_W: i32 = 24;

/// Room between the target and the battery.
pub const INDICATOR_GAP: i32 = 2;

/// One drawing step. `T` is the type of texts.
#[derive(Debug, PartialEq, Eq)]
pub enum OledOp<T> {
    /// The whole screen dark.
    Clear,
    /// A line across the screen.
    Rule { y: i32 },
    /// A lit rectangle.
    Fill { x: i32, y: i32, w: u32, h: u32 },
    /// The outline of a rectangle.
    Outline { x: i32, y: i32, w: u32, h: u32, thickness: u32 },
    /// A text from its top left corner, lit or dark.
    Text { x: i32, y: i32, text: T, lit: bool },
}

/// A drawing step with its text as a sequence of characters.
pub open spec fn shown(op: OledOp<String>) -> OledOp<Seq<char>> {
    match op {
        OledOp::Clear => OledOp::Clear,
        OledOp::Rule { y } => OledOp::Rule { y },
        OledOp::Fill { x, y, w, h } => OledOp::Fill { x, y, w, h },
        OledOp::Outline { x, y, w, h, thickness } => OledOp::Outline { x, y, w, h, thickness },
        OledOp::Text { x, y, text, lit } => OledOp::Text { x, y, text: text@, lit },
    }
}

/// Drawing steps with their texts as sequences of characters.
pub open spec fn shown_all(ops: Seq<OledOp<String>>) -> Seq<OledOp<Seq<char>>> {
    Seq::new(ops.len(), |i: int| shown(ops[i]))
}

/// Everything that the screen shows.
pub struct UiState {
    pub mode: UiMode,
    /// The newest frame.
    pub frame: Frame,
    pub ble_connected: bool,
    pub esp_now_ready: bool,
    pub host_heartbeat_alive: bool,
    /// Battery percentage.
    pub battery: u8,
    pub battery_level: BatteryLevel,
    /// The endpoints that frames go to.
    pub active_dest_mask: u32,
    pub selector: SelectorSnapshot,
    pub toast: Option<Toast>,
}

fn draw(ops: &mut Vec<OledOp<String>>, op: OledOp<String>)
    ensures
        shown_all(final(ops)@) == shown_all(old(ops)@).push(shown(op)),
{
    ops.push(op);
    assert(shown_all(ops@) =~= shown_all(old(ops)@).push(shown(op)));
}

/// A text on the screen.
pub open spec fn written(x: int, y: int, text: Seq<char>, lit: bool) -> OledOp<Seq<char>> {
    OledOp::Text { x: x as i32, y: y as i32, text, lit }
}

fn draw_text(ops: &mut Vec<OledOp<String>>, s: &str, x: i32, y: i32, lit: bool)
    ensures
        shown_all(final(ops)@) == shown_all(old(ops)@).push(written(x as int, y as int, s@, lit)),
{
    let text = s.to_string();
    draw(ops, OledOp::Text { x, y, text, lit });
}

/// The line below the first row.
pub open spec fn rule() -> OledOp<Seq<char>> {
    OledOp::Rule { y: (LINE_H + 1) as i32 }
}

fn draw_rule(ops: &mut Vec<OledOp<String>>)
    ensures
        shown_all(final(ops)@) == shown_all(old(ops)@).push(rule()),
{
    draw(ops, OledOp::Rule { y: LINE_H + 1 });
}

/// Where a text begins that ends at the right edge, some room left free.
pub open spec fn right_x(text: Seq<char>, room: int) -> int {
    OLED_WIDTH - text.len() * FONT_W - room
}

/// Where a text begins that ends at the right edge.
fn x_from_right(s: &str, room: i32) -> (x: i32)
    requires
        s@.len() <= 100,
        0 <= room <= 100,
    ensures
        x == right_x(s@, room as int),
{
    let n: i32 = s.unicode_len() as i32;
    128 - n * 6 - room
}

// ---- Header ----

/// A lamp: lit inside if something is on.
pub open spec fn lamp(x: int, on: bool) -> OledOp<Seq<char>> {
    if on {
        OledOp::Fill { x: x as i32, y: 3, w: 4, h: 4 }
    } else {
        OledOp::Outline { x: x as i32, y: 3, w: 4, h: 4, thickness: 1 }
    }
}

fn draw_status_dot(ops: &mut Vec<OledOp<String>>, x: i32, on: bool)
    ensures
        shown_all(final(ops)@) == shown_all(old(ops)@).push(lamp(x as int, on)),
{
    if on {
        draw(ops, OledOp::Fill { x, y: 3, w: 4, h: 4 });
    } else {
        draw(ops, OledOp::Outline { x, y: 3, w: 4, h: 4, thickness: 1 });
    }
}

/// Who the frames go to: all, nobody, one endpoint by its id, or how many. Always four
/// characters wide, so ten or more are not told apart.
pub open spec fn indicator(mask: u32) -> Seq<char> {
    if mask == BROADCAST_MASK {
        ">ALL"@
    } else if mask == 0 {
        ">---"@
    } else if bits::ones(mask) == 1 {
        ">#"@ + text::zero_filled(vstd::std_specs::bits::u32_trailing_zeros(mask) as nat, 2)
    } else if bits::ones(mask) < 10 {
        ">#*"@ + text::decimal(bits::ones(mask))
    } else {
        ">#*+"@
    }
}

fn indicator_text(mask: u32) -> (s: String)
    ensures
        s@ == indicator(mask),
{
    if mask == BROADCAST_MASK {
        return ">ALL".to_string();
    }
    if mask == 0 {
        return ">---".to_string();
    }
    let count: u32 = bits::count_ones(mask);
    let mut s = String::new();
    if count == 1 {
        let id: u32 = mask.trailing_zeros();
        let digits = text::zero_filled_text(id as u64, 2);
        s.append(">#");
        s.append(digits.as_str());
        assert(s@ =~= indicator(mask));
    } else if count < 10 {
        s.append(">#*");
        text::push_decimal(&mut s, count as u64);
        assert(s@ =~= indicator(mask));
    } else {
        return ">#*+".to_string();
    }
    s
}

fn draw_target_indicator(ops: &mut Vec<OledOp<String>>, mask: u32, x: i32)
    ensures
        shown_all(final(ops)@) == shown_all(old(ops)@).push(written(x as int, 0, indicator(mask), true)),
{
    let s = indicator_text(mask);
    draw_text(ops, s.as_str(), x, 0, true);
}

/// The battery percentage, three characters wide.
pub open spec fn battery_text(percent: u8) -> Seq<char> {
    text::right_aligned(text::decimal(percent as nat), 3) + "%"@
}

/// Where the target begins: it ends just before the battery.
pub open spec fn indicator_x(battery: Seq<char>) -> int {
    right_x(battery, 0) - INDICATOR_GAP - INDICATOR_W
}

/// The header: name, three lamps, battery, and the target if there is room.
pub open spec fn header_ops(st: UiState) -> Seq<OledOp<Seq<char>>> {
    let battery = battery_text(st.battery);
    let first: Seq<OledOp<Seq<char>>> = seq![
        written(0, 0, "Ctl"@, true),
        written(LAMPS_X as int, 0, "B"@, true),
        lamp(LAMPS_X + 6, st.ble_connected),
        written(LAMPS_X + 13, 0, "N"@, true),
        lamp(LAMPS_X + 19, st.esp_now_ready),
        written(LAMPS_X + 26, 0, "H"@, true),
        lamp(LAMPS_X + 32, st.host_heartbeat_alive),
        written(right_x(battery, 0), 0, battery, true),
    ];
    if indicator_x(battery) >= LAMPS_END_X {
        first.push(written(indicator_x(battery), 0, indicator(st.active_dest_mask), true))
    } else {
        first
    }
}

/// Draws the header.
pub fn draw_header(ops: &mut Vec<OledOp<String>>, state: &UiState)
    ensures
        shown_all(final(ops)@) == shown_all(old(ops)@) + header_ops(*state),
{
    draw_text(ops, "Ctl", 0, 0, true);
    draw_text(ops, "B", LAMPS_X, 0, true);
    draw_status_dot(ops, LAMPS_X + 6, state.ble_connected);
    draw_text(ops, "N", LAMPS_X + 13, 0, true);
    draw_status_dot(ops, LAMPS_X + 19, state.esp_now_ready);
    draw_text(ops, "H", LAMPS_X + 26, 0, true);
    draw_status_dot(ops, LAMPS_X + 32, state.host_heartbeat_alive);
    let digits = text::decimal_text(state.battery as u64);
    let mut battery = text::align_right(digits.as_str(), 3);
    battery.append("%");
    proof {
        text::lemma_u32_has_ten_digits(state.battery as nat);
        reveal_strlit("%");
        assert(battery@ =~= battery_text(state.battery));
    }
    let battery_x: i32 = x_from_right(battery.as_str(), 0);
    draw_text(ops, battery.as_str(), battery_x, 0, true);
    let target_x: i32 = battery_x - INDICATOR_GAP - INDICATOR_W;
    if target_x >= LAMPS_END_X {
        draw_target_indicator(ops, state.active_dest_mask, target_x);
    }
    assert(shown_all(ops@) =~= shown_all(old(ops)@) + header_ops(*state));
}

// ---- Buttons ----

/// The buttons in the order in which they are shown.
pub open spec fn shown_button(i: int) -> (ButtonBits, Seq<char>) {
    if i == 0 {
        (ButtonBits::Btn1, "1"@)
    } else if i == 1 {
        (ButtonBits::Btn2, "2"@)
    } else if i == 2 {
        (ButtonBits::Btn3, "3"@)
    } else if i == 3 {
        (ButtonBits::Btn4, "4"@)
    } else if i == 4 {
        (ButtonBits::JoyBtn, "J"@)
    } else {
        (ButtonBits::Switch, "S"@)
    }
}

fn shown_button_at(i: usize) -> (b: (ButtonBits, &'static str))
    ensures
        b.0 == shown_button(i as int).0,
        b.1@ == shown_button(i as int).1,
{
    if i == 0 {
        (ButtonBits::Btn1, "1")
    } else if i == 1 {
        (ButtonBits::Btn2, "2")
    } else if i == 2 {
        (ButtonBits::Btn3, "3")
    } else if i == 3 {
        (ButtonBits::Btn4, "4")
    } else if i == 4 {
        (ButtonBits::JoyBtn, "J")
    } else {
        (ButtonBits::Switch, "S")
    }
}

/// One button: its label, dark on a lit block while it is pressed.
pub open spec fn button_ops(label: Seq<char>, x: int, y: int, pressed: bool) -> Seq<OledOp<Seq<char>>> {
    if pressed {
        seq![
            OledOp::Fill { x: (x - 1) as i32, y: (y - 1) as i32, w: 8, h: 10 },
            written(x, y, label, false),
        ]
    } else {
        seq![written(x, y, label, true)]
    }
}

/// The first `n` buttons.
pub open spec fn buttons_ops(state: GamepadState, y: int, n: nat) -> Seq<OledOp<Seq<char>>>
    decreases n,
{
    if n == 0 {
        seq![written(0, y, "Btn"@, true)]
    } else {
        let b = shown_button(n - 1);
        buttons_ops(state, y, (n - 1) as nat) + button_ops(
            b.1,
            24 + 15 * (n - 1),
            y,
            state.pressed(b.0),
        )
    }
}

/// Draws the row of buttons.
pub fn draw_buttons(ops: &mut Vec<OledOp<String>>, state: &GamepadState, y: i32)
    requires
        i32::MIN < y,
    ensures
        shown_all(final(ops)@) == shown_all(old(ops)@) + buttons_ops(*state, y as int, 6),
{
    draw_text(ops, "Btn", 0, y, true);
    assert(shown_all(ops@) =~= shown_all(old(ops)@) + buttons_ops(*state, y as int, 0));
    let mut i: usize = 0;
    while i < 6
        invariant
            i <= 6,
            i32::MIN < y,
            shown_all(ops@) == shown_all(old(ops)@) + buttons_ops(*state, y as int, i as nat),
        decreases 6 - i,
    {
        let (bit, label) = shown_button_at(i);
        let x: i32 = 24 + 15 * (i as i32);
        let pressed = state.is_pressed(bit);
        let ghost before = shown_all(ops@);
        if pressed {
            draw(ops, OledOp::Fill { x: x - 1, y: y - 1, w: 8, h: 10 });
            draw_text(ops, label, x, y, false);
        } else {
            draw_text(ops, label, x, y, true);
        }
        assert(shown_all(ops@) =~= before + button_ops(label@, x as int, y as int, pressed));
        i = i + 1;
        assert(shown_all(ops@) =~= shown_all(old(ops)@) + buttons_ops(*state, y as int, i as nat));
    }
}

// ---- Short texts ----

/// How many bytes the text of a message takes.
pub open spec fn message_bytes(msg: Seq<u8>) -> int {
    if vstd::utf8::valid_utf8(msg) {
        msg.len() as int
    } else {
        3
    }
}

/// A short text, centred on a lit bar at the bottom.
pub open spec fn toast_ops(msg: Seq<u8>) -> Seq<OledOp<Seq<char>>> {
    let bar_y = OLED_HEIGHT - TOAST_BAR_H;
    seq![
        OledOp::Fill { x: 0, y: bar_y as i32, w: OLED_WIDTH as u32, h: TOAST_BAR_H as u32 },
        written((OLED_WIDTH - message_bytes(msg) * FONT_W) / 2, bar_y + 5, text::readable(msg), false),
    ]
}

/// Draws a short text.
pub fn draw_toast(ops: &mut Vec<OledOp<String>>, toast: &Toast)
    ensures
        shown_all(final(ops)@) == shown_all(old(ops)@) + toast_ops(toast@),
{
    let bar_y: i32 = 44;
    draw(ops, OledOp::Fill { x: 0, y: bar_y, w: 128, h: 20 });
    let bytes = toast.as_bytes();
    let (msg, width): (&str, u32) = match text::valid_text(bytes) {
        Some(s) => (s, bytes.len() as u32 * 6),
        None => ("???", 18),
    };
    let x: i32 = ((128 - width) / 2) as i32;
    draw_text(ops, msg, x, bar_y + 5, false);
    assert(shown_all(ops@) =~= shown_all(old(ops)@) + toast_ops(toast@));
}

// ---- Battery alert ----

/// Period and thickness of the border that a battery level calls for.
pub open spec fn border(level: BatteryLevel) -> Option<(u64, u32)> {
    match level {
        BatteryLevel::Low => Some((BORDER_PERIOD_LOW_MS, BORDER_THICKNESS_LOW)),
        BatteryLevel::Critical => Some((BORDER_PERIOD_CRITICAL_MS, BORDER_THICKNESS_CRITICAL)),
        BatteryLevel::Empty => Some((BORDER_PERIOD_EMPTY_MS, BORDER_THICKNESS_EMPTY)),
        BatteryLevel::Normal => None,
    }
}

/// The border at a time: there for half a period, gone for the other half.
pub open spec fn border_ops(level: BatteryLevel, now_ms: u64) -> Seq<OledOp<Seq<char>>> {
    match border(level) {
        Some((period, thickness)) => if (now_ms / (period / 2)) % 2 == 0 {
            seq![
                OledOp::Outline { x: 0, y: 0, w: OLED_WIDTH as u32, h: OLED_HEIGHT as u32, thickness },
            ]
        } else {
            Seq::empty()
        },
        None => Seq::empty(),
    }
}

/// Draws the border of a battery alert.
pub fn draw_low_battery_border(ops: &mut Vec<OledOp<String>>, level: BatteryLevel, now_ms: u64)
    ensures
        shown_all(final(ops)@) == shown_all(old(ops)@) + border_ops(level, now_ms),
{
    let (period_ms, thickness): (u64, u32) = match level {
        BatteryLevel::Low => (BORDER_PERIOD_LOW_MS, BORDER_THICKNESS_LOW),
        BatteryLevel::Critical => (BORDER_PERIOD_CRITICAL_MS, BORDER_THICKNESS_CRITICAL),
        BatteryLevel::Empty => (BORDER_PERIOD_EMPTY_MS, BORDER_THICKNESS_EMPTY),
        BatteryLevel::Normal => {
            assert(shown_all(ops@) =~= shown_all(old(ops)@) + border_ops(level, now_ms));
            return;
        },
    };
    let half_period: u64 = period_ms / 2;
    let phase_index: u64 = now_ms / half_period;
    if phase_index % 2 == 0 {
        draw(ops, OledOp::Outline { x: 0, y: 0, w: 128, h: 64, thickness });
    }
    assert(shown_all(ops@) =~= shown_all(old(ops)@) + border_ops(level, now_ms));
}

// ---- The panel for choosing a target ----

/// The cursor's position, within the list.
pub open spec fn clamped(cursor: u8, total: int) -> int {
    if cursor < total {
        cursor as int
    } else {
        total - 1
    }
}

/// How many rows are shown.
pub open spec fn visible(total: int) -> int {
    if total < VISIBLE_ROWS {
        total
    } else {
        VISIBLE_ROWS as int
    }
}

/// The first row shown: the cursor is in the middle, except at either end.
pub open spec fn top_row(cursor: int, total: int) -> int {
    let half = visible(total) / 2;
    let centred = if cursor < half {
        0
    } else {
        cursor - half
    };
    if centred < total - visible(total) {
        centred
    } else {
        total - visible(total)
    }
}

/// The position in the list and its length.
pub open spec fn counter(cursor: u8, total: int) -> Seq<char> {
    text::decimal((cursor + 1) as nat) + "/"@ + text::decimal(total as nat)
}

/// The position in the list, in the corner; nothing for an empty list.
pub open spec fn counter_ops(cursor: u8, total: int) -> Seq<OledOp<Seq<char>>> {
    if total == 0 {
        Seq::empty()
    } else {
        let c = counter(cursor, total);
        seq![written(right_x(c, 0), SELECTOR_HEADER_Y as int, c, true)]
    }
}

/// Draws the position in the list.
pub fn draw_selector_header_counter(ops: &mut Vec<OledOp<String>>, snap: &SelectorSnapshot)
    ensures
        shown_all(final(ops)@) == shown_all(old(ops)@) + counter_ops(
            snap.cursor,
            snap.candidates@.len() as int,
        ),
{
    let total: usize = snap.candidates.len();
    if total == 0 {
        assert(shown_all(ops@) =~= shown_all(old(ops)@) + counter_ops(snap.cursor, 0));
        return;
    }
    let mut s = text::decimal_text(snap.cursor as u64 + 1);
    s.append("/");
    text::push_decimal(&mut s, total as u64);
    proof {
        text::lemma_u32_has_ten_digits((snap.cursor + 1) as nat);
        text::lemma_u32_has_ten_digits(total as nat);
        reveal_strlit("/");
        assert(s@ =~= counter(snap.cursor, total as int));
    }
    let x: i32 = x_from_right(s.as_str(), 0);
    draw_text(ops, s.as_str(), x, SELECTOR_HEADER_Y, true);
    assert(shown_all(ops@) =~= shown_all(old(ops)@) + counter_ops(snap.cursor, total as int));
}

/// What the panel says while no endpoint is known.
pub open spec fn empty_ops() -> Seq<OledOp<Seq<char>>> {
    seq![
        written(0, SELECTOR_LIST_TOP_Y as int, "No receivers found."@, true),
        written(0, SELECTOR_LIST_TOP_Y + SELECTOR_ROW_H, "Waiting for peers"@, true),
        written(0, SELECTOR_LIST_TOP_Y + SELECTOR_ROW_H * 2, "to announce..."@, true),
    ]
}

/// Draws the hint for an empty list.
pub fn draw_selector_empty_state(ops: &mut Vec<OledOp<String>>)
    ensures
        shown_all(final(ops)@) == shown_all(old(ops)@) + empty_ops(),
{
    draw_text(ops, "No receivers found.", 0, SELECTOR_LIST_TOP_Y, true);
    draw_text(ops, "Waiting for peers", 0, SELECTOR_LIST_TOP_Y + SELECTOR_ROW_H, true);
    draw_text(ops, "to announce...", 0, SELECTOR_LIST_TOP_Y + SELECTOR_ROW_H * 2, true);
    assert(shown_all(ops@) =~= shown_all(old(ops)@) + empty_ops());
}

/// The cursor's mark, on a lit row.
pub open spec fn cursor_ops(y: int, is_cursor: bool) -> Seq<OledOp<Seq<char>>> {
    if is_cursor {
        seq![
            OledOp::Fill { x: 0, y: (y - 1) as i32, w: OLED_WIDTH as u32, h: (LINE_H + 1) as u32 },
            written(0, y, ">"@, false),
        ]
    } else {
        Seq::empty()
    }
}

/// An endpoint's id.
pub open spec fn id_ops(id: u8, y: int, is_cursor: bool) -> Seq<OledOp<Seq<char>>> {
    seq![written(SELECTOR_MARK_W as int, y, "#"@ + text::zero_filled(id as nat, 2), !is_cursor)]
}

/// An endpoint's role, if it can be read.
pub open spec fn role_ops(role: Seq<u8>, y: int, is_cursor: bool) -> Seq<OledOp<Seq<char>>> {
    let head = peer_registry::role_head(role);
    if vstd::utf8::valid_utf8(head) {
        seq![written(SELECTOR_MARK_W + 20, y, vstd::utf8::decode_utf8(head), !is_cursor)]
    } else {
        Seq::empty()
    }
}

/// How strong an endpoint is received, if that is known.
pub open spec fn rssi_ops(rssi: i8, y: int, is_cursor: bool) -> Seq<OledOp<Seq<char>>> {
    if rssi > RSSI_UNKNOWN {
        let s = text::integer(rssi as int) + "dBm"@;
        seq![written(right_x(s, 10), y, s, !is_cursor)]
    } else {
        Seq::empty()
    }
}

/// The mark of an endpoint that is chosen.
pub open spec fn star_ops(id: u8, mask: u32, y: int, is_cursor: bool) -> Seq<OledOp<Seq<char>>> {
    if bits::has_bit(mask, id as int % 32) {
        seq![written(OLED_WIDTH - FONT_W, y, "*"@, !is_cursor)]
    } else {
        Seq::empty()
    }
}

/// One endpoint of the panel.
pub open spec fn row_ops(peer: PeerInfo, y: int, is_cursor: bool, mask: u32) -> Seq<OledOp<Seq<char>>> {
    cursor_ops(y, is_cursor) + id_ops(peer.receiver_id, y, is_cursor) + role_ops(peer.role@, y, is_cursor)
        + rssi_ops(peer.rssi_dbm, y, is_cursor) + star_ops(peer.receiver_id, mask, y, is_cursor)
}

/// Draws one endpoint of the panel.
pub fn draw_selector_row(ops: &mut Vec<OledOp<String>>, peer: &PeerInfo, y: i32, is_cursor: bool, pending_mask: u32)
    requires
        i32::MIN < y,
    ensures
        shown_all(final(ops)@) == shown_all(old(ops)@) + row_ops(*peer, y as int, is_cursor, pending_mask),
{
    let ghost start = shown_all(ops@);
    if is_cursor {
        draw(ops, OledOp::Fill { x: 0, y: y - 1, w: 128, h: 11 });
        draw_text(ops, ">", 0, y, false);
    }
    assert(shown_all(ops@) =~= start + cursor_ops(y as int, is_cursor));
    let ghost s1 = shown_all(ops@);
    let digits = text::zero_filled_text(peer.receiver_id as u64, 2);
    let mut id = "#".to_string();
    id.append(digits.as_str());
    draw_text(ops, id.as_str(), SELECTOR_MARK_W, y, !is_cursor);
    assert(shown_all(ops@) =~= s1 + id_ops(peer.receiver_id, y as int, is_cursor));
    let ghost s2 = shown_all(ops@);
    match text::valid_text(peer.role_bytes()) {
        Some(role) => draw_text(ops, role, SELECTOR_MARK_W + 20, y, !is_cursor),
        None => {},
    }
    assert(shown_all(ops@) =~= s2 + role_ops(peer.role@, y as int, is_cursor));
    let ghost s3 = shown_all(ops@);
    if peer.rssi_dbm > RSSI_UNKNOWN {
        let mut s = String::new();
        text::push_integer(&mut s, peer.rssi_dbm as i32);
        s.append("dBm");
        proof {
            let r = peer.rssi_dbm as int;
            text::lemma_u32_has_ten_digits(if r < 0 {
                -r
            } else {
                r
            } as nat);
            reveal_strlit("dBm");
            reveal_strlit("-");
            assert(s@ =~= text::integer(r) + "dBm"@);
        }
        let x: i32 = x_from_right(s.as_str(), 10);
        draw_text(ops, s.as_str(), x, y, !is_cursor);
    }
    assert(shown_all(ops@) =~= s3 + rssi_ops(peer.rssi_dbm, y as int, is_cursor));
    let ghost s4 = shown_all(ops@);
    if bits::bit_is_set(pending_mask, peer.receiver_id % 32) {
        draw_text(ops, "*", 122, y, !is_cursor);
    }
    assert(shown_all(ops@) =~= s4 + star_ops(peer.receiver_id, pending_mask, y as int, is_cursor));
    assert(shown_all(ops@) =~= start + row_ops(*peer, y as int, is_cursor, pending_mask));
}

/// The first `n` rows of the panel.
pub open spec fn rows_ops(candidates: Seq<PeerInfo>, cursor: u8, mask: u32, n: nat) -> Seq<OledOp<Seq<char>>>
    decreases n,
{
    if n == 0 {
        Seq::empty()
    } else {
        let total = candidates.len() as int;
        let at = clamped(cursor, total);
        let i = top_row(at, total) + n - 1;
        rows_ops(candidates, cursor, mask, (n - 1) as nat) + row_ops(
            candidates[i],
            SELECTOR_LIST_TOP_Y + SELECTOR_ROW_H * (n - 1),
            i == at,
            mask,
        )
    }
}

/// Draws the rows around the cursor.
pub fn draw_selector_rows(ops: &mut Vec<OledOp<String>>, snap: &SelectorSnapshot)
    requires
        snap.candidates@.len() > 0,
    ensures
        shown_all(final(ops)@) == shown_all(old(ops)@) + rows_ops(
            snap.candidates@,
            snap.cursor,
            snap.pending_mask,
            visible(snap.candidates@.len() as int) as nat,
        ),
{
    let candidates = snap.candidates.as_slice();
    let total: usize = candidates.len();
    let cursor: usize = if (snap.cursor as usize) < total {
        snap.cursor as usize
    } else {
        total - 1
    };
    let visible: usize = if total < VISIBLE_ROWS {
        total
    } else {
        VISIBLE_ROWS
    };
    let half: usize = visible / 2;
    let centred: usize = if cursor < half {
        0
    } else {
        cursor - half
    };
    let top: usize = if centred < total - visible {
        centred
    } else {
        total - visible
    };
    assert(top == top_row(cursor as int, total as int));
    assert(shown_all(ops@) =~= shown_all(old(ops)@) + rows_ops(
        candidates@,
        snap.cursor,
        snap.pending_mask,
        0,
    ));
    let mut row: usize = 0;
    while row < visible
        invariant
            row <= visible <= VISIBLE_ROWS,
            top + visible <= total,
            candidates@ == snap.candidates@,
            total == candidates@.len(),
            cursor == clamped(snap.cursor, total as int),
            top == top_row(cursor as int, total as int),
            shown_all(ops@) == shown_all(old(ops)@) + rows_ops(
                candidates@,
                snap.cursor,
                snap.pending_mask,
                row as nat,
            ),
        decreases visible - row,
    {
        let idx: usize = top + row;
        let y: i32 = SELECTOR_LIST_TOP_Y + SELECTOR_ROW_H * (row as i32);
        draw_selector_row(ops, &candidates[idx], y, idx == cursor, snap.pending_mask);
        row = row + 1;
        assert(shown_all(ops@) =~= shown_all(old(ops)@) + rows_ops(
            candidates@,
            snap.cursor,
            snap.pending_mask,
            row as nat,
        ));
    }
}

/// The panel: title, position, rows or a hint, and what the controls do.
pub open spec fn panel_ops(snap: SelectorSnapshot) -> Seq<OledOp<Seq<char>>> {
    let total = snap.candidates@.len() as int;
    let title: Seq<OledOp<Seq<char>>> = seq![
        written(0, SELECTOR_HEADER_Y as int, "Select Target"@, true),
    ];
    let list = if total == 0 {
        empty_ops()
    } else {
        rows_ops(snap.candidates@, snap.cursor, snap.pending_mask, visible(total) as nat)
    };
    title + counter_ops(snap.cursor, total) + seq![rule()] + list + seq![
        written(0, OLED_HEIGHT - LINE_H, "Jy^v B1+ B2- SwExit"@, true),
    ]
}

/// Draws the panel.
pub fn draw_selector_panel(ops: &mut Vec<OledOp<String>>, snap: &SelectorSnapshot)
    ensures
        shown_all(final(ops)@) == shown_all(old(ops)@) + panel_ops(*snap),
{
    let ghost start = shown_all(ops@);
    draw_text(ops, "Select Target", 0, SELECTOR_HEADER_Y, true);
    draw_selector_header_counter(ops, snap);
    draw_rule(ops);
    if snap.candidates.is_empty() {
        draw_selector_empty_state(ops);
    } else {
        draw_selector_rows(ops, snap);
    }
    draw_text(ops, "Jy^v B1+ B2- SwExit", 0, 54, true);
    assert(shown_all(ops@) =~= start + panel_ops(*snap));
}

// ---- The whole screen ----

/// The lines below the header: stick, knobs, buttons and frame number.
pub open spec fn lines_ops(frame: Frame) -> Seq<OledOp<Seq<char>>> {
    let p = frame.payload;
    seq![
        rule(),
        written(
            0,
            LINE_H * 2 + 2,
            "Joy X="@ + text::signed_zero_filled(p.joy_x as int, 5) + " Y="@ + text::signed_zero_filled(
                p.joy_y as int,
                5,
            ),
            true,
        ),
        written(
            0,
            LINE_H * 3 + 2,
            "Kn  K1="@ + text::zero_filled(p.knob_1 as nat, 4) + " K2="@ + text::zero_filled(
                p.knob_2 as nat,
                4,
            ),
            true,
        ),
    ] + buttons_ops(p, LINE_H * 4 + 2, 6) + seq![
        written(
            0,
            LINE_H * 5 + 2,
            "Seq 0x"@ + text::upper_hex(frame.header.seq as nat, 8) + "  30Hz"@,
            true,
        ),
    ]
}

/// Draws the lines below the header.
pub fn draw_lines(ops: &mut Vec<OledOp<String>>, frame: &Frame)
    ensures
        shown_all(final(ops)@) == shown_all(old(ops)@) + lines_ops(*frame),
{
    let ghost start = shown_all(ops@);
    draw_rule(ops);
    let joy_x = text::signed_zero_filled_text(frame.payload.joy_x as i32, 5);
    let joy_y = text::signed_zero_filled_text(frame.payload.joy_y as i32, 5);
    let mut joy = "Joy X=".to_string();
    joy.append(joy_x.as_str());
    joy.append(" Y=");
    joy.append(joy_y.as_str());
    draw_text(ops, joy.as_str(), 0, LINE_H * 2 + 2, true);
    let knob_1 = text::zero_filled_text(frame.payload.knob_1 as u64, 4);
    let knob_2 = text::zero_filled_text(frame.payload.knob_2 as u64, 4);
    let mut knobs = "Kn  K1=".to_string();
    knobs.append(knob_1.as_str());
    knobs.append(" K2=");
    knobs.append(knob_2.as_str());
    draw_text(ops, knobs.as_str(), 0, LINE_H * 3 + 2, true);
    draw_buttons(ops, &frame.payload, LINE_H * 4 + 2);
    let mut seq = "Seq 0x".to_string();
    text::push_upper_hex(&mut seq, frame.header.seq, 8);
    seq.append("  30Hz");
    draw_text(ops, seq.as_str(), 0, LINE_H * 5 + 2, true);
    assert(shown_all(ops@) =~= start + lines_ops(*frame));
}

/// The screen at a time.
pub open spec fn screen_ops(st: UiState, now_ms: u64) -> Seq<OledOp<Seq<char>>> {
    let content = if st.mode is Selecting {
        panel_ops(st.selector)
    } else {
        header_ops(st) + lines_ops(st.frame)
    };
    let over = match st.toast {
        Some(toast) => toast_ops(toast@),
        None => Seq::empty(),
    };
    seq![OledOp::<Seq<char>>::Clear] + content + border_ops(st.battery_level, now_ms) + over
}

/// The screen at a time.
pub fn render(state: &UiState, now_ms: u64) -> (ops: Vec<OledOp<String>>)
    ensures
        shown_all(ops@) == screen_ops(*state, now_ms),
{
    let mut ops: Vec<OledOp<String>> = Vec::new();
    draw(&mut ops, OledOp::Clear);
    assert(shown_all(ops@) =~= seq![OledOp::<Seq<char>>::Clear]);
    if state.mode.is_selecting() {
        draw_selector_panel(&mut ops, &state.selector);
    } else {
        draw_header(&mut ops, state);
        draw_lines(&mut ops, &state.frame);
    }
    if state.battery_level.is_alert() {
        draw_low_battery_border(&mut ops, state.battery_level, now_ms);
    }
    match &state.toast {
        Some(toast) => draw_toast(&mut ops, toast),
        None => {},
    }
    assert(shown_all(ops@) =~= screen_ops(*state, now_ms));
    ops
}

// ---- Laws ----

/// The endpoint under the cursor is always on the screen, and the rows shown are
/// rows of the list.
pub proof fn lemma_cursor_is_visible(cursor: u8, total: int)
    requires
        total > 0,
    ensures
        ({
            let at = clamped(cursor, total);
            let top = top_row(at, total);
            &&& 0 <= top <= at < top + visible(total)
            &&& top + visible(total) <= total
        }),
{
}

/// The header always has room for the target, right of the lamps and left of the battery.
pub proof fn lemma_target_is_always_shown(st: UiState)
    ensures
        ({
            let x = indicator_x(battery_text(st.battery));
            let target = indicator(st.active_dest_mask);
            &&& header_ops(st).last() == written(x, 0, target, true)
            &&& LAMPS_END_X <= x
            &&& x + target.len() * FONT_W < right_x(battery_text(st.battery), 0)
        }),
{
    lemma_target_is_four_characters_wide(st.active_dest_mask);
    let n = st.battery as nat;
    text::lemma_decimal_grows(n, 255);
    reveal_with_fuel(text::decimal, 4);
    assert(text::decimal(255).len() == 3);
    reveal_strlit("%");
}

/// Whoever the frames go to, the header says so in four characters.
pub proof fn lemma_target_is_four_characters_wide(mask: u32)
    ensures
        indicator(mask).len() == 4,
        indicator(mask).len() * FONT_W == INDICATOR_W,
{
    reveal_strlit(">ALL");
    reveal_strlit(">---");
    reveal_strlit(">#");
    reveal_strlit(">#*");
    reveal_strlit(">#*+");
    if mask != 0 {
        let n = vstd::std_specs::bits::u32_trailing_zeros(mask);
        bits::lemma_trailing_zeros(mask, n);
        text::lemma_decimal_grows(n as nat, 31);
        reveal_with_fuel(text::decimal, 3);
    }
}

/// Frames for a single endpoint show its id.
pub proof fn lemma_single_target_shows_its_id(id: int)
    requires
        0 <= id < 32,
    ensures
        indicator(bits::one_bit(id)) == ">#"@ + text::zero_filled(id as nat, 2),
{
    let mask = bits::one_bit(id);
    let kb = id as u32;
    outbound::lemma_one_bit_counts_one(id);
    assert((1u32 << kb) != 0 && (1u32 << kb) != 0xFFFF_FFFFu32) by (bit_vector)
        requires
            kb < 32,
    ;
    let n = vstd::std_specs::bits::u32_trailing_zeros(mask);
    bits::lemma_trailing_zeros(mask, n);
    bits::lemma_ones_is_one(mask, id, 32);
    assert(n == id) by {
        if n != id {
            assert(bits::has_bit(mask, n as int));
        }
    }
}

/// A battery alert never covers what matters most: the short text is drawn last.
pub proof fn lemma_short_text_is_on_top(st: UiState, now_ms: u64)
    requires
        st.toast is Some,
    ensures
        screen_ops(st, now_ms).last() == toast_ops(st.toast->0@).last(),
{
}

/// The three lamps show the three links, in this order: the host connected directly, the
/// radio, and the host's heartbeat. A lamp is filled exactly while its link is up.
pub proof fn lemma_lamps_show_the_links(st: UiState)
    ensures
        header_ops(st)[2] is Fill <==> st.ble_connected,
        header_ops(st)[2] is Outline <==> !st.ble_connected,
        header_ops(st)[4] is Fill <==> st.esp_now_ready,
        header_ops(st)[4] is Outline <==> !st.esp_now_ready,
        header_ops(st)[6] is Fill <==> st.host_heartbeat_alive,
        header_ops(st)[6] is Outline <==> !st.host_heartbeat_alive,
        header_ops(st)[1]->text == "B"@,
        header_ops(st)[3]->text == "N"@,
        header_ops(st)[5]->text == "H"@,
{
}

/// An endpoint of the panel has a star exactly if it is chosen.
pub proof fn lemma_stars_mark_the_chosen(id: u8, mask: u32, y: int, is_cursor: bool)
    requires
        id < 32,
    ensures
        mask & (1u32 << (id as u32)) != 0 <==> star_ops(id, mask, y, is_cursor).len() == 1,
        mask & (1u32 << (id as u32)) == 0 <==> star_ops(id, mask, y, is_cursor).len() == 0,
{
}

/// A row shows its endpoint: the id in two digits, the signal strength if it is known,
/// and the cursor's mark on a lit row exactly for the row under the cursor.
pub proof fn lemma_row_shows_its_endpoint(peer: PeerInfo, y: int, is_cursor: bool, mask: u32)
    ensures
        row_ops(peer, y, is_cursor, mask).contains(
            written(7, y, "#"@ + text::zero_filled(peer.receiver_id as nat, 2), !is_cursor),
        ),
        is_cursor <==> row_ops(peer, y, is_cursor, mask)[0] is Fill,
        rssi_ops(peer.rssi_dbm, y, is_cursor).len() == 1 <==> peer.rssi_dbm != -128,
{
    let ops = row_ops(peer, y, is_cursor, mask);
    let at = cursor_ops(y, is_cursor).len() as int;
    assert(ops[at] == id_ops(peer.receiver_id, y, is_cursor)[0]);
    assert(!is_cursor ==> at == 0);
}

/// Which rows are shown: of at most three endpoints all, and of more the one under the
/// cursor with its two neighbours, or the first or last three at either end.
pub proof fn lemma_rows_around_the_cursor(cursor: u8, total: int)
    requires
        0 <= cursor < total,
    ensures
        clamped(cursor, total) == cursor,
        total <= 3 ==> visible(total) == total && top_row(cursor as int, total) == 0,
        total > 3 ==> visible(total) == 3,
        total > 3 && cursor == 0 ==> top_row(cursor as int, total) == 0,
        total > 3 && 0 < cursor < total - 1 ==> top_row(cursor as int, total) == cursor - 1,
        total > 3 && cursor == total - 1 ==> top_row(cursor as int, total) == total - 3,
{
}

/// The border of a battery alert is there for the first half of each period and gone for
/// the second: every half second when the battery is low, faster and thicker when it is
/// worse, and never when all is well.
pub proof fn lemma_border_blinks(level: BatteryLevel, now_ms: u64)
    ensures
        level is Normal ==> border_ops(level, now_ms).len() == 0,
        level is Low ==> (border_ops(level, now_ms).len() == 1 <==> now_ms % 500 < 250),
        level is Critical ==> (border_ops(level, now_ms).len() == 1 <==> now_ms % 300 < 150),
        level is Empty ==> (border_ops(level, now_ms).len() == 1 <==> now_ms % 200 < 100),
        border_ops(level, now_ms).len() == 1 ==> border_ops(level, now_ms)[0] == (OledOp::<Seq<char>>::Outline {
            x: 0,
            y: 0,
            w: 128,
            h: 64,
            thickness: if level is Low {
                1
            } else {
                2
            },
        }),
{
    assert(BORDER_PERIOD_LOW_MS / 2 == 250 && BORDER_PERIOD_CRITICAL_MS / 2 == 150 && BORDER_PERIOD_EMPTY_MS / 2 == 100);
    assert((now_ms / 250) % 2 == 0 <==> now_ms % 500 < 250);
    assert((now_ms / 150) % 2 == 0 <==> now_ms % 300 < 150);
    assert((now_ms / 100) % 2 == 0 <==> now_ms % 200 < 100);
}

/// A button's label is dark on a lit block exactly while the button is pressed, and
/// otherwise lit without a block. The labels stand side by side in a fixed order.
pub proof fn lemma_buttons_show_what_is_pressed(state: GamepadState, y: int, n: nat, i: int)
    requires
        0 <= i < n <= 6,
    ensures
        buttons_ops(state, y, n).contains(
            written(24 + 15 * i, y, shown_button(i).1, !state.pressed(shown_button(i).0)),
        ),
        state.pressed(shown_button(i).0) ==> buttons_ops(state, y, n).contains(
            OledOp::Fill { x: (23 + 15 * i) as i32, y: (y - 1) as i32, w: 8, h: 10 },
        ),
    decreases n,
{
    let m = (n - 1) as nat;
    let before = buttons_ops(state, y, m);
    let b = shown_button(m as int);
    let own = button_ops(b.1, 24 + 15 * m as int, y, state.pressed(b.0));
    let all = buttons_ops(state, y, n);
    assert(all == before + own);
    if i == m {
        assert(all[before.len() as int] == own[0]);
        assert(all[all.len() - 1] == own[own.len() - 1]);
    } else {
        lemma_buttons_show_what_is_pressed(state, y, m, i);
        let k = choose|k: int|
            0 <= k < before.len() && before[k] == written(
                24 + 15 * i,
                y,
                shown_button(i).1,
                !state.pressed(shown_button(i).0),
            );
        assert(all[k] == before[k]);
        if state.pressed(shown_button(i).0) {
            let block = OledOp::<Seq<char>>::Fill { x: (23 + 15 * i) as i32, y: (y - 1) as i32, w: 8, h: 10 };
            let j = choose|j: int| 0 <= j < before.len() && before[j] == block;
            assert(all[j] == before[j]);
        }
    }
}

/// The labels name their buttons.
pub proof fn lemma_labels_name_their_buttons()
    ensures
        shown_button(0) == (ButtonBits::Btn1, "1"@),
        shown_button(1) == (ButtonBits::Btn2, "2"@),
        shown_button(2) == (ButtonBits::Btn3, "3"@),
        shown_button(3) == (ButtonBits::Btn4, "4"@),
        shown_button(4) == (ButtonBits::JoyBtn, "J"@),
        shown_button(5) == (ButtonBits::Switch, "S"@),
{
}

/// While the target is chosen the screen shows the panel and nothing of the rest, and
/// otherwise the header and the lines and nothing of the panel. It always starts dark.
pub proof fn lemma_screen_follows_the_mode(st: UiState, now_ms: u64)
    ensures
        screen_ops(st, now_ms)[0] is Clear,
        st.mode is Selecting ==> screen_ops(st, now_ms)[1] == written(0, 0, "Select Target"@, true),
        st.mode is Normal ==> screen_ops(st, now_ms)[1] == written(0, 0, "Ctl"@, true),
        st.mode is Selecting ==> screen_ops(st, now_ms).subrange(1, 1 + panel_ops(st.selector).len() as int) == panel_ops(
            st.selector,
        ),
        st.mode is Normal ==> screen_ops(st, now_ms).subrange(1, 1 + header_ops(st).len() as int) == header_ops(st),
        st.mode is Normal ==> screen_ops(st, now_ms).subrange(
            1 + header_ops(st).len() as int,
            1 + header_ops(st).len() as int + lines_ops(st.frame).len(),
        ) == lines_ops(st.frame),
{
    let ops = screen_ops(st, now_ms);
    if st.mode is Selecting {
        assert(ops.subrange(1, 1 + panel_ops(st.selector).len() as int) =~= panel_ops(st.selector));
        assert(panel_ops(st.selector)[0] == written(0, 0, "Select Target"@, true));
        assert(ops[1] == panel_ops(st.selector)[0]);
    } else {
        let h = header_ops(st);
        assert(ops.subrange(1, 1 + h.len() as int) =~= h);
        assert(ops.subrange(1 + h.len() as int, 1 + h.len() as int + lines_ops(st.frame).len()) =~= lines_ops(st.frame));
        assert(ops[1] == h[0]);
    }
}

/// A short text stands in the middle of the screen, to the pixel, in dark signs on a lit
/// bar at the bottom.
pub proof fn lemma_short_text_is_centred(msg: Seq<u8>)
    requires
        msg.len() <= 5,
        vstd::utf8::valid_utf8(msg),
    ensures
        toast_ops(msg).len() == 2,
        toast_ops(msg)[0] == (OledOp::<Seq<char>>::Fill { x: 0, y: 44, w: 128, h: 20 }),
        toast_ops(msg)[1] is Text,
        !toast_ops(msg)[1]->lit,
        127 <= 2 * toast_ops(msg)[1]->Text_x + msg.len() * 6 <= 128,
        toast_ops(msg)[1]->text == vstd::utf8::decode_utf8(msg),
{
}

/// A text placed from the right ends exactly at the right edge, less the room left free.
pub proof fn lemma_texts_end_at_the_right_edge(text: Seq<char>, room: int)
    ensures
        right_x(text, room) + 6 * text.len() + room == 128,
{
}

/// The header shows the battery's percentage in the corner: four characters, of which the
/// last is the percent sign and the number before it reads back.
pub proof fn lemma_header_shows_the_battery(st: UiState)
    ensures
        ({
            let s = battery_text(st.battery);
            &&& header_ops(st)[7] == written(104, 0, s, true)
            &&& s.len() == 4
            &&& s[3] == '%'
            &&& text::number_of(s.subrange(3 - text::decimal(st.battery as nat).len(), 3), 10) == st.battery
        }),
{
    reveal_strlit("%");
    let n = st.battery as nat;
    text::lemma_decimal_reads_back(n);
    text::lemma_decimal_grows(n, 255);
    reveal_with_fuel(text::decimal, 4);
    assert(text::decimal(255).len() == 3);
    let s = battery_text(st.battery);
    assert(s.subrange(3 - text::decimal(n).len(), 3) =~= text::decimal(n));
}

/// The panel shows where the cursor is in the list, counted from one, and how long the
/// list is; an empty list shows neither.
pub proof fn lemma_panel_shows_the_position(cursor: u8, total: int)
    requires
        total >= 0,
    ensures
        counter_ops(cursor, total).len() == 0 <==> total == 0,
        total > 0 ==> counter_ops(cursor, total) == seq![
            written(right_x(counter(cursor, total), 0), 0, counter(cursor, total), true),
        ],
        ({
            let c = counter(cursor, total);
            let n = text::decimal((cursor + 1) as nat).len() as int;
            &&& text::number_of(c.subrange(0, n), 10) == cursor + 1
            &&& c[n] == '/'
            &&& text::number_of(c.subrange(n + 1, c.len() as int), 10) == total
        }),
{
    reveal_strlit("/");
    text::lemma_decimal_reads_back((cursor + 1) as nat);
    text::lemma_decimal_reads_back(total as nat);
    let c = counter(cursor, total);
    let n = text::decimal((cursor + 1) as nat).len() as int;
    assert(c.subrange(0, n) =~= text::decimal((cursor + 1) as nat));
    assert(c.subrange(n + 1, c.len() as int) =~= text::decimal(total as nat));
}

/// The rows of the panel show the endpoints of the list one below the other, from the first
/// row shown on; dark on a lit row is the one under the cursor.
pub proof fn lemma_rows_show_the_list(candidates: Seq<PeerInfo>, cursor: u8, mask: u32, n: nat, i: int)
    requires
        0 <= i < n <= 3,
        candidates.len() > 0,
    ensures
        ({
            let at = clamped(cursor, candidates.len() as int);
            let k = top_row(at, candidates.len() as int) + i;
            rows_ops(candidates, cursor, mask, n).contains(
                written(
                    7,
                    13 + 12 * i,
                    "#"@ + text::zero_filled(candidates[k].receiver_id as nat, 2),
                    k != at,
                ),
            )
        }),
    decreases n,
{
    let total = candidates.len() as int;
    let at = clamped(cursor, total);
    let m = (n - 1) as nat;
    let last = top_row(at, total) + m;
    let before = rows_ops(candidates, cursor, mask, m);
    let own = row_ops(candidates[last], 13 + 12 * m as int, last == at, mask);
    let all = rows_ops(candidates, cursor, mask, n);
    assert(all == before + own);
    let k = top_row(at, total) + i;
    let op = written(7, 13 + 12 * i, "#"@ + text::zero_filled(candidates[k].receiver_id as nat, 2), k != at);
    if i == m {
        lemma_row_shows_its_endpoint(candidates[last], 13 + 12 * m as int, last == at, mask);
        let j = choose|j: int| 0 <= j < own.len() && own[j] == op;
        assert(all[before.len() + j] == own[j]);
    } else {
        lemma_rows_show_the_list(candidates, cursor, mask, m, i);
        let j = choose|j: int| 0 <= j < before.len() && before[j] == op;
        assert(all[j] == before[j]);
    }
}

/// The lines below the header show the newest frame: both axes of the stick, both knobs, the
/// buttons, and the frame's number as eight hexadecimal digits.
pub proof fn lemma_lines_show_the_frame(frame: Frame)
    ensures
        ({
            let p = frame.payload;
            let ops = lines_ops(frame);
            &&& ops[0] == (OledOp::<Seq<char>>::Rule { y: 11 })
            &&& ops[1] == written(
                0,
                22,
                "Joy X="@ + text::signed_zero_filled(p.joy_x as int, 5) + " Y="@ + text::signed_zero_filled(
                    p.joy_y as int,
                    5,
                ),
                true,
            )
            &&& ops[2] == written(
                0,
                32,
                "Kn  K1="@ + text::zero_filled(p.knob_1 as nat, 4) + " K2="@ + text::zero_filled(p.knob_2 as nat, 4),
                true,
            )
            &&& ops.subrange(3, ops.len() - 1) == buttons_ops(p, 42, 6)
            &&& ops.last() == written(
                0,
                52,
                "Seq 0x"@ + text::upper_hex(frame.header.seq as nat, 8) + "  30Hz"@,
                true,
            )
        }),
{
    let ops = lines_ops(frame);
    assert(ops.subrange(3, ops.len() - 1) =~= buttons_ops(frame.payload, 42, 6));
}

/// A lamp is a square of four pixels, filled or only outlined.
pub proof fn lemma_lamps_are_squares(x: int, on: bool)
    ensures
        on ==> lamp(x, on) == (OledOp::<Seq<char>>::Fill { x: x as i32, y: 3, w: 4, h: 4 }),
        !on ==> lamp(x, on) == (OledOp::<Seq<char>>::Outline { x: x as i32, y: 3, w: 4, h: 4, thickness: 1 }),
{
}

/// The header names the target: all, nobody, and otherwise by how many there are, from two
/// to nine by their number.
pub proof fn lemma_header_names_the_target(mask: u32)
    ensures
        indicator(0xFFFF_FFFF) == ">ALL"@,
        indicator(0) == ">---"@,
        mask != 0xFFFF_FFFF && 2 <= bits::ones(mask) <= 9 ==> indicator(mask).subrange(0, 3) == ">#*"@
            && text::number_of(indicator(mask).subrange(3, 4), 10) == bits::ones(mask),
        mask != 0xFFFF_FFFF && bits::ones(mask) >= 10 ==> indicator(mask) == ">#*+"@,
{
    reveal_strlit(">#*");
    bits::lemma_none_and_all();
    bits::lemma_ones_zero(mask, 32);
    let n = bits::ones(mask);
    if mask != 0xFFFF_FFFF && 2 <= n <= 9 {
        text::lemma_decimal_reads_back(n);
        assert(mask != 0) by {
            bits::lemma_ones_zero(0u32, 32);
        }
        assert(indicator(mask) == ">#*"@ + text::decimal(n));
        assert(indicator(mask).subrange(0, 3) =~= ">#*"@);
        assert(indicator(mask).subrange(3, 4) =~= text::decimal(n));
    }
    if n >= 10 {
        assert(mask != 0) by {
            bits::lemma_ones_zero(0u32, 32);
        }
    }
}

} // verus!
