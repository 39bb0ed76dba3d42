//! The form that sends commands.

use super::state::{self, AppState, AppView, ConnState};
use crate::protocol::{Command, CommandBody, KeyId};
use crate::text;
use vstd::prelude::*;

verus! {

// ---- Numbers typed by the user ----

/// The value of a decimal digit sign.
pub open spec fn digit_value(c: char) -> Option<nat> {
    if '0' <= c && c <= '9' {
        Some((c as int - '0' as int) as nat)
    } else {
        None
    }
}

/// The value of a run of decimal digits; nothing if another sign is among them.
pub open spec fn digits_value(s: Seq<char>) -> Option<nat>
    decreases s.len(),
{
    if s.len() == 0 {
        Some(0)
    } else {
        match (digits_value(s.drop_last()), digit_value(s.last())) {
            (Some(n), Some(d)) => Some(n * 10 + d),
            _ => None,
        }
    }
}

/// The number that a text stands for: decimal digits, at least one, with at most
/// one plus sign in front, and not larger than `max`.
pub open spec fn parsed(s: Seq<char>, max: nat) -> Option<nat> {
    let digits = if s.len() > 0 && s[0] == '+' {
        s.subrange(1, s.len() as int)
    } else {
        s
    };
    match digits_value(digits) {
        Some(n) => if digits.len() > 0 && n <= max {
            Some(n)
        } else {
            None
        },
        None => None,
    }
}

proof fn lemma_prefix_value(s: Seq<char>, k: int)
    requires
        0 <= k <= s.len(),
    ensures
        digits_value(s.subrange(0, k)) is None ==> digits_value(s) is None,
        digits_value(s) is Some ==> digits_value(s.subrange(0, k))->0 <= digits_value(s)->0,
    decreases s.len() - k,
{
    if k < s.len() {
        let p = s.subrange(0, k);
        let q = s.subrange(0, k + 1);
        assert(q.drop_last() =~= p);
        lemma_prefix_value(s, k + 1);
    } else {
        assert(s.subrange(0, k) =~= s);
    }
}

/// Reads a number that the user typed.
pub fn parse_number(s: &str, max: u16) -> (n: Option<u16>)
    ensures
        n is Some <==> parsed(s@, max as nat) is Some,
        n is Some ==> n->0 == parsed(s@, max as nat)->0,
{
    let len: usize = s.unicode_len();
    let start: usize = if len > 0 && s.get_char(0) == '+' {
        1
    } else {
        0
    };
    let ghost digits = if s@.len() > 0 && s@[0] == '+' {
        s@.subrange(1, s@.len() as int)
    } else {
        s@
    };
    if start == len {
        return None;
    }
    let mut value: u32 = 0;
    let mut i: usize = start;
    assert(digits.subrange(0, 0) =~= Seq::<char>::empty());
    while i < len
        invariant
            len == s@.len(),
            start <= i <= len,
            start < len,
            digits.len() == len - start,
            forall|k: int| 0 <= k < digits.len() ==> #[trigger] digits[k] == s@[k + start],
            digits_value(digits.subrange(0, i - start)) == Some(value as nat),
            value <= max,
            parsed(s@, max as nat) == (match digits_value(digits) {
                Some(n) => if n <= max {
                    Some(n)
                } else {
                    None
                },
                None => None,
            }),
        decreases len - i,
    {
        let c: char = s.get_char(i);
        let ghost before = digits.subrange(0, i - start);
        let ghost now = digits.subrange(0, i - start + 1);
        proof {
            assert(now.drop_last() =~= before);
            assert(now.last() == c);
            lemma_prefix_value(digits, i - start + 1);
        }
        if c < '0' || c > '9' {
            return None;
        }
        let d: u32 = c as u32 - 48;
        value = value * 10 + d;
        if value > max as u32 {
            return None;
        }
        i = i + 1;
    }
    assert(digits.subrange(0, len - start) =~= digits);
    Some(value as u16)
}

/// A number field after the user typed: a number is held within the field's
/// limits, anything else is ignored.
pub open spec fn typed(current: nat, text: Seq<char>, type_max: nat, min: nat, max: nat) -> nat {
    match parsed(text, type_max) {
        Some(n) => if n < min {
            min
        } else if n > max {
            max
        } else {
            n
        },
        None => current,
    }
}

/// Input into a field for a number below 256.
pub fn number_input(current: u8, s: &str, min: u8, max: u8) -> (v: u8)
    requires
        min <= max,
    ensures
        v == typed(current as nat, s@, u8::MAX as nat, min as nat, max as nat),
{
    match parse_number(s, 255) {
        Some(n) => {
            let n: u8 = n as u8;
            if n < min {
                min
            } else if n > max {
                max
            } else {
                n
            }
        },
        None => current,
    }
}

/// Input into a field for a number below 65536.
pub fn number_u16_input(current: u16, s: &str, min: u16, max: u16) -> (v: u16)
    requires
        min <= max,
    ensures
        v == typed(current as nat, s@, u16::MAX as nat, min as nat, max as nat),
{
    match parse_number(s, 65535) {
        Some(n) => {
            if n < min {
                min
            } else if n > max {
                max
            } else {
                n
            }
        },
        None => current,
    }
}

// ---- From the form to a command ----

/// The kinds of commands that the form offers: their names and what the page calls
/// them.
pub fn command_types() -> (types: [(&'static str, &'static str); 5])
    ensures
        types@[0].0@ == "Nop"@ && types@[0].1@ == "Nop"@,
        types@[1].0@ == "LedBlink"@ && types@[1].1@ == "LED 闪烁"@,
        types@[2].0@ == "SetSensitivity"@ && types@[2].1@ == "设置灵敏度"@,
        types@[3].0@ == "ShowToast"@ && types@[3].1@ == "显示 Toast"@,
        types@[4].0@ == "SetBatteryMode"@ && types@[4].1@ == "切换电池模式"@,
{
    [
        ("Nop", "Nop"),
        ("LedBlink", "LED 闪烁"),
        ("SetSensitivity", "设置灵敏度"),
        ("ShowToast", "显示 Toast"),
        ("SetBatteryMode", "切换电池模式"),
    ]
}

/// The text of a toast command: the first bytes of a text, up to five, with zeros
/// behind them.
pub open spec fn toast_body(bytes: Seq<u8>, len: u8, packed: [u8; 5]) -> bool {
    &&& len == (if bytes.len() < 5 {
        bytes.len() as int
    } else {
        5
    })
    &&& forall|i: int|
        0 <= i < 5 ==> #[trigger] packed@[i] == (if i < bytes.len() {
            bytes[i]
        } else {
            0u8
        })
}

/// What the form asks for.
pub open spec fn body_for(panel: CommandPanel, body: Option<CommandBody>) -> bool {
    let ty = panel.selected_type@;
    if ty == "Nop"@ {
        body == Some(CommandBody::Nop)
    } else if ty == "LedBlink"@ {
        body == Some(
            CommandBody::LedBlink {
                led_idx: panel.led_idx,
                count: panel.led_count,
                period_ms: panel.led_period,
            },
        )
    } else if ty == "SetSensitivity"@ {
        body == Some(
            CommandBody::SetSensitivity { joy_scale: panel.joy_scale, knob_scale: panel.knob_scale },
        )
    } else if ty == "ShowToast"@ {
        &&& body is Some
        &&& body->0 is ShowToast
        &&& toast_body(
            vstd::utf8::encode_utf8(panel.toast_text@),
            body->0->ShowToast_len,
            body->0->ShowToast_bytes,
        )
    } else if ty == "SetBatteryMode"@ {
        body == Some(CommandBody::SetBatteryMode { simulate: panel.bat_simulate })
    } else {
        body is None
    }
}

/// The form: the kind of command and the fields of every kind.
pub struct CommandPanel {
    pub selected_type: String,
    pub led_idx: u8,
    pub led_count: u8,
    pub led_period: u16,
    pub joy_scale: u16,
    pub knob_scale: u16,
    pub toast_text: String,
    pub bat_simulate: bool,
}

/// Packs the text of a toast.
pub fn pack_toast(s: &str) -> (packed: (u8, [u8; 5]))
    ensures
        toast_body(vstd::utf8::encode_utf8(s@), packed.0, packed.1),
{
    let text_bytes = s.as_bytes();
    let mut bytes: [u8; 5] = [0u8, 0u8, 0u8, 0u8, 0u8];
    let mut i: usize = 0;
    while i < 5 && i < text_bytes.len()
        invariant
            i <= 5,
            i <= text_bytes@.len(),
            text_bytes@ == vstd::utf8::encode_utf8(s@),
            forall|k: int| 0 <= k < i ==> #[trigger] bytes@[k] == text_bytes@[k],
            forall|k: int| i <= k < 5 ==> #[trigger] bytes@[k] == 0,
        decreases 5 - i,
    {
        bytes[i] = text_bytes[i];
        i = i + 1;
    }
    (i as u8, bytes)
}

impl CommandPanel {
    /// The form as it is first shown.
    pub fn new() -> (p: CommandPanel)
        ensures
            p.selected_type@ == "Nop"@,
            p.led_idx == 0,
            p.led_count == 3,
            p.led_period == 200,
            p.joy_scale == 1000,
            p.knob_scale == 1000,
            p.toast_text@ == "hi"@,
            !p.bat_simulate,
    {
        CommandPanel {
            selected_type: "Nop".to_string(),
            led_idx: 0,
            led_count: 3,
            led_period: 200,
            joy_scale: 1000,
            knob_scale: 1000,
            toast_text: "hi".to_string(),
            bat_simulate: false,
        }
    }

    /// The command that the form asks for, nothing for an unknown kind.
    pub fn build_body(&self) -> (body: Option<CommandBody>)
        ensures
            body_for(*self, body),
    {
        let ty = self.selected_type.as_str();
        if text::same_text(ty, "Nop") {
            Some(CommandBody::Nop)
        } else if text::same_text(ty, "LedBlink") {
            Some(
                CommandBody::LedBlink {
                    led_idx: self.led_idx,
                    count: self.led_count,
                    period_ms: self.led_period,
                },
            )
        } else if text::same_text(ty, "SetSensitivity") {
            Some(
                CommandBody::SetSensitivity { joy_scale: self.joy_scale, knob_scale: self.knob_scale },
            )
        } else if text::same_text(ty, "ShowToast") {
            let (len, bytes) = pack_toast(self.toast_text.as_str());
            Some(CommandBody::ShowToast { len, bytes })
        } else if text::same_text(ty, "SetBatteryMode") {
            Some(CommandBody::SetBatteryMode { simulate: self.bat_simulate })
        } else {
            None
        }
    }

    /// The user chose a kind of command.
    pub fn on_type_change(&mut self, value: String)
        ensures
            *final(self) == (CommandPanel { selected_type: value, ..*old(self) }),
    {
        self.selected_type = value;
    }

    /// The user typed into the LED field.
    pub fn on_led_idx_input(&mut self, s: &str)
        ensures
            final(self).led_idx == typed(old(self).led_idx as nat, s@, u8::MAX as nat, 0, 3),
            *final(self) == (CommandPanel { led_idx: final(self).led_idx, ..*old(self) }),
    {
        self.led_idx = number_input(self.led_idx, s, 0, 3);
    }

    /// The user typed into the blink count field.
    pub fn on_led_count_input(&mut self, s: &str)
        ensures
            final(self).led_count == typed(old(self).led_count as nat, s@, u8::MAX as nat, 1, 20),
            *final(self) == (CommandPanel { led_count: final(self).led_count, ..*old(self) }),
    {
        self.led_count = number_input(self.led_count, s, 1, 20);
    }

    /// The user typed into the blink period field.
    pub fn on_led_period_input(&mut self, s: &str)
        ensures
            final(self).led_period == typed(old(self).led_period as nat, s@, u16::MAX as nat, 50, 2000),
            *final(self) == (CommandPanel { led_period: final(self).led_period, ..*old(self) }),
    {
        self.led_period = number_u16_input(self.led_period, s, 50, 2000);
    }

    /// The user typed into the stick's scale field.
    pub fn on_joy_scale_input(&mut self, s: &str)
        ensures
            final(self).joy_scale == typed(old(self).joy_scale as nat, s@, u16::MAX as nat, 0, 1000),
            *final(self) == (CommandPanel { joy_scale: final(self).joy_scale, ..*old(self) }),
    {
        self.joy_scale = number_u16_input(self.joy_scale, s, 0, 1000);
    }

    /// The user typed into the knobs' scale field.
    pub fn on_knob_scale_input(&mut self, s: &str)
        ensures
            final(self).knob_scale == typed(old(self).knob_scale as nat, s@, u16::MAX as nat, 0, 1000),
            *final(self) == (CommandPanel { knob_scale: final(self).knob_scale, ..*old(self) }),
    {
        self.knob_scale = number_u16_input(self.knob_scale, s, 0, 1000);
    }

    /// Whether the fields of a kind are shown: those of the chosen kind are.
    pub fn shows_fields_of(&self, kind: &str) -> (shown: bool)
        ensures
            shown == (self.selected_type@ == kind@),
    {
        text::same_text(self.selected_type.as_str(), kind)
    }

    /// The user pressed the send button: the command takes the next number and the
    /// chosen key. A form that asks for nothing is warned about, and uses up no
    /// number.
    pub fn on_send_click(&self, app: &mut AppState, now_us: u64) -> (cmd: Option<Command>)
        ensures
            exists|body: Option<CommandBody>|
                {
                    &&& #[trigger] body_for(*self, body)
                    &&& match body {
                        Some(kind) => {
                            &&& cmd == Some(
                                Command {
                                    seq: state::next_seq(old(app).tx_counter),
                                    key_id: old(app).key_id,
                                    kind,
                                },
                            )
                            &&& final(app)@ == (AppView {
                                tx_counter: state::next_seq(old(app).tx_counter),
                                ..old(app)@
                            })
                        },
                        None => {
                            &&& cmd is None
                            &&& final(app)@ == old(app)@.warning("命令参数不合法"@, now_us)
                        },
                    }
                },
            old(app).wf() ==> final(app).wf(),
    {
        match self.build_body() {
            Some(kind) => {
                assert(body_for(*self, Some(kind)));
                let seq: u32 = app.next_tx_seq();
                Some(Command { seq, key_id: app.key_id, kind })
            },
            None => {
                assert(body_for(*self, None));
                app.warn("命令参数不合法".to_string(), now_us);
                None
            },
        }
    }
}

/// Every kind that the form offers leads to a command.
pub proof fn lemma_every_kind_gives_a_command(panel: CommandPanel, body: Option<CommandBody>)
    requires
        body_for(panel, body),
    ensures
        body is Some <==> panel.selected_type@ == "Nop"@ || panel.selected_type@ == "LedBlink"@
            || panel.selected_type@ == "SetSensitivity"@ || panel.selected_type@ == "ShowToast"@
            || panel.selected_type@ == "SetBatteryMode"@,
{
}

/// The user chose a key. Anything that is no key id is ignored.
pub fn on_key_id_change(app: &mut AppState, value: &str)
    ensures
        final(app)@ == (AppView {
            key_id: match parsed(value@, u8::MAX as nat) {
                Some(raw) => if raw <= crate::protocol::KEY_ID_MAX {
                    KeyId { raw: raw as u8 }
                } else {
                    old(app).key_id
                },
                None => old(app).key_id,
            },
            ..old(app)@
        }),
        old(app).wf() ==> final(app).wf(),
{
    if let Some(raw) = parse_number(value, 255) {
        if let Ok(kid) = KeyId::new(raw as u8) {
            app.key_id = kid;
        }
    }
}

/// Whether the send button is out of use: only a connected dashboard can send.
pub fn send_disabled(app: &AppState) -> (disabled: bool)
    ensures
        disabled == !(app.conn is Connected),
{
    match app.conn {
        ConnState::Connected => false,
        _ => true,
    }
}

/// The number that the next command will have.
pub fn shown_seq(app: &AppState) -> (seq: u32)
    ensures
        seq == state::next_seq(app.tx_counter),
{
    app.tx_counter.saturating_add(1)
}

// ---- Laws ----

/// A number that is typed in decimal is understood as that number, with or without a plus
/// sign, exactly if it is not too large.
pub proof fn lemma_typed_number_is_understood(n: nat, max: nat)
    ensures
        n <= max ==> parsed(text::decimal(n), max) == Some(n),
        n > max ==> parsed(text::decimal(n), max) is None,
        parsed("+"@ + text::decimal(n), max) == parsed(text::decimal(n), max),
{
    lemma_digits_of_decimal(n);
    text::lemma_decimal_reads_back(n);
    reveal_strlit("+");
    let s = "+"@ + text::decimal(n);
    assert(s.subrange(1, s.len() as int) =~= text::decimal(n));
    assert(text::decimal(n)[0] >= '0');
}

proof fn lemma_digits_of_decimal(n: nat)
    ensures
        digits_value(text::decimal(n)) == Some(n),
    decreases n,
{
    reveal_strlit("0123456789abcdef");
    if n < 10 {
        text::lemma_signs_stand_for_their_numbers(n as int);
        assert(text::decimal(n).drop_last() =~= Seq::<char>::empty());
        assert(digits_value(text::decimal(n).drop_last()) == Some(0nat));
    } else {
        lemma_digits_of_decimal(n / 10);
        text::lemma_signs_stand_for_their_numbers((n % 10) as int);
        assert(text::decimal(n).drop_last() =~= text::decimal(n / 10));
    }
}

/// What is not a number is not understood: an empty text, a lone sign, or a text with any
/// other sign than the digits among it.
pub proof fn lemma_other_texts_are_not_understood(s: Seq<char>, max: nat, i: int)
    requires
        1 <= i < s.len(),
        s[i] < '0' || s[i] > '9',
    ensures
        parsed(s, max) is None,
        parsed(Seq::empty(), max) is None,
        parsed("+"@, max) is None,
{
    reveal_strlit("+");
    lemma_digits_are_all(s, i);
    let rest = s.subrange(1, s.len() as int);
    assert(rest[i - 1] == s[i]);
    lemma_digits_are_all(rest, i - 1);
    assert("+"@.subrange(1, 1) =~= Seq::<char>::empty());
}

proof fn lemma_digits_are_all(s: Seq<char>, i: int)
    requires
        0 <= i < s.len(),
        s[i] < '0' || s[i] > '9',
    ensures
        digits_value(s) is None,
    decreases s.len(),
{
    if i < s.len() - 1 {
        lemma_digits_are_all(s.drop_last(), i);
    }
}

/// A number typed into a field is taken over if it lies within the field's limits, and
/// otherwise the nearest limit is; what is no number changes nothing.
pub proof fn lemma_field_holds_its_limits(current: nat, n: nat, type_max: nat, min: nat, max: nat, s: Seq<char>)
    requires
        min <= max <= type_max,
    ensures
        min <= n <= max ==> typed(current, text::decimal(n), type_max, min, max) == n,
        n < min ==> typed(current, text::decimal(n), type_max, min, max) == min,
        max < n <= type_max ==> typed(current, text::decimal(n), type_max, min, max) == max,
        n > type_max ==> typed(current, text::decimal(n), type_max, min, max) == current,
        parsed(s, type_max) is None ==> typed(current, s, type_max, min, max) == current,
{
    lemma_typed_number_is_understood(n, type_max);
}

/// The command carries the fields of its kind as they stand in the form, each in its place.
pub proof fn lemma_command_carries_the_fields(panel: CommandPanel, body: Option<CommandBody>)
    requires
        body_for(panel, body),
    ensures
        body matches Some(CommandBody::LedBlink { led_idx, count, period_ms }) ==> led_idx == panel.led_idx && count
            == panel.led_count && period_ms == panel.led_period,
        body matches Some(CommandBody::SetSensitivity { joy_scale, knob_scale }) ==> joy_scale == panel.joy_scale
            && knob_scale == panel.knob_scale,
        body matches Some(CommandBody::SetBatteryMode { simulate }) ==> simulate == panel.bat_simulate,
        panel.selected_type@ == "Nop"@ ==> body == Some(CommandBody::Nop),
        panel.selected_type@ == "LedBlink"@ ==> body is Some && body->0 is LedBlink,
        panel.selected_type@ == "SetSensitivity"@ ==> body is Some && body->0 is SetSensitivity,
        panel.selected_type@ == "ShowToast"@ ==> body is Some && body->0 is ShowToast,
        panel.selected_type@ == "SetBatteryMode"@ ==> body is Some && body->0 is SetBatteryMode,
{
    reveal_strlit("Nop");
    reveal_strlit("LedBlink");
    reveal_strlit("SetSensitivity");
    reveal_strlit("ShowToast");
    reveal_strlit("SetBatteryMode");
    assert("Nop"@.len() == 3 && "LedBlink"@.len() == 8 && "SetSensitivity"@.len() == 14 && "ShowToast"@.len() == 9
        && "SetBatteryMode"@.len() == 14);
    assert("SetSensitivity"@[3] == 'S' && "SetBatteryMode"@[3] == 'B');
}

/// A toast carries the text of the form, byte for byte as far as five bytes go.
pub proof fn lemma_toast_carries_the_text(bytes: Seq<u8>, len: u8, packed: [u8; 5], i: int)
    requires
        toast_body(bytes, len, packed),
        0 <= i < 5,
    ensures
        bytes.len() >= 5 ==> len == 5,
        bytes.len() < 5 ==> len == bytes.len(),
        i < bytes.len() ==> packed@[i] == bytes[i],
        i >= bytes.len() ==> packed@[i] == 0,
{
}

} // verus!
