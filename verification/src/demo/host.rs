//! A host and a simulated gamepad that talk to each other.

use crate::protocol::{
    AntiReplayWindow, Command, CommandBody, CommandDecodeError, CommandResponse, ErrorCode, KeyId,
    SessionNonce, RESPONSE_LEN,
};
use crate::text;
use vstd::prelude::*;

verus! {

/// The nonce of the demonstration.
pub const DEMO_INITIAL_NONCE: u32 = 0xDEAD_BEEF;

/// The gamepad's side.
#[derive(Debug, Clone, Copy)]
pub struct SimulatedGamepad {
    pub replay: AntiReplayWindow,
    pub simulate_battery: bool,
}

/// What a host is told about a command that could not be decoded.
pub open spec fn code_for(err: CommandDecodeError) -> ErrorCode {
    if err is UnsupportedVersion || err is UnsupportedKeyId {
        ErrorCode::Unsupported
    } else {
        ErrorCode::InvalidArgument
    }
}

/// What a host is told about a command that could not be decoded.
pub fn err_code_for(err: CommandDecodeError) -> (code: ErrorCode)
    ensures
        code == code_for(err),
{
    match err {
        CommandDecodeError::UnsupportedVersion(_) | CommandDecodeError::UnsupportedKeyId(_) => {
            ErrorCode::Unsupported
        },
        _ => ErrorCode::InvalidArgument,
    }
}

/// Whether a command can be carried out by a gamepad with one light.
pub open spec fn refusal(body: CommandBody) -> Option<ErrorCode> {
    match body {
        CommandBody::LedBlink { led_idx, .. } => if led_idx > 0 {
            Some(ErrorCode::InvalidArgument)
        } else {
            None
        },
        CommandBody::Announce => Some(ErrorCode::Unsupported),
        CommandBody::AssignId { .. } => Some(ErrorCode::Unsupported),
        _ => None,
    }
}

/// The answer to a command that passed the replay check.
pub open spec fn answer(cmd: Command) -> CommandResponse {
    match refusal(cmd.kind) {
        None => CommandResponse::spec_ack(cmd.seq, cmd.key_id),
        Some(code) => CommandResponse::spec_err(cmd.seq, cmd.key_id, code),
    }
}

/// The text of a short message.
pub open spec fn message(bytes: Seq<u8>) -> Seq<char> {
    if vstd::utf8::valid_utf8(bytes) {
        vstd::utf8::decode_utf8(bytes)
    } else {
        "<non-utf8>"@
    }
}

/// What the gamepad reports on its console, if anything.
pub open spec fn narration(body: CommandBody) -> Option<Seq<char>> {
    match body {
        CommandBody::Nop => None,
        CommandBody::LedBlink { led_idx, count, period_ms } => if led_idx > 0 {
            None
        } else {
            Some(
                "  [gamepad] LED "@ + text::decimal(led_idx as nat) + " 闪烁 "@ + text::decimal(
                    count as nat,
                ) + " 次，每次 "@ + text::decimal(period_ms as nat) + " ms"@,
            )
        },
        CommandBody::SetSensitivity { joy_scale, knob_scale } => Some(
            "  [gamepad] 灵敏度：摇杆="@ + text::decimal(joy_scale as nat) + "‰，旋钮="@ + text::decimal(
                knob_scale as nat,
            ) + "‰"@,
        ),
        CommandBody::ShowToast { len, bytes } => Some(
            "  [gamepad] OLED 弹出提示：\""@ + message(bytes@.subrange(0, len as int)) + "\""@,
        ),
        CommandBody::SetBatteryMode { simulate } => Some(
            "  [gamepad] 电池模式切换为："@ + if simulate {
                "模拟"@
            } else {
                "真实"@
            },
        ),
        CommandBody::Announce => Some("  [gamepad] 收到 Announce/AssignId（协议方向错误，忽略）"@),
        CommandBody::AssignId { .. } => Some(
            "  [gamepad] 收到 Announce/AssignId（协议方向错误，忽略）"@,
        ),
    }
}

/// What the gamepad reports on its console for a command, if anything.
pub fn narrate(body: &CommandBody) -> (line: Option<String>)
    requires
        body matches CommandBody::ShowToast { len, .. } ==> len <= 5,
    ensures
        match narration(*body) {
            Some(said) => line is Some && line->0@ == said,
            None => line is None,
        },
{
    let mut line = String::new();
    match *body {
        CommandBody::Nop => {
            return None;
        },
        CommandBody::LedBlink { led_idx, count, period_ms } => {
            if led_idx > 0 {
                return None;
            }
            line.append("  [gamepad] LED ");
            text::push_decimal(&mut line, led_idx as u64);
            line.append(" 闪烁 ");
            text::push_decimal(&mut line, count as u64);
            line.append(" 次，每次 ");
            text::push_decimal(&mut line, period_ms as u64);
            line.append(" ms");
        },
        CommandBody::SetSensitivity { joy_scale, knob_scale } => {
            line.append("  [gamepad] 灵敏度：摇杆=");
            text::push_decimal(&mut line, joy_scale as u64);
            line.append("‰，旋钮=");
            text::push_decimal(&mut line, knob_scale as u64);
            line.append("‰");
        },
        CommandBody::ShowToast { len, bytes } => {
            line.append("  [gamepad] OLED 弹出提示：\"");
            let head = vstd::slice::slice_subrange(bytes.as_slice(), 0, len as usize);
            match text::valid_text(head) {
                Some(s) => line.append(s),
                None => line.append("<non-utf8>"),
            }
            line.append("\"");
        },
        CommandBody::SetBatteryMode { simulate } => {
            line.append("  [gamepad] 电池模式切换为：");
            if simulate {
                line.append("模拟");
            } else {
                line.append("真实");
            }
        },
        CommandBody::Announce => {
            line.append("  [gamepad] 收到 Announce/AssignId（协议方向错误，忽略）");
        },
        CommandBody::AssignId { mac: _, receiver_id: _ } => {
            line.append("  [gamepad] 收到 Announce/AssignId（协议方向错误，忽略）");
        },
    }
    assert(line@ =~= narration(*body)->0);
    Some(line)
}

impl SimulatedGamepad {
    /// A gamepad that was just switched on.
    pub fn new() -> (g: SimulatedGamepad)
        ensures
            g.replay == (AntiReplayWindow { last_seq: 0, bitmap: 0 }),
            g.simulate_battery,
    {
        SimulatedGamepad { replay: AntiReplayWindow::new(), simulate_battery: true }
    }

    /// Starts a session and announces its nonce.
    pub fn boot(session: &mut SessionNonce) -> (hello: CommandResponse)
        ensures
            final(session).value == DEMO_INITIAL_NONCE,
            hello == CommandResponse::spec_nonce_hello(DEMO_INITIAL_NONCE),
    {
        session.init_session_nonce(DEMO_INITIAL_NONCE);
        CommandResponse::nonce_hello(session.session_nonce())
    }

    /// The gamepad after a command, and the answer. A command that cannot be decoded
    /// or that was seen before is refused under the default key.
    pub open spec fn handled(
        self,
        decoded: Result<Command, CommandDecodeError>,
        next: SimulatedGamepad,
        resp: CommandResponse,
    ) -> bool {
        match decoded {
            Err(err) => {
                &&& next == self
                &&& resp == CommandResponse::spec_err(0, KeyId::spec_default(), code_for(err))
            },
            Ok(cmd) => if self.replay.verdict(cmd.seq) is Err {
                &&& next == self
                &&& resp == CommandResponse::spec_err(
                    cmd.seq,
                    KeyId::spec_default(),
                    ErrorCode::InvalidArgument,
                )
            } else {
                &&& self.replay.accepted(cmd.seq, next.replay)
                &&& next.simulate_battery == (match cmd.kind {
                    CommandBody::SetBatteryMode { simulate } => simulate,
                    _ => self.simulate_battery,
                })
                &&& resp == answer(cmd)
            },
        }
    }

    /// Carries out a command and answers it. `decoded` is what the wire decoder made
    /// of the command.
    pub fn handle_decoded(&mut self, decoded: Result<Command, CommandDecodeError>) -> (resp: CommandResponse)
        ensures
            old(self).handled(decoded, *final(self), resp),
    {
        let cmd = match decoded {
            Ok(cmd) => cmd,
            Err(err) => {
                return SimulatedGamepad::reject(0, err_code_for(err));
            },
        };
        if self.replay.check_and_update(cmd.seq).is_err() {
            return SimulatedGamepad::reject(cmd.seq, ErrorCode::InvalidArgument);
        }
        match cmd.kind {
            CommandBody::Nop => CommandResponse::ack_with_key(cmd.seq, cmd.key_id),
            CommandBody::LedBlink { led_idx, count: _, period_ms: _ } => {
                if led_idx > 0 {
                    CommandResponse::err_with_key(cmd.seq, cmd.key_id, ErrorCode::InvalidArgument)
                } else {
                    CommandResponse::ack_with_key(cmd.seq, cmd.key_id)
                }
            },
            CommandBody::SetSensitivity { joy_scale: _, knob_scale: _ } => {
                CommandResponse::ack_with_key(cmd.seq, cmd.key_id)
            },
            CommandBody::ShowToast { len: _, bytes: _ } => {
                CommandResponse::ack_with_key(cmd.seq, cmd.key_id)
            },
            CommandBody::SetBatteryMode { simulate } => {
                self.simulate_battery = simulate;
                CommandResponse::ack_with_key(cmd.seq, cmd.key_id)
            },
            CommandBody::Announce => {
                CommandResponse::err_with_key(cmd.seq, cmd.key_id, ErrorCode::Unsupported)
            },
            CommandBody::AssignId { mac: _, receiver_id: _ } => {
                CommandResponse::err_with_key(cmd.seq, cmd.key_id, ErrorCode::Unsupported)
            },
        }
    }

    /// Carries out the command in a packet and answers with a packet.
    pub fn handle_command<D, E>(&mut self, wire_bytes: &[u8], decode_command: D, encode_response: E) -> (bytes: [u8; RESPONSE_LEN]) where
        D: Fn(&[u8]) -> Result<Command, CommandDecodeError>,
        E: Fn(CommandResponse) -> [u8; RESPONSE_LEN],

        requires
            decode_command.requires((wire_bytes,)),
            forall|r: CommandResponse| encode_response.requires((r,)),
        ensures
            exists|decoded: Result<Command, CommandDecodeError>, resp: CommandResponse|
                {
                    &&& #[trigger] decode_command.ensures((wire_bytes,), decoded)
                    &&& old(self).handled(decoded, *final(self), resp)
                    &&& #[trigger] encode_response.ensures((resp,), bytes)
                },
    {
        let decoded = decode_command(wire_bytes);
        let resp = self.handle_decoded(decoded);
        encode_response(resp)
    }

    /// A refusal under the default key.
    pub fn reject(req_seq: u32, code: ErrorCode) -> (resp: CommandResponse)
        ensures
            resp == CommandResponse::spec_err(req_seq, KeyId::spec_default(), code),
    {
        CommandResponse::err_with_key(req_seq, KeyId::default(), code)
    }
}

/// The host's command numbers.
#[derive(Debug, Clone, Copy, PartialEq, Eq, Structural)]
pub struct HostSeqCounter {
    pub last: u32,
}

impl HostSeqCounter {
    /// No number given out yet.
    pub fn new() -> (c: HostSeqCounter)
        ensures
            c.last == 0,
    {
        HostSeqCounter { last: 0 }
    }

    /// The next number.
    pub fn next(&mut self) -> (seq: u32)
        requires
            old(self).last < u32::MAX,
        ensures
            seq == old(self).last + 1,
            final(self).last == seq,
    {
        self.last = self.last + 1;
        self.last
    }
}

// ---- Laws ----

/// A command is carried out at most once.
pub proof fn lemma_repeated_command_is_refused(
    g: SimulatedGamepad,
    cmd: Command,
    next: SimulatedGamepad,
    resp: CommandResponse,
    last: SimulatedGamepad,
    again: CommandResponse,
)
    requires
        g.replay.verdict(cmd.seq) is Ok,
        g.handled(Ok(cmd), next, resp),
        next.handled(Ok(cmd), last, again),
    ensures
        again == CommandResponse::spec_err(cmd.seq, KeyId::spec_default(), ErrorCode::InvalidArgument),
        last == next,
{
}

/// What a gamepad with one light does with a fresh command. It refuses to blink another
/// light and what only an endpoint can do, and carries out everything else; only a command
/// for the battery's mode changes that mode, to what it asks for. It answers under the
/// number and key of the command.
pub proof fn lemma_fresh_command_is_answered(
    g: SimulatedGamepad,
    cmd: Command,
    next: SimulatedGamepad,
    resp: CommandResponse,
)
    requires
        g.replay.verdict(cmd.seq) is Ok,
        g.handled(Ok(cmd), next, resp),
    ensures
        resp.req_seq == cmd.seq,
        resp.key_id == cmd.key_id,
        cmd.kind is Nop || cmd.kind is SetSensitivity || cmd.kind is ShowToast || cmd.kind is SetBatteryMode
            ==> resp.body is Ack,
        cmd.kind is LedBlink && cmd.kind->led_idx == 0 ==> resp.body is Ack,
        cmd.kind is LedBlink && cmd.kind->led_idx > 0 ==> resp.body == crate::protocol::ResponseBody::Error(
            ErrorCode::InvalidArgument,
        ),
        cmd.kind is Announce || cmd.kind is AssignId ==> resp.body == crate::protocol::ResponseBody::Error(
            ErrorCode::Unsupported,
        ),
        cmd.kind is SetBatteryMode ==> next.simulate_battery == cmd.kind->simulate,
        !(cmd.kind is SetBatteryMode) ==> next.simulate_battery == g.simulate_battery,
{
}

/// A command that could not be decoded is refused without a number under the first key:
/// as unsupported if its version or its key is not known, and as invalid otherwise.
pub proof fn lemma_damaged_command_is_refused(
    g: SimulatedGamepad,
    err: CommandDecodeError,
    next: SimulatedGamepad,
    resp: CommandResponse,
)
    requires
        g.handled(Err(err), next, resp),
    ensures
        next == g,
        resp.req_seq == 0,
        resp.key_id.raw == 0,
        err is UnsupportedVersion || err is UnsupportedKeyId <==> resp.body == crate::protocol::ResponseBody::Error(
            ErrorCode::Unsupported,
        ),
        !(err is UnsupportedVersion || err is UnsupportedKeyId) <==> resp.body == crate::protocol::ResponseBody::Error(
            ErrorCode::InvalidArgument,
        ),
{
}

/// A short message is shown as it was sent if it can be read.
pub proof fn lemma_readable_message_is_shown(bytes: Seq<u8>)
    ensures
        vstd::utf8::valid_utf8(bytes) ==> message(bytes) == vstd::utf8::decode_utf8(bytes),
        !vstd::utf8::valid_utf8(bytes) ==> message(bytes) == "<non-utf8>"@,
{
}

/// The gamepad reports exactly what it carries out, and what it must ignore: a heartbeat
/// and a light that it does not have are passed over in silence.
pub proof fn lemma_silence_on_heartbeats_and_missing_lights(body: CommandBody)
    ensures
        narration(body) is None <==> body is Nop || (body is LedBlink && body->led_idx > 0),
{
}

} // verus!
