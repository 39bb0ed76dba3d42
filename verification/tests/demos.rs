use controller::comm::receiver::{CommandOutcome, CommandSource};
use controller::demo::hello::{handle_command, Observations};
use controller::demo::host::{err_code_for, narrate, HostSeqCounter, SimulatedGamepad, DEMO_INITIAL_NONCE};
use controller::demo::subscriber::{
    count_frames, describe_state, frame_line, gap_before, gap_line, process_wire_batch,
    simulate_gamepad_session,
};
use controller::protocol::{
    ButtonBits, Command, CommandBody, CommandDecodeError, CommandResponse, ErrorCode, Frame,
    GamepadState, KeyId, ResponseBody, SessionNonce, COMMAND_LEN, FRAME_LEN, FRAME_MAGIC, RESPONSE_LEN,
};

/// A wire format in which the number of a command is all there is, and which
/// carries nothing over a change of nonce.
fn encode(cmd: Command, nonce: u32) -> [u8; COMMAND_LEN] {
    let mut b = [0u8; COMMAND_LEN];
    b[0..4].copy_from_slice(&cmd.seq.to_le_bytes());
    b[4..8].copy_from_slice(&nonce.to_le_bytes());
    b
}

fn run(gp: &mut SimulatedGamepad, cmd: Command, sent_under: u32, nonce: u32) -> CommandResponse {
    let wire = encode(cmd, sent_under);
    let decode = |bytes: &[u8]| {
        if bytes[4..8] == nonce.to_le_bytes() {
            Ok(cmd)
        } else {
            Err(CommandDecodeError::AuthFailed)
        }
    };
    let answer = std::cell::Cell::new(None);
    let bytes = gp.handle_command(&wire, decode, |resp| {
        answer.set(Some(resp));
        [0u8; RESPONSE_LEN]
    });
    assert_eq!(bytes.len(), RESPONSE_LEN);
    answer.get().unwrap()
}

#[test]
fn happy_path_nop_ack() {
    let mut gp = SimulatedGamepad::new();
    let cmd = Command::with_key(1, KeyId::default(), CommandBody::Nop);
    let resp = run(&mut gp, cmd, DEMO_INITIAL_NONCE, DEMO_INITIAL_NONCE);
    assert_eq!(resp.req_seq, 1);
    assert!(matches!(resp.body, ResponseBody::Ack));
}

#[test]
fn replay_second_time_rejected() {
    let mut gp = SimulatedGamepad::new();
    let cmd = Command::with_key(1, KeyId::default(), CommandBody::Nop);
    let _ = run(&mut gp, cmd, DEMO_INITIAL_NONCE, DEMO_INITIAL_NONCE);
    let resp = run(&mut gp, cmd, DEMO_INITIAL_NONCE, DEMO_INITIAL_NONCE);
    assert!(matches!(resp.body, ResponseBody::Error(_)));
}

#[test]
fn led_idx_out_of_range_rejected() {
    let mut gp = SimulatedGamepad::new();
    let cmd = Command::with_key(
        1,
        KeyId::default(),
        CommandBody::LedBlink { led_idx: 99, count: 1, period_ms: 100 },
    );
    let resp = run(&mut gp, cmd, DEMO_INITIAL_NONCE, DEMO_INITIAL_NONCE);
    assert!(matches!(resp.body, ResponseBody::Error(ErrorCode::InvalidArgument)));
}

#[test]
fn wrong_nonce_fails_hmac() {
    let mut gp = SimulatedGamepad::new();
    let cmd = Command::with_key(1, KeyId::default(), CommandBody::Nop);
    let resp = run(&mut gp, cmd, DEMO_INITIAL_NONCE, 0xCAFEBABE);
    assert!(matches!(resp.body, ResponseBody::Error(_)));
}

#[test]
fn the_gamepad_announces_its_nonce_and_keeps_its_mode() {
    let mut session = SessionNonce::new();
    let hello = SimulatedGamepad::boot(&mut session);
    assert_eq!(hello.body, ResponseBody::NonceHello { nonce: DEMO_INITIAL_NONCE });
    assert_eq!(session.session_nonce(), DEMO_INITIAL_NONCE);
    let mut gp = SimulatedGamepad::new();
    let mut counter = HostSeqCounter::new();
    assert!(gp.simulate_battery);
    let off = CommandBody::SetBatteryMode { simulate: false };
    let resp = gp.handle_decoded(Ok(Command::with_key(counter.next(), KeyId::default(), off)));
    assert_eq!(resp.body, ResponseBody::Ack);
    assert!(!gp.simulate_battery);
    let resp = gp.handle_decoded(Ok(Command::with_key(counter.next(), KeyId::default(), CommandBody::Announce)));
    assert_eq!(resp.body, ResponseBody::Error(ErrorCode::Unsupported));
    assert_eq!(err_code_for(CommandDecodeError::UnsupportedVersion(9)), ErrorCode::Unsupported);
    assert_eq!(err_code_for(CommandDecodeError::UnsupportedKeyId(9)), ErrorCode::Unsupported);
    assert_eq!(err_code_for(CommandDecodeError::BadCrc), ErrorCode::InvalidArgument);
}

#[test]
fn the_gamepad_says_what_it_does() {
    let said = |body: CommandBody| narrate(&body);
    assert_eq!(said(CommandBody::Nop), None);
    assert_eq!(
        said(CommandBody::LedBlink { led_idx: 0, count: 3, period_ms: 100 }).unwrap(),
        "  [gamepad] LED 0 闪烁 3 次，每次 100 ms"
    );
    assert_eq!(said(CommandBody::LedBlink { led_idx: 1, count: 3, period_ms: 100 }), None);
    assert_eq!(
        said(CommandBody::SetSensitivity { joy_scale: 800, knob_scale: 1000 }).unwrap(),
        "  [gamepad] 灵敏度：摇杆=800‰，旋钮=1000‰"
    );
    assert_eq!(
        said(CommandBody::ShowToast { len: 3, bytes: *b"HI!\0\0" }).unwrap(),
        "  [gamepad] OLED 弹出提示：\"HI!\""
    );
    assert_eq!(
        said(CommandBody::ShowToast { len: 1, bytes: [0xFF, 0, 0, 0, 0] }).unwrap(),
        "  [gamepad] OLED 弹出提示：\"<non-utf8>\""
    );
    assert_eq!(
        said(CommandBody::SetBatteryMode { simulate: true }).unwrap(),
        "  [gamepad] 电池模式切换为：模拟"
    );
}

fn encode_frame(frame: Frame) -> [u8; FRAME_LEN] {
    let mut b = [0u8; FRAME_LEN];
    b[0..2].copy_from_slice(&FRAME_MAGIC.to_le_bytes());
    b[2..6].copy_from_slice(&frame.header.seq.to_le_bytes());
    b[6..8].copy_from_slice(&frame.payload.buttons.to_le_bytes());
    b
}

fn decode_frame(b: &[u8; FRAME_LEN]) -> Option<Frame> {
    if b[0..2] != FRAME_MAGIC.to_le_bytes() {
        return None;
    }
    let mut state = GamepadState::empty();
    state.buttons = u16::from_le_bytes([b[6], b[7]]);
    Some(Frame::new(u32::from_le_bytes([b[2], b[3], b[4], b[5]]), state))
}

fn session_wire() -> Vec<[u8; FRAME_LEN]> {
    simulate_gamepad_session()
        .into_iter()
        .map(|(seq, state)| encode_frame(Frame::new(seq, state)))
        .collect()
}

#[test]
fn session_replay_zero_gap() {
    let (ok, gaps) = process_wire_batch(&session_wire(), decode_frame);
    assert_eq!(ok, 6);
    assert_eq!(gaps, 0);
}

#[test]
fn session_replay_detects_missing_frame() {
    let mut wire = session_wire();
    wire.remove(2);
    let (ok, gaps) = process_wire_batch(&wire, decode_frame);
    assert_eq!(ok, 5);
    assert_eq!(gaps, 1);
}

#[test]
fn damaged_frames_do_not_count() {
    let mut wire = session_wire();
    wire[2] = [0u8; FRAME_LEN];
    assert_eq!(process_wire_batch(&wire, decode_frame), (5, 1));
    assert_eq!(count_frames(&vec![None, None]), (0, 0));
    assert_eq!(gap_before(None, 9), None);
    assert_eq!(gap_before(Some(u32::MAX), 0), None);
    assert_eq!(gap_before(Some(1), 5), Some((2, 3)));
    assert_eq!(gap_before(Some(5), 5), Some((6, u32::MAX)));
    assert_eq!(gap_line(2, 5, 3), "  ⚠️  seq gap detected: expected=2, got=5 (missing 3 frames)");
    assert_eq!(gap_line(3, 4, 1), "  ⚠️  seq gap detected: expected=3, got=4 (missing 1 frame)");
    let frame = Frame::new(7, GamepadState::empty());
    let expected = format!("  ← seq={:<4} {}", 7, describe_state(&frame.payload));
    assert_eq!(frame_line(&frame), expected);
}

#[test]
fn describe_state_lists_pressed_buttons() {
    let mut state = GamepadState::empty();
    state.set_button(ButtonBits::Btn1, true);
    state.set_button(ButtonBits::Btn3, true);
    let text = describe_state(&state);
    assert!(text.contains("Btn1+Btn3"));
}

#[test]
fn states_are_described_in_columns() {
    let s = GamepadState { buttons: 0b1, joy_x: -12, joy_y: 32_100, knob_1: 5, knob_2: 65_535 };
    let btns = "Btn1";
    let expected = format!(
        "btn={:<12} joy=({:>+6},{:>+6}) knob=({:>5},{:>5})",
        btns, s.joy_x, s.joy_y, s.knob_1, s.knob_2
    );
    assert_eq!(describe_state(&s), expected);
    let idle = format!("btn={:<12} joy=({:>+6},{:>+6}) knob=({:>5},{:>5})", "─", 0, 0, 0, 0);
    assert_eq!(describe_state(&GamepadState::empty()), idle);
}

#[test]
fn the_handler_blinks_and_refuses_the_rest() {
    let mut seen = Observations::new();
    let blink = CommandBody::LedBlink { led_idx: 0, count: 3, period_ms: 100 };
    let cmd = |kind| Command::with_key(1, KeyId::default(), kind);
    assert_eq!(handle_command(CommandSource::EspNow, &cmd(blink), &mut seen), CommandOutcome::Done);
    assert_eq!((seen.invocations, seen.last_led_count), (1, 3));
    assert_eq!(
        handle_command(CommandSource::EspNow, &cmd(CommandBody::Nop), &mut seen),
        CommandOutcome::Refused(ErrorCode::Unsupported)
    );
    assert_eq!(seen.invocations, 1);
}
