use controller::comm::dispatch::DispatchState;
use controller::comm::keyring::Keyring;
use controller::comm::metrics::DropMetrics;
use controller::comm::notifier::signals::{enqueue_response, ResponseChannel, OUTBOUND_QUEUE_DEPTH};
use controller::comm::peer_registry::{PeerInfo, PeerRegistry};
use controller::comm::receiver::{CommandOutcome, CommandSource};
use controller::comm::replay::ReplayGuard;
use controller::controller::hal::analog::AnalogInput;
use controller::controller::hal::battery::{
    battery_level_state, classify_battery, fire_low_battery_alert, on_battery_sample,
    set_battery_level_relaxed, update_battery_level_state, BatteryLevel, BatteryMonitor, BatteryStatus,
    SimulatedBatteryMonitor,
};
use controller::controller::hal::button::{Button, ButtonState};
use controller::controller::hal::joystick::{Joystick, JoystickReading};
use controller::controller::hal::led::Led;
use controller::controller::hal::led_effects::{
    apply_color_blink, apply_idle_state, play_effect, set_button_led_state, set_target,
    signal_led_effect, ButtonLedState, LedEffect, LedEffectSignal,
};
use controller::controller::hal::post::check_adc;
use controller::controller::input::{
    apply_sensitivity, update_button_led_state, InputSampler, RawInputs, SampleOutput,
};
use controller::controller::main_loop::{on_sample, MainLoop};
use controller::controller::metrics::{flash_write_count, record_flash_write, FlashMetrics};
use controller::controller::relay::RelayState;
use controller::controller::transport::control::{
    broadcast_response, dispatch_command_from_ble, dispatch_command_from_esp_now,
    dispatch_decoded_from_ble, joy_sensitivity, knob_sensitivity, set_joy_sensitivity,
    set_knob_sensitivity, ControlState,
};
use controller::controller::transport::esp_now::link::{
    ensure_peer, kept_len, must_add_peer, SendError, BROADCAST_ADDRESS,
};
use controller::controller::transport::esp_now::{init_notifier, EspNowTransport};
use controller::controller::transport::{
    CompositeError, CompositeTransport, DefmtLogTransport, Transport,
};
use controller::controller::ui::layout::{render, OledOp, UiState};
use controller::controller::ui::selector::{
    active_dest_mask, current_mode, handle_input, snapshot, SelectorInput, SelectorSnapshot,
    TargetSelectorInner, UiMode, BROADCAST_MASK,
};
use controller::controller::ui::toast::Toast;
use controller::protocol::{
    ButtonBits, Command, CommandBody, CommandDecodeError, CommandResponse, ErrorCode, Frame,
    GamepadState, KeyId, ResponseBody, COMMAND_LEN,
};
use controller::time::{Duration, Instant};

fn ms(t: u64) -> Instant {
    Instant::from_millis(t)
}

// ---- Battery ----

#[test]
fn classify_battery_ranges() {
    assert_eq!(classify_battery(0), BatteryLevel::Empty);
    assert_eq!(classify_battery(4), BatteryLevel::Empty);
    assert_eq!(classify_battery(5), BatteryLevel::Critical);
    assert_eq!(classify_battery(9), BatteryLevel::Critical);
    assert_eq!(classify_battery(10), BatteryLevel::Low);
    assert_eq!(classify_battery(19), BatteryLevel::Low);
    assert_eq!(classify_battery(20), BatteryLevel::Normal);
    assert_eq!(classify_battery(50), BatteryLevel::Normal);
    assert_eq!(classify_battery(100), BatteryLevel::Normal);
}

#[test]
fn battery_level_is_alert() {
    assert!(!BatteryLevel::Normal.is_alert());
    assert!(BatteryLevel::Low.is_alert());
    assert!(BatteryLevel::Critical.is_alert());
    assert!(BatteryLevel::Empty.is_alert());
}

#[test]
fn battery_level_from_u8_safe_default() {
    assert_eq!(BatteryLevel::from_u8(0), BatteryLevel::Normal);
    assert_eq!(BatteryLevel::from_u8(1), BatteryLevel::Low);
    assert_eq!(BatteryLevel::from_u8(2), BatteryLevel::Critical);
    assert_eq!(BatteryLevel::from_u8(3), BatteryLevel::Empty);
    assert_eq!(BatteryLevel::from_u8(255), BatteryLevel::Normal);
}

#[test]
fn update_battery_level_state_returns_none_when_unchanged() {
    let mut status = BatteryStatus::new();
    status.level_byte = BatteryLevel::Normal.as_u8();
    let changed = update_battery_level_state(&mut status, BatteryLevel::Normal);
    assert!(changed.is_none());
}

#[test]
fn update_battery_level_state_returns_some_on_change() {
    let mut status = BatteryStatus::new();
    status.level_byte = BatteryLevel::Normal.as_u8();
    let changed = update_battery_level_state(&mut status, BatteryLevel::Low);
    assert_eq!(changed, Some(BatteryLevel::Low));
    let unchanged = update_battery_level_state(&mut status, BatteryLevel::Low);
    assert!(unchanged.is_none());
    assert_eq!(battery_level_state(&status), BatteryLevel::Low);
}

#[test]
fn simulated_battery_drains_and_starts_over() {
    let mut m = SimulatedBatteryMonitor::new();
    for expected in (0..=100).rev() {
        assert_eq!(m.sample(), expected);
    }
    assert_eq!(m.sample(), 100);
}

#[test]
fn battery_alerts_go_out_on_changes_only() {
    let mut status = BatteryStatus::new();
    let mut effects = LedEffectSignal::new();
    assert!(on_battery_sample(&mut status, 60, &mut effects).is_none());
    let toast = on_battery_sample(&mut status, 15, &mut effects).unwrap();
    assert_eq!(toast.as_bytes(), b"LOW");
    assert_eq!(effects.try_take(), Some(LedEffect { led_idx: 1, count: 2, period_ms: 500 }));
    assert!(on_battery_sample(&mut status, 14, &mut effects).is_none());
    assert!(effects.try_take().is_none());
    assert_eq!(on_battery_sample(&mut status, 7, &mut effects).unwrap().as_bytes(), b"CRIT");
    assert_eq!(effects.try_take(), Some(LedEffect { led_idx: 1, count: 4, period_ms: 300 }));
    assert_eq!(fire_low_battery_alert(BatteryLevel::Empty, &mut effects).as_bytes(), b"DEAD");
    assert_eq!(effects.try_take(), Some(LedEffect { led_idx: 1, count: 6, period_ms: 200 }));
    assert_eq!(on_battery_sample(&mut status, 80, &mut effects).unwrap().as_bytes(), b"BAT+");
    assert!(effects.try_take().is_none());
    set_battery_level_relaxed(&mut status, 33);
    assert_eq!(status.percent, 33);
}

// ---- Counting, lights, power-on checks ----

#[test]
fn flash_write_counter_is_monotonic() {
    let mut metrics = FlashMetrics::new();
    let before = flash_write_count(&metrics);
    record_flash_write(&mut metrics);
    assert_eq!(flash_write_count(&metrics), before + 1);
}

#[test]
fn effects_are_limited_and_end_dark() {
    let mut slot = LedEffectSignal::new();
    signal_led_effect(&mut slot, 0, 0, 10);
    let effect = slot.try_take().unwrap();
    assert_eq!(effect, LedEffect { led_idx: 0, count: 1, period_ms: 50 });
    let steps = play_effect(&LedEffect { led_idx: 1, count: 3, period_ms: 300 });
    assert_eq!(steps.len(), 6);
    assert!(steps[0].on && !steps[1].on && !steps[5].on);
    assert!(steps.iter().all(|s| s.wait_ms == 150 && s.led_idx == 1));
}

#[test]
fn lights_show_the_buttons() {
    let mut state = ButtonLedState::new();
    let (mut a, mut b) = (Led::new(true), Led::new(false));
    assert!(!a.level_high());
    assert!(b.level_high());
    set_button_led_state(&mut state, true, false);
    apply_idle_state(&state, &mut a, &mut b);
    assert!(a.is_on() && !b.is_on());
    set_target(&mut a, &mut b, 1, true);
    assert!(b.is_on() && !b.level_high());
    set_target(&mut a, &mut b, 7, false);
    assert!(a.is_on() && b.is_on());
    a.toggle();
    assert!(!a.is_on());
    let mut color = Led::new(true);
    apply_color_blink(&mut color, 399);
    assert!(color.is_on());
    apply_color_blink(&mut color, 400);
    assert!(!color.is_on());
}

#[test]
fn readings_at_the_rails_fail_the_check() {
    assert!(check_adc(&[("x", 2000), ("y", 1)]));
    assert!(!check_adc(&[("x", 2000), ("y", 0)]));
    assert!(!check_adc(&[("x", 4095)]));
    assert!(check_adc(&[]));
}

// ---- Inputs ----

#[test]
fn readings_are_averaged_over_the_last_four() {
    let mut a = AnalogInput::new(0);
    assert_eq!(a.read_raw(Some(100)), 100);
    assert_eq!(a.read_raw(Some(200)), 150);
    assert_eq!(a.read_raw(Some(300)), 200);
    assert_eq!(a.read_raw(Some(400)), 250);
    assert_eq!(a.read_raw(Some(500)), 350);
    assert_eq!(a.read_raw(None), (300 + 400 + 500 + 2048) / 4);
}

#[test]
fn knobs_run_from_zero_to_full_scale() {
    let mut k = AnalogInput::new(0);
    assert_eq!(k.read_normalized(Some(0)), 0);
    let mut k = AnalogInput::new(0);
    assert_eq!(k.read_normalized(Some(4095)), 1000);
    let mut k = AnalogInput::new(0);
    assert_eq!(k.read_normalized(Some(2048)), 500);
}

#[test]
fn stick_has_a_dead_zone_and_reaches_both_ends() {
    let read = |v: u16| AnalogInput::new(200).read_centered(Some(v));
    assert_eq!(read(2048), 0);
    assert_eq!(read(2248), 0);
    assert_eq!(read(1848), 0);
    assert_eq!(read(2249), 0);
    assert_eq!(read(2348), 54);
    assert_eq!(read(1748), -54);
    assert_eq!(read(4095), 1000);
    assert_eq!(read(0), -1000);
}

#[test]
fn calibration_follows_a_stick_at_rest_only() {
    let mut a = AnalogInput::new(200);
    assert_eq!(a.calibrate(&[Some(2100); 32]), 2100);
    assert_eq!(a.zero_offset(), 2100);
    let mut a = AnalogInput::new(200);
    assert_eq!(a.calibrate(&[Some(3000); 32]), 2048);
}

#[test]
fn buttons_ignore_bouncing() {
    let mut b = Button::new(false, ms(0));
    assert_eq!(b.poll(true, ms(5)), ButtonState::Released);
    assert_eq!(b.poll(false, ms(10)), ButtonState::Released);
    assert_eq!(b.poll(true, ms(15)), ButtonState::Released);
    assert_eq!(b.poll(false, ms(20)), ButtonState::Released);
    assert_eq!(b.poll(false, ms(39)), ButtonState::Released);
    assert_eq!(b.poll(false, ms(40)), ButtonState::JustPressed);
    assert!(b.is_pressed());
    assert_eq!(b.poll(false, ms(50)), ButtonState::Pressed);
    assert_eq!(b.poll(true, ms(60)), ButtonState::Pressed);
    assert_eq!(b.poll(true, ms(80)), ButtonState::JustReleased);
    assert_eq!(b.state(), ButtonState::JustReleased);
    assert!(ButtonState::JustPressed.is_down() && !ButtonState::JustReleased.is_down());
}

fn sampler() -> InputSampler {
    let b = Button::new(true, ms(0));
    let stick = Joystick::new(AnalogInput::new(200), AnalogInput::new(200), b);
    InputSampler::new(b, b, b, b, stick, AnalogInput::new(0), AnalogInput::new(0))
}

fn raw() -> RawInputs {
    RawInputs {
        button_1: false,
        button_2: false,
        button_3: false,
        button_4: false,
        joy_button: false,
        joy_x: Some(2048),
        joy_y: Some(2048),
        knob_1: Some(0),
        knob_2: Some(4095),
    }
}

#[test]
fn a_sample_holds_every_control() {
    let mut s = sampler();
    let input = RawInputs { button_1: true, joy_button: true, joy_x: Some(4095), joy_y: Some(4095), ..raw() };
    let _ = s.poll(&input, ms(10));
    let out = s.poll(&input, ms(40));
    assert_eq!(out.buttons[0], ButtonState::JustPressed);
    assert_eq!(out.joy_button, ButtonState::JustPressed);
    assert_eq!(out.state.joy_x, 1000);
    assert_eq!(out.state.joy_y, -1000);
    assert_eq!(out.state.knob_1, 0);
    assert_eq!(out.state.knob_2, 1000);
    assert!(out.state.is_pressed(ButtonBits::Btn1));
    assert!(!out.state.is_pressed(ButtonBits::Btn2));
    assert!(out.state.is_pressed(ButtonBits::JoyBtn));
    assert!(!out.state.is_pressed(ButtonBits::Switch));
    assert!(!out.joystick.is_centered());
    assert!(out.joystick.is_button_down());
    assert!(JoystickReading::default().is_centered());
    let mut leds = ButtonLedState::new();
    update_button_led_state(&mut leds, &out);
    assert_eq!(leds.bits, 1);
}

// ---- Target selector ----

fn base_input(now: Instant) -> SelectorInput {
    SelectorInput { switch_on: false, btn1_just_pressed: false, btn2_just_pressed: false, joy_y: 0, now }
}

#[test]
fn peer_info_role_bytes_trims_padding() {
    let peer = PeerInfo { receiver_id: 0, mac: [0; 6], role: [b'l', b'd', 0], rssi_dbm: -42 };
    assert_eq!(peer.role_bytes(), b"ld");
}

#[test]
fn broadcast_mask_is_all_ones() {
    assert_eq!(BROADCAST_MASK, u32::MAX);
}

#[test]
fn snapshot_reflects_real_registry() {
    let mut reg = PeerRegistry::new();
    let sel = TargetSelectorInner::new();
    assert_eq!(snapshot(&sel, &reg, Instant::from_ticks(0)).candidates.len(), 0);

    let _ = reg.upsert([0x11, 0, 0, 0, 0, 0], *b"mot", -40, Instant::from_ticks(0));
    let _ = reg.upsert([0x22, 0, 0, 0, 0, 0], *b"led", -50, Instant::from_ticks(0));
    let snap = snapshot(&sel, &reg, Instant::from_ticks(0));
    assert_eq!(snap.candidates.len(), 2);
    assert_eq!(snap.candidates.as_slice()[0].receiver_id, 0);
    assert_eq!(snap.candidates.as_slice()[1].receiver_id, 1);
}

fn two_endpoints() -> PeerRegistry {
    let mut reg = PeerRegistry::new();
    let _ = reg.upsert([0x11, 0, 0, 0, 0, 0], *b"mot", -40, Instant::from_ticks(0));
    let _ = reg.upsert([0x22, 0, 0, 0, 0, 0], *b"led", -50, Instant::from_ticks(0));
    reg
}

/// A long press that ends at `end`.
fn long_press(sel: &mut TargetSelectorInner, reg: &PeerRegistry, end: u64) -> bool {
    let _ = handle_input(sel, reg, SelectorInput { switch_on: true, ..base_input(ms(end - 800)) });
    let out = handle_input(sel, reg, base_input(ms(end)));
    out.just_entered || out.just_exited
}

#[test]
fn choosing_a_target_with_the_controls() {
    let reg = two_endpoints();
    let mut sel = TargetSelectorInner::new();
    assert_eq!(active_dest_mask(&sel), BROADCAST_MASK);
    assert!(long_press(&mut sel, &reg, 1000));
    assert_eq!(current_mode(&sel), UiMode::Selecting);
    assert_eq!(sel.pending_mask, 0);
    let down = SelectorInput { joy_y: -1000, ..base_input(ms(1100)) };
    assert!(handle_input(&mut sel, &reg, down).suppress_frame_send);
    assert_eq!(sel.cursor, 1);
    let _ = handle_input(&mut sel, &reg, SelectorInput { joy_y: -1000, ..base_input(ms(1110)) });
    assert_eq!(sel.cursor, 1);
    let _ = handle_input(&mut sel, &reg, SelectorInput { joy_y: 399, ..base_input(ms(1120)) });
    let _ = handle_input(&mut sel, &reg, SelectorInput { btn1_just_pressed: true, ..base_input(ms(1130)) });
    assert_eq!(sel.pending_mask, 0b10);
    assert_eq!(active_dest_mask(&sel), BROADCAST_MASK);
    assert!(long_press(&mut sel, &reg, 3000));
    assert_eq!(active_dest_mask(&sel), 0b10);
    assert_eq!(current_mode(&sel), UiMode::Normal);
}

#[test]
fn leaving_without_a_choice_sends_to_all() {
    let reg = two_endpoints();
    let mut sel = TargetSelectorInner::new();
    assert!(long_press(&mut sel, &reg, 1000));
    let add = SelectorInput { btn1_just_pressed: true, ..base_input(ms(1100)) };
    let _ = handle_input(&mut sel, &reg, add);
    let remove = SelectorInput { btn2_just_pressed: true, ..base_input(ms(1200)) };
    let _ = handle_input(&mut sel, &reg, remove);
    assert_eq!(sel.pending_mask, 0);
    assert!(long_press(&mut sel, &reg, 3000));
    assert_eq!(active_dest_mask(&sel), BROADCAST_MASK);
}

#[test]
fn choosing_times_out_and_short_presses_do_nothing() {
    let reg = two_endpoints();
    let mut sel = TargetSelectorInner::new();
    let _ = handle_input(&mut sel, &reg, SelectorInput { switch_on: true, ..base_input(ms(100)) });
    let out = handle_input(&mut sel, &reg, base_input(ms(899)));
    assert!(!out.just_entered && !out.suppress_frame_send);
    assert!(long_press(&mut sel, &reg, 2000));
    assert_eq!(snapshot(&sel, &reg, ms(5000)).remaining_ms, 7000);
    assert!(handle_input(&mut sel, &reg, base_input(ms(11_999))).suppress_frame_send);
    let out = handle_input(&mut sel, &reg, base_input(ms(12_000)));
    assert!(out.just_exited && !out.suppress_frame_send);
    assert_eq!(snapshot(&sel, &reg, ms(12_000)).remaining_ms, 0);
}

#[test]
fn cursor_goes_round() {
    let reg = two_endpoints();
    let mut sel = TargetSelectorInner::new();
    assert!(long_press(&mut sel, &reg, 1000));
    let _ = handle_input(&mut sel, &reg, SelectorInput { joy_y: 1000, ..base_input(ms(1100)) });
    assert_eq!(sel.cursor, 1);
    let _ = handle_input(&mut sel, &reg, base_input(ms(1110)));
    let _ = handle_input(&mut sel, &reg, SelectorInput { joy_y: -1000, ..base_input(ms(1120)) });
    assert_eq!(sel.cursor, 0);
}

// ---- Main loop ----

fn no_bytes(_cmd: Command) -> [u8; COMMAND_LEN] {
    [0u8; COMMAND_LEN]
}

#[test]
fn every_third_sample_is_sent() {
    let mut main = MainLoop::new();
    let mut sel = TargetSelectorInner::new();
    let mut notifier = init_notifier([1; 6], Keyring::new(), PeerRegistry::new(), ReplayGuard::new());
    let sample = SampleOutput::default();
    let mut sent = vec![];
    for t in 0..7 {
        if let Some(f) = on_sample(
            &mut main,
            &mut sel,
            &mut notifier,
            &sample,
            sample.state,
            ms(10 * t),
            Duration::from_millis(1000),
            no_bytes,
        ) {
            sent.push((t, f.header.seq, f.dest_mask));
        }
    }
    assert_eq!(sent, vec![(0, 0, u32::MAX), (3, 1, u32::MAX), (6, 2, u32::MAX)]);
}

#[test]
fn opening_the_list_looks_for_endpoints_and_silences_frames() {
    let mut main = MainLoop::new();
    let mut sel = TargetSelectorInner::new();
    let mut notifier = init_notifier([1; 6], Keyring::new(), two_endpoints(), ReplayGuard::new());
    let mut sample = SampleOutput::default();
    let ttl = Duration::from_millis(500);
    sample.joy_button = ButtonState::Pressed;
    let first =
        on_sample(&mut main, &mut sel, &mut notifier, &sample, sample.state, ms(0), ttl, no_bytes);
    assert!(first.is_some());
    sample.joy_button = ButtonState::JustReleased;
    main.tick = 3;
    let second =
        on_sample(&mut main, &mut sel, &mut notifier, &sample, sample.state, ms(900), ttl, no_bytes);
    assert!(second.is_none());
    assert_eq!(notifier.peers().len(), 0);
    assert!(notifier.command_signal.try_receive().is_some());
}

// ---- Commands ----

fn led(led_idx: u8, count: u8, period_ms: u16) -> CommandBody {
    CommandBody::LedBlink { led_idx, count, period_ms }
}

fn command(seq: u32, kind: CommandBody) -> Command {
    Command::with_key(seq, KeyId::default(), kind)
}

#[test]
fn commands_change_settings_and_ask_for_saving() {
    let mut s = ControlState::new();
    let mut net = DispatchState::new();
    dispatch_decoded_from_ble(
        Ok(command(1, CommandBody::SetSensitivity { joy_scale: 800, knob_scale: 5000 })),
        &mut s,
        &mut net,
        ms(1),
    );
    assert_eq!((joy_sensitivity(&s), knob_sensitivity(&s)), (800, 1000));
    let saved = s.persist_dirty.unwrap();
    assert_eq!((saved.joy_sensitivity, saved.knob_sensitivity), (800, 1000));
    assert_eq!(saved.replay_windows[0].last_seq(), 1);
    dispatch_decoded_from_ble(
        Ok(command(2, CommandBody::SetBatteryMode { simulate: false })),
        &mut s,
        &mut net,
        ms(2),
    );
    assert!(!s.battery_simulated);
    dispatch_decoded_from_ble(
        Ok(command(3, CommandBody::ShowToast { len: 9, bytes: *b"HELLO" })),
        &mut s,
        &mut net,
        ms(3),
    );
    assert_eq!(s.toast.unwrap().as_bytes(), b"HELLO");
    assert_eq!(s.host_seen_at, Some(ms(3)));
    set_joy_sensitivity(&mut s, 1);
    set_knob_sensitivity(&mut s, 2);
    assert_eq!((joy_sensitivity(&s), knob_sensitivity(&s)), (1, 2));
}

#[test]
fn answers_go_out_on_both_ways() {
    let mut s = ControlState::new();
    let mut net = DispatchState::new();
    dispatch_decoded_from_ble(Ok(command(7, CommandBody::Nop)), &mut s, &mut net, ms(1));
    let ack = CommandResponse::ack_with_key(7, KeyId::default());
    assert_eq!(s.ble_responses.try_receive(), Some(ack));
    assert_eq!(net.response_signal.try_receive(), Some(ack));
    s.auto_ack = false;
    dispatch_decoded_from_ble(Ok(command(8, CommandBody::Nop)), &mut s, &mut net, ms(2));
    assert_eq!(s.ble_responses.try_receive(), None);
    broadcast_response(ack, &mut s, &mut net);
    assert_eq!(s.ble_responses.try_receive(), Some(ack));
}

#[test]
fn bad_commands_are_refused_or_ignored() {
    let mut s = ControlState::new();
    let mut net = DispatchState::new();
    let cases = [
        (led(2, 1, 100), ErrorCode::InvalidArgument),
        (led(0, 0, 100), ErrorCode::InvalidArgument),
        (led(0, 1, 19), ErrorCode::InvalidArgument),
        (CommandBody::Announce, ErrorCode::Unsupported),
        (CommandBody::AssignId { mac: [0; 6], receiver_id: 1 }, ErrorCode::Unsupported),
    ];
    for (i, (body, code)) in cases.into_iter().enumerate() {
        dispatch_decoded_from_ble(Ok(command(i as u32 + 1, body)), &mut s, &mut net, ms(1));
        assert_eq!(s.ble_responses.try_receive().unwrap().body, ResponseBody::Error(code));
        let _ = net.response_signal.try_receive();
    }
    assert!(s.led_effects.try_take().is_none());
    dispatch_decoded_from_ble(Ok(command(99, led(1, 2, 20))), &mut s, &mut net, ms(1));
    assert_eq!(s.led_effects.try_take(), Some(LedEffect { led_idx: 1, count: 2, period_ms: 50 }));
    let _ = s.ble_responses.try_receive();
    dispatch_command_from_ble(&[0u8; 3], |_| Err(CommandDecodeError::BadLength), &mut s, &mut net, ms(9));
    assert_eq!(s.host_seen_at, Some(ms(1)));
    assert_eq!(s.ble_responses.try_receive(), None);
}

#[test]
fn a_repeated_command_is_ignored_on_either_way() {
    let mut s = ControlState::new();
    let mut net = DispatchState::new();
    dispatch_decoded_from_ble(Ok(command(5, CommandBody::Nop)), &mut s, &mut net, ms(1));
    let _ = s.ble_responses.try_receive();
    dispatch_decoded_from_ble(Ok(command(5, CommandBody::Nop)), &mut s, &mut net, ms(2));
    assert_eq!(s.ble_responses.try_receive(), None);
    assert_eq!(s.host_seen_at, Some(ms(1)));
    assert!(net.replay.check(KeyId::default(), 5).is_err());
}

#[test]
fn replay_windows_are_saved_every_hundred_numbers() {
    let mut s = ControlState::new();
    let mut net = DispatchState::new();
    dispatch_decoded_from_ble(Ok(command(99, CommandBody::Nop)), &mut s, &mut net, ms(1));
    assert!(s.replay_dirty.is_none());
    dispatch_decoded_from_ble(Ok(command(100, CommandBody::Nop)), &mut s, &mut net, ms(1));
    assert_eq!(s.replay_dirty.unwrap()[0].last_seq(), 100);
    s.replay_dirty = None;
    dispatch_decoded_from_ble(Ok(command(199, CommandBody::Nop)), &mut s, &mut net, ms(1));
    assert!(s.replay_dirty.is_none());
    dispatch_decoded_from_ble(Ok(command(200, CommandBody::Nop)), &mut s, &mut net, ms(1));
    assert!(s.replay_dirty.is_some());
}

#[test]
fn commands_from_the_air_are_copied_to_the_host() {
    let mut s = ControlState::new();
    let replay = ReplayGuard::new();
    let mut drops = DropMetrics::new();
    let cmd = command(3, led(5, 1, 100));
    let out =
        dispatch_command_from_esp_now(CommandSource::EspNow, &cmd, &mut s, &replay, &mut drops, ms(4));
    assert_eq!(out, CommandOutcome::Refused(ErrorCode::InvalidArgument));
    assert_eq!(
        s.ble_responses.try_receive().unwrap().body,
        ResponseBody::Error(ErrorCode::InvalidArgument)
    );
    let nop = command(4, CommandBody::Nop);
    let out =
        dispatch_command_from_esp_now(CommandSource::EspNow, &nop, &mut s, &replay, &mut drops, ms(5));
    assert_eq!(out, CommandOutcome::Done);
    s.auto_ack = false;
    let out =
        dispatch_command_from_esp_now(CommandSource::EspNow, &nop, &mut s, &replay, &mut drops, ms(6));
    assert_eq!(out, CommandOutcome::NoReply);
    assert_eq!(s.host_seen_at, Some(ms(6)));
}

// ---- Ways for frames ----

struct Broken;

impl Transport for Broken {
    type Error = u8;

    fn sends(_before: Self, _frame: Frame, _after: Self, result: Result<(), u8>) -> bool {
        result == Err(9)
    }

    fn send(&mut self, _frame: &Frame) -> Result<(), u8> {
        Err(9)
    }
}

#[test]
fn both_ways_are_used_whatever_happens() {
    let frame = Frame::with_dest(1, GamepadState::empty(), 1);
    let mut t = CompositeTransport::new(Broken, DefmtLogTransport::default());
    assert!(matches!(t.send(&frame), Err(CompositeError::First(9))));
    assert!(t.second.line.is_some());
    let mut t = CompositeTransport::new(DefmtLogTransport::default(), Broken);
    assert!(matches!(t.send(&frame), Err(CompositeError::Second(9))));
    let mut t = CompositeTransport::new(DefmtLogTransport::default(), DefmtLogTransport::new(1));
    assert!(t.send(&frame).is_ok());
    let mut t = CompositeTransport::new(Broken, Broken);
    assert!(matches!(t.send(&frame), Err(CompositeError::First(9))));
}

#[test]
fn frames_wait_for_the_radio() {
    let notifier = init_notifier([1; 6], Keyring::new(), PeerRegistry::new(), ReplayGuard::new());
    let mut t = EspNowTransport::new(notifier);
    let frame = Frame::with_dest(8, GamepadState::empty(), 1);
    assert!(t.send(&frame).is_ok());
    assert_eq!(t.notifier.frame_signal.try_take(), Some(frame));
    let config = t.notifier.handler_config.unwrap();
    assert_eq!(config.role_tag, *b"joy");
}

#[test]
fn log_lines_for_first_changed_and_some() {
    let mut log = DefmtLogTransport::new(2);
    let mut state = GamepadState { buttons: 0, joy_x: -5, joy_y: 1000, knob_1: 7, knob_2: 0 };
    let _ = log.send(&Frame::with_dest(1, state, 1));
    assert_eq!(
        log.line.as_deref(),
        Some("[TX start] seq=1 btns=0x0000 joy=(-5,1000) knob=(7,0)")
    );
    let _ = log.send(&Frame::with_dest(2, state, 1));
    assert!(log.line.is_none());
    let _ = log.send(&Frame::with_dest(3, state, 1));
    assert!(log.line.as_deref().unwrap().starts_with("[TX tick]"));
    state.buttons = 0xAB;
    let _ = log.send(&Frame::with_dest(4, state, 1));
    assert!(log.line.as_deref().unwrap().starts_with("[TX edge] seq=4 btns=0x00ab"));
    assert_eq!(DefmtLogTransport::new(0).print_every, 1);
}

#[test]
fn radio_addresses_and_echoes() {
    assert!(!must_add_peer(&BROADCAST_ADDRESS, false));
    assert!(must_add_peer(&[1; 6], false));
    assert!(ensure_peer(&[1; 6], true, false).is_ok());
    assert_eq!(ensure_peer(&[1; 6], false, false), Err(SendError::PeerFull));
    assert!(ensure_peer(&[1; 6], false, true).is_ok());
    assert_eq!(kept_len(&[1; 6], &[1; 6], 10), None);
    assert_eq!(kept_len(&[1; 6], &[2; 6], 10), Some(10));
    assert_eq!(kept_len(&[1; 6], &[2; 6], 300), Some(250));
}

// ---- Relay to the host ----

#[test]
fn relay_tells_the_nonce_and_then_the_endpoints() {
    let mut reg = two_endpoints();
    let _ = reg.upsert([0x33; 6], *b"x\0\0", -128, Instant::from_ticks(0));
    let mut chan = ResponseChannel::new();
    let mut drops = DropMetrics::new();
    let mut relay = RelayState::Idle;
    assert_eq!(relay.resume(false, 5, &reg, &mut chan, &mut drops), 2000);
    assert_eq!(chan.try_receive(), None);
    assert_eq!(relay.resume(true, 5, &reg, &mut chan, &mut drops), 2000);
    assert_eq!(chan.try_receive(), Some(CommandResponse::nonce_hello(5)));
    let mut macs = vec![];
    while let Some(r) = chan.try_receive() {
        if let ResponseBody::AnnounceReply { mac, rssi_dbm, .. } = r.body {
            macs.push((mac[0], rssi_dbm));
        }
    }
    assert_eq!(macs, vec![(0x11, -40), (0x22, -50), (0x33, -127)]);
}

#[test]
fn relay_waits_for_room_and_gives_up() {
    let reg = two_endpoints();
    let mut chan = ResponseChannel::new();
    let mut drops = DropMetrics::new();
    for _ in 0..OUTBOUND_QUEUE_DEPTH - 1 {
        enqueue_response(&mut chan, &mut drops, CommandResponse::nonce_hello(1));
    }
    let mut relay = RelayState::Idle;
    for _ in 0..25 {
        assert_eq!(relay.resume(true, 5, &reg, &mut chan, &mut drops), 20);
    }
    assert_eq!(relay.resume(true, 5, &reg, &mut chan, &mut drops), 2000);
    assert!(matches!(relay, RelayState::Idle));
    assert_eq!(relay.resume(true, 5, &reg, &mut chan, &mut drops), 20);
    let _ = chan.try_receive();
    let _ = chan.try_receive();
    assert_eq!(relay.resume(true, 5, &reg, &mut chan, &mut drops), 20);
    assert_eq!(chan.free_capacity(), 1);
}

// ---- Screen ----

fn ui() -> UiState {
    UiState {
        mode: UiMode::Normal,
        frame: Frame::with_dest(
            0xABCD,
            GamepadState { buttons: 1, joy_x: 1000, joy_y: -7, knob_1: 42, knob_2: 1000 },
            1,
        ),
        ble_connected: true,
        esp_now_ready: false,
        host_heartbeat_alive: false,
        battery: 9,
        battery_level: BatteryLevel::Normal,
        active_dest_mask: u32::MAX,
        selector: SelectorSnapshot::empty(),
        toast: None,
    }
}

fn texts(ops: &[OledOp<String>]) -> Vec<(i32, i32, String, bool)> {
    ops.iter()
        .filter_map(|op| match op {
            OledOp::Text { x, y, text, lit } => Some((*x, *y, text.clone(), *lit)),
            _ => None,
        })
        .collect()
}

#[test]
fn normal_screen_shows_everything() {
    let ops = render(&ui(), 0);
    assert_eq!(ops[0], OledOp::Clear);
    let t = texts(&ops);
    let has = |x: i32, y: i32, s: &str| t.iter().any(|e| e.0 == x && e.1 == y && e.2 == s);
    assert!(has(0, 0, "Ctl"));
    assert!(has(104, 0, "  9%"));
    assert!(has(78, 0, ">ALL"));
    assert!(has(0, 22, "Joy X=+1000 Y=-0007"));
    assert!(has(0, 32, "Kn  K1=0042 K2=1000"));
    assert!(has(0, 52, "Seq 0x0000ABCD  30Hz"));
    assert!(ops.contains(&OledOp::Rule { y: 11 }));
    assert!(ops.contains(&OledOp::Fill { x: 28, y: 3, w: 4, h: 4 }));
    assert!(ops.contains(&OledOp::Outline { x: 41, y: 3, w: 4, h: 4, thickness: 1 }));
    assert!(ops.contains(&OledOp::Fill { x: 23, y: 41, w: 8, h: 10 }));
    assert!(t.contains(&(24, 42, "1".to_string(), false)));
    assert!(t.contains(&(39, 42, "2".to_string(), true)));
}

#[test]
fn target_indicator_has_four_forms() {
    let shown = |mask: u32| {
        let mut st = ui();
        st.active_dest_mask = mask;
        texts(&render(&st, 0)).into_iter().find(|e| e.0 == 78 && e.1 == 0).unwrap().2
    };
    assert_eq!(shown(u32::MAX), ">ALL");
    assert_eq!(shown(0), ">---");
    assert_eq!(shown(1 << 3), ">#03");
    assert_eq!(shown(1 << 31), ">#31");
    assert_eq!(shown(0b111), ">#*3");
    assert_eq!(shown(0x1FF), ">#*9");
    assert_eq!(shown(0x3FF), ">#*+");
    assert_eq!(shown(0x7FFF_FFFF), ">#*+");
}

#[test]
fn battery_border_blinks_under_the_short_text() {
    let mut st = ui();
    st.battery_level = BatteryLevel::Critical;
    st.toast = Some(Toast::new(b"HI"));
    let border = OledOp::Outline { x: 0, y: 0, w: 128, h: 64, thickness: 2 };
    let ops = render(&st, 149);
    let n = ops.len();
    assert_eq!(ops[n - 3], border);
    assert_eq!(ops[n - 2], OledOp::Fill { x: 0, y: 44, w: 128, h: 20 });
    assert_eq!(ops[n - 1], OledOp::Text { x: 58, y: 49, text: "HI".to_string(), lit: false });
    assert!(!render(&st, 150).contains(&border));
    assert!(render(&st, 300).contains(&border));
    st.toast = Some(Toast::new(&[0xFF, 0xFE]));
    let last = render(&st, 150).pop().unwrap();
    assert_eq!(last, OledOp::Text { x: 55, y: 49, text: "???".to_string(), lit: false });
}

#[test]
fn panel_lists_the_endpoints_around_the_cursor() {
    let mut reg = PeerRegistry::new();
    for i in 0..5u8 {
        let _ = reg.upsert([i + 1, 0, 0, 0, 0, 0], *b"led", -40 - i as i8, Instant::from_ticks(0));
    }
    let mut st = ui();
    st.mode = UiMode::Selecting;
    st.selector =
        SelectorSnapshot { cursor: 4, pending_mask: 1 << 3, candidates: reg.snapshot(), remaining_ms: 1 };
    let ops = render(&st, 0);
    let t = texts(&ops);
    assert!(t.contains(&(0, 0, "Select Target".to_string(), true)));
    assert!(t.contains(&(110, 0, "5/5".to_string(), true)));
    assert!(t.contains(&(7, 13, "#02".to_string(), true)));
    assert!(t.contains(&(7, 25, "#03".to_string(), true)));
    assert!(t.contains(&(122, 25, "*".to_string(), true)));
    assert!(t.contains(&(0, 37, ">".to_string(), false)));
    assert!(t.contains(&(7, 37, "#04".to_string(), false)));
    assert!(t.contains(&(27, 37, "led".to_string(), false)));
    assert!(t.contains(&(82, 37, "-44dBm".to_string(), false)));
    assert!(ops.contains(&OledOp::Fill { x: 0, y: 36, w: 128, h: 11 }));
    assert!(t.contains(&(0, 54, "Jy^v B1+ B2- SwExit".to_string(), true)));
}

#[test]
fn panel_without_endpoints_says_so() {
    let mut st = ui();
    st.mode = UiMode::Selecting;
    let t = texts(&render(&st, 0));
    let lines: Vec<&str> = t.iter().map(|e| e.2.as_str()).collect();
    assert_eq!(
        lines,
        vec![
            "Select Target",
            "No receivers found.",
            "Waiting for peers",
            "to announce...",
            "Jy^v B1+ B2- SwExit"
        ]
    );
}

#[test]
fn sensitivity_scales_the_axes_towards_zero() {
    let mut control = ControlState::new();
    let sample = GamepadState { buttons: 0b10_0101, joy_x: 999, joy_y: -999, knob_1: 1000, knob_2: 3 };
    let mut full = sample;
    apply_sensitivity(&mut full, &control);
    assert_eq!(full, sample);
    set_joy_sensitivity(&mut control, 500);
    set_knob_sensitivity(&mut control, 250);
    let mut scaled = sample;
    apply_sensitivity(&mut scaled, &control);
    assert_eq!(scaled, GamepadState { buttons: 0b10_0101, joy_x: 499, joy_y: -499, knob_1: 250, knob_2: 0 });
    set_joy_sensitivity(&mut control, 5000);
    let mut extreme = GamepadState { joy_x: i16::MIN, joy_y: i16::MAX, ..sample };
    apply_sensitivity(&mut extreme, &control);
    assert_eq!((extreme.joy_x, extreme.joy_y), (i16::MIN, i16::MAX));
}

#[test]
fn pushing_the_stick_further_never_reads_less() {
    let read = |v: u16| AnalogInput::new(200).read_centered(Some(v));
    for v in 0..4095 {
        assert!(read(v) <= read(v + 1));
    }
}

#[test]
fn looking_at_the_list_changes_no_target() {
    let reg = two_endpoints();
    let mut s = TargetSelectorInner::new();
    s.active_dest_mask = 0b10;
    let mut at = 0;
    for round in 0..3 {
        for step in 0..10 {
            at += 100;
            let input = SelectorInput {
                switch_on: step < 9,
                btn1_just_pressed: round == 0 && step == 2,
                btn2_just_pressed: false,
                joy_y: if step % 2 == 0 { -1000 } else { 0 },
                now: ms(at),
            };
            handle_input(&mut s, &reg, input);
            assert_eq!(active_dest_mask(&s), 0b10);
        }
    }
    assert_eq!(current_mode(&s), UiMode::Selecting);
}

#[test]
fn the_time_left_does_not_come_back() {
    let s = TargetSelectorInner::new();
    let left = |t: u64| snapshot(&s, &PeerRegistry::new(), ms(t)).remaining_ms;
    assert_eq!(left(0), 10_000);
    assert_eq!(left(9_999), 1);
    assert_eq!(left(10_000), 0);
    assert_eq!(left(0x1_0000_0000), 0);
}
