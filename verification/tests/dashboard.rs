use controller::dashboard::bluetooth::{
    begin_connect, connect_failed, connect_succeeded, disconnect, do_connect, on_frame_notification,
    on_response_notification, send_command, write_failed, write_succeeded, ConnectStep,
};
use controller::dashboard::command_panel::{
    command_types, number_input, number_u16_input, on_key_id_change, parse_number, send_disabled,
    shown_seq, CommandPanel,
};
use controller::dashboard::event_log::{
    aria_summary, badge_classes, clear_log, event_at_line, hex_dump, opened_bytes, EventRow,
};
use controller::dashboard::gamepad_visual::{knob_fill, GamepadVisual};
use controller::dashboard::receiver_panel::{rssi_class, rssi_text, seconds_since, ReceiverPanel};
use controller::dashboard::state::{
    error_code_label, AppState, ConnState, EventDirection, EventEntry, EVENT_LOG_MAX_LEN,
};
use controller::dashboard::status_panel::{on_connect_click, ConnectAction, StatusPanel};
use controller::protocol::{
    Command, CommandBody, CommandResponse, ErrorCode, Frame, GamepadState, KeyId, ResponseBody,
    COMMAND_LEN, FRAME_LEN, RESPONSE_LEN,
};

fn newest(app: &AppState) -> (EventDirection, String) {
    let e = event_at_line(app, 0);
    (e.dir, e.summary.clone())
}

#[test]
fn a_new_dashboard_waits_for_the_gamepad() {
    let app = AppState::new(5);
    assert_eq!(app.conn, ConnState::Disconnected);
    assert_eq!(app.events.len(), 1);
    assert_eq!(newest(&app), (EventDirection::Info, "Dashboard 已启动，等待连接手柄".to_string()));
    assert_eq!(event_at_line(&app, 0).ts_us, 5);
    let p = StatusPanel::new(&app);
    assert_eq!(p.conn_class, "conn-pill conn-off");
    assert_eq!(p.conn_label, "未连接");
    assert_eq!(p.battery, "--");
    assert_eq!(p.session, "等待中");
    assert_eq!(p.frame_seq, "0");
    assert_eq!(p.button_class, "connect-btn ");
    assert_eq!(p.button_text, "连接手柄");
    assert!(!p.button_disabled);
}

#[test]
fn connecting_and_disconnecting_are_logged() {
    let mut app = AppState::new(0);
    assert_eq!(on_connect_click(app.conn), ConnectAction::Connect);
    begin_connect(&mut app, 1);
    assert_eq!(newest(&app).1, "请求蓝牙设备...");
    assert!(StatusPanel::new(&app).button_disabled);
    connect_succeeded(&mut app, Some("ESP32-Controller".to_string()), 2);
    assert_eq!(newest(&app).1, "已连接: ESP32-Controller");
    let p = StatusPanel::new(&app);
    assert_eq!(p.conn_class, "conn-pill conn-on");
    assert_eq!(p.button_class, "connect-btn connect-btn-active");
    assert_eq!(p.button_aria, "断开手柄连接");
    assert_eq!(on_connect_click(app.conn), ConnectAction::Disconnect);
    disconnect(&mut app, true, 3);
    assert_eq!(newest(&app).1, "已断开连接");
    let n = app.events.len();
    disconnect(&mut app, false, 4);
    assert_eq!(app.events.len(), n);
    begin_connect(&mut app, 5);
    connect_failed(&mut app, "no", 6);
    assert_eq!(newest(&app), (EventDirection::Warn, "连接失败: no".to_string()));
    assert_eq!(app.conn, ConnState::Disconnected);
    begin_connect(&mut app, 7);
    connect_succeeded(&mut app, None, 8);
    assert_eq!(newest(&app).1, "已连接: unknown");
}

#[test]
fn connecting_goes_step_by_step() {
    let mut step = ConnectStep::FindBluetooth;
    let mut steps = 0;
    while step != ConnectStep::Done {
        step = do_connect(step, None).unwrap();
        steps += 1;
    }
    assert_eq!(steps, 19);
    let fail = |s: ConnectStep| do_connect(s, Some("X".to_string())).unwrap_err();
    assert_eq!(fail(ConnectStep::FindBluetooth), "浏览器不支持 WebBluetooth（请用最新版 Chrome/Edge）");
    assert_eq!(fail(ConnectStep::SetFilterName), "设置 filter.name 失败: X");
    assert_eq!(fail(ConnectStep::CheckPromise), "requestDevice 返回值不是 Promise");
    assert_eq!(fail(ConnectStep::RequestDevice), "用户取消或 requestDevice 失败: X");
    assert_eq!(fail(ConnectStep::FindGatt), "device.gatt 缺失");
    assert_eq!(fail(ConnectStep::BindResponses), "Response 事件绑定失败: X");
}

#[test]
fn frames_update_the_picture() {
    let mut app = AppState::new(0);
    let state = GamepadState { buttons: 0b101, joy_x: -250, joy_y: 1000, knob_1: 7, knob_2: 1000 };
    let frame = Frame::with_dest(77, state, 1);
    on_frame_notification(&mut app, &[0u8; FRAME_LEN], |_| Ok(frame), 1);
    assert_eq!(app.gamepad, state);
    assert_eq!(StatusPanel::new(&app).frame_seq, "77");
    let v = GamepadVisual::new(&app);
    assert_eq!(v.readout, "X=-0250 Y=+1000");
    assert_eq!(v.lamps, ["btn-lamp on", "btn-lamp", "btn-lamp on", "btn-lamp"]);
    assert_eq!((v.knob_1.as_str(), v.knob_2.as_str()), ("7", "1000"));
    assert_eq!((v.knob_1_fill.as_str(), v.knob_2_fill.as_str()), ("0.7%", "100.0%"));
    on_frame_notification(&mut app, &[0u8; 3], |_| Ok(frame), 2);
    assert_eq!(newest(&app), (EventDirection::Warn, "Frame 长度异常: 3 != 25".to_string()));
    on_frame_notification(&mut app, &[0u8; FRAME_LEN], |_| Err("BadCrc".to_string()), 3);
    assert_eq!(newest(&app).1, "decode Frame 失败: BadCrc");
    assert_eq!(app.last_frame_seq, 77);
}

#[test]
fn knob_bars_match_the_formatted_fraction() {
    for raw in [0u16, 1, 9, 10, 99, 123, 500, 999, 1000, 1001, 65535] {
        let expected = format!("{:.1}%", (raw as f32 / 1000.0 * 100.0).clamp(0.0, 100.0));
        assert_eq!(knob_fill(raw), expected);
    }
}

fn response(app: &mut AppState, body: ResponseBody) {
    let resp = CommandResponse { req_seq: 9, key_id: KeyId::default(), body };
    on_response_notification(app, &[1u8; RESPONSE_LEN], |_| Ok(resp), 1_000_000);
}

#[test]
fn responses_are_logged_and_remembered() {
    let mut app = AppState::new(0);
    response(&mut app, ResponseBody::Ack);
    assert_eq!(newest(&app), (EventDirection::Rx, "Ack req_seq=9".to_string()));
    assert_eq!(app.last_response, Some((9, ResponseBody::Ack)));
    response(&mut app, ResponseBody::Error(ErrorCode::InvalidArgument));
    assert_eq!(newest(&app).1, "Error req_seq=9 → 参数不合法");
    response(&mut app, ResponseBody::BatterySnapshot { percent: 42 });
    assert_eq!(newest(&app).1, "Battery=42%");
    assert_eq!(StatusPanel::new(&app).battery, "42%");
    response(&mut app, ResponseBody::NonceHello { nonce: 0xAB });
    assert_eq!(newest(&app).1, "NonceHello=0x000000ab");
    assert_eq!(StatusPanel::new(&app).session, "0x000000ab");
    response(
        &mut app,
        ResponseBody::AnnounceReply { mac: [0, 1, 2, 0xAA, 4, 5], rssi_dbm: -40, role_tag: *b"led" },
    );
    assert_eq!(newest(&app).1, "AnnounceReply mac=00:01:02:aa:04:05 rssi=-40dBm role=led");
    assert_eq!(app.receivers.len(), 1);
    on_response_notification(&mut app, &[0u8; 2], |_| Err(String::new()), 2);
    assert_eq!(newest(&app).1, "Response 长度异常: 2 != 24");
    on_response_notification(&mut app, &[0u8; RESPONSE_LEN], |_| Err("BadMagic".to_string()), 3);
    assert_eq!(newest(&app).1, "decode Response 失败: BadMagic");
    assert_eq!(error_code_label(ErrorCode::Unsupported), "命令暂不支持");
    assert_eq!(error_code_label(ErrorCode::Busy), "内部忙");
}

#[test]
fn endpoints_get_the_smallest_free_id_and_stay_sorted() {
    let mut app = AppState::new(0);
    for i in 0..3u8 {
        app.upsert_receiver([i, 0, 0, 0, 0, 0], *b"a\0\0", -50, 1);
    }
    app.receivers.remove(1);
    app.upsert_receiver([9, 0, 0, 0, 0, 0], *b"new", -127, 2_500_000);
    app.upsert_receiver([0, 0, 0, 0, 0, 0], *b"upd", -70, 3_000_000);
    let ids: Vec<(u8, u8)> = app.receivers.iter().map(|p| (p.receiver_id, p.mac[0])).collect();
    assert_eq!(ids, vec![(0, 0), (1, 9), (2, 2)]);
    let panel = ReceiverPanel::new(&app, 4_000_000);
    assert_eq!(panel.count, 3);
    let row = &panel.rows[1];
    assert_eq!(row.aria, "接收方 1 new");
    assert_eq!(row.rssi, "--dBm");
    assert_eq!(row.rssi_class, "receiver-rssi mono rssi-unknown");
    assert_eq!(row.seen, "1s 前");
    assert_eq!(row.mac, "09:00:00:00:00:00");
    assert_eq!(panel.rows[0].role, "upd");
    assert_eq!(panel.rows[0].rssi, "-70dBm");
    assert_eq!(panel.rows[2].role, "a");
}

#[test]
fn a_full_list_of_endpoints_ignores_new_ones() {
    let mut app = AppState::new(0);
    for i in 0..40u8 {
        app.upsert_receiver([i, 0, 0, 0, 0, 0], *b"abc", -50, 1);
    }
    assert_eq!(app.receivers.len(), 32);
    assert_eq!(app.receivers[31].mac[0], 31);
}

#[test]
fn signal_strengths_have_three_classes() {
    assert_eq!(rssi_class(-127), "rssi-unknown");
    assert_eq!(rssi_class(-128), "rssi-weak");
    assert_eq!(rssi_class(-66), "rssi-weak");
    assert_eq!(rssi_class(-65), "rssi-medium");
    assert_eq!(rssi_class(-41), "rssi-medium");
    assert_eq!(rssi_class(-40), "rssi-strong");
    assert_eq!(rssi_text(-5), "-5");
    assert_eq!(rssi_text(-127), "--");
    assert_eq!(seconds_since(5, 4), 0);
    assert_eq!(seconds_since(0, 1_999_999), 1);
}

#[test]
fn the_log_keeps_the_newest_entries() {
    let mut app = AppState::new(0);
    for i in 0..EVENT_LOG_MAX_LEN + 5 {
        app.push_event(EventEntry::info(format!("{i}"), i as u64));
    }
    assert_eq!(app.events.len(), EVENT_LOG_MAX_LEN);
    assert_eq!(newest(&app).1, "204");
    assert_eq!(event_at_line(&app, EVENT_LOG_MAX_LEN - 1).summary, "5");
    clear_log(&mut app);
    assert_eq!(app.events.len(), 0);
}

#[test]
fn log_lines_with_bytes_open_and_close() {
    let entry = EventEntry::rx("sum".to_string(), vec![0xDE, 0xAD], 1);
    let mut row = EventRow::new(&entry);
    assert_eq!(opened_bytes(&row, &entry), None);
    assert_eq!((row.tabindex(), row.role(), row.aria_expanded()), ("0", "button", "false"));
    assert_eq!(row.caret(), "▶");
    row.on_click();
    assert_eq!(opened_bytes(&row, &entry), Some("de ad \n[len=2]".to_string()));
    assert_eq!(row.aria_expanded(), "true");
    assert_eq!(row.caret(), "▼");
    assert!(!row.on_key("a"));
    assert!(row.on_key("Enter"));
    assert!(!row.expanded);
    assert!(row.on_key(" "));
    assert!(row.expanded);
    assert_eq!(badge_classes(&entry), "badge badge-rx");
    assert_eq!(aria_summary(&entry), "RX sum");
    let note = EventEntry::warn("n".to_string(), 1);
    let mut row = EventRow::new(&note);
    row.on_click();
    assert!(!row.expanded && !row.on_key("Enter"));
    assert_eq!((row.tabindex(), row.role()), ("-1", "presentation"));
    assert_eq!(aria_summary(&note), "WN n");
}

#[test]
fn bytes_are_dumped_eight_to_a_line() {
    let bytes: Vec<u8> = (0..9).collect();
    assert_eq!(hex_dump(&bytes), "00 01 02 03 04 05 06 07 \n08 \n[len=9]");
    assert_eq!(hex_dump(&[]), "\n[len=0]");
}

#[test]
fn numbers_are_read_as_a_parser_would() {
    for s in ["0", "7", "+7", "255", "256", "65535", "65536", "", "+", "-1", "1.5", " 1", "00012", "٣", "99999999999"] {
        assert_eq!(parse_number(s, 255), s.parse::<u8>().ok().map(u16::from), "{s:?}");
        assert_eq!(parse_number(s, 65535), s.parse::<u16>().ok(), "{s:?}");
    }
    assert_eq!(number_input(4, "250", 1, 20), 20);
    assert_eq!(number_input(4, "0", 1, 20), 1);
    assert_eq!(number_input(4, "300", 1, 20), 4);
    assert_eq!(number_u16_input(4, "300", 50, 2000), 300);
    assert_eq!(number_u16_input(4, "x", 50, 2000), 4);
}

#[test]
fn the_form_builds_commands() {
    let mut app = AppState::new(0);
    let mut p = CommandPanel::new();
    assert_eq!(p.build_body(), Some(CommandBody::Nop));
    for (name, _label) in command_types() {
        p.on_type_change(name.to_string());
        assert!(p.build_body().is_some());
        assert!(p.shows_fields_of(name));
    }
    p.on_led_idx_input("9");
    p.on_led_count_input("2");
    p.on_led_period_input("10");
    p.on_joy_scale_input("5000");
    p.on_knob_scale_input("12");
    p.on_type_change("LedBlink".to_string());
    assert_eq!(p.build_body(), Some(CommandBody::LedBlink { led_idx: 3, count: 2, period_ms: 50 }));
    p.on_type_change("SetSensitivity".to_string());
    assert_eq!(p.build_body(), Some(CommandBody::SetSensitivity { joy_scale: 1000, knob_scale: 12 }));
    p.on_type_change("ShowToast".to_string());
    assert_eq!(p.build_body(), Some(CommandBody::ShowToast { len: 2, bytes: *b"hi\0\0\0" }));
    p.toast_text = "手柄x".to_string();
    assert_eq!(
        p.build_body(),
        Some(CommandBody::ShowToast { len: 5, bytes: [0xE6, 0x89, 0x8B, 0xE6, 0x9F] })
    );
    p.on_type_change("SetBatteryMode".to_string());
    assert_eq!(p.build_body(), Some(CommandBody::SetBatteryMode { simulate: false }));
    assert_eq!(shown_seq(&app), 1);
    let cmd = p.on_send_click(&mut app, 1).unwrap();
    assert_eq!(cmd, Command::with_key(1, KeyId::default(), CommandBody::SetBatteryMode { simulate: false }));
    on_key_id_change(&mut app, "1");
    on_key_id_change(&mut app, "99");
    assert_eq!(app.key_id.as_u8(), 1);
    p.on_type_change("Other".to_string());
    assert!(p.on_send_click(&mut app, 2).is_none());
    assert_eq!(newest(&app), (EventDirection::Warn, "命令参数不合法".to_string()));
    assert_eq!(app.tx_counter, 1);
    assert!(send_disabled(&app));
    app.conn = ConnState::Connected;
    assert!(!send_disabled(&app));
}

#[test]
fn commands_are_logged_once_written() {
    let mut app = AppState::new(0);
    let cmd = Command::with_key(12, KeyId::new(1).unwrap(), CommandBody::Nop);
    let encode = |_: Command| [7u8; COMMAND_LEN];
    assert!(send_command(&mut app, false, cmd, encode, 1).is_none());
    assert_eq!(newest(&app), (EventDirection::Warn, "未连接，无法发送命令".to_string()));
    let w = send_command(&mut app, true, cmd, encode, 2).unwrap();
    assert_eq!(w.summary, "Command seq=12 kid=KeyId(1)");
    write_succeeded(&mut app, w, 3);
    assert_eq!(newest(&app).0, EventDirection::Tx);
    assert_eq!(event_at_line(&app, 0).bytes, Some(vec![7u8; COMMAND_LEN]));
    write_failed(&mut app, "gone", 4);
    assert_eq!(newest(&app).1, "写入 ControlCommand 失败: gone");
}

#[test]
fn command_numbers_stop_at_the_end_of_their_range() {
    let mut app = AppState::new(0);
    app.tx_counter = u32::MAX - 1;
    assert_eq!(app.next_tx_seq(), u32::MAX);
    assert_eq!(app.next_tx_seq(), u32::MAX);
}
