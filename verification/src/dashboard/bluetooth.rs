//! What the Bluetooth connection does to the dashboard.
//!
//! The browser reports that a connection was made, lost or refused, hands over the
//! bytes of notifications, and says whether a write went through. Here is what
//! each of these means.

use super::state::{self, error_code_label, push_mac, AppState, AppView, ConnState, EventDirection};
use super::state::{EventEntry, EventView};
use crate::protocol::{
    Command, CommandResponse, Frame, KeyId, ResponseBody, COMMAND_LEN, FRAME_LEN, RESPONSE_LEN,
};
use crate::text;
use vstd::prelude::*;

verus! {

/// The name under which the gamepad advertises itself.
pub fn device_name() -> (s: &'static str)
    ensures
        s@ == "ESP32-Controller"@,
{
    "ESP32-Controller"
}

/// The service that the gamepad offers.
pub fn custom_service() -> (s: &'static str)
    ensures
        s@ == "c7000001-1e00-4000-8000-0000000000cc"@,
{
    "c7000001-1e00-4000-8000-0000000000cc"
}

/// The characteristic that notifies of frames.
pub fn frame_stream() -> (s: &'static str)
    ensures
        s@ == "c7000002-1e00-4000-8000-0000000000cc"@,
{
    "c7000002-1e00-4000-8000-0000000000cc"
}

/// The characteristic that takes commands.
pub fn control_command() -> (s: &'static str)
    ensures
        s@ == "c7000003-1e00-4000-8000-0000000000cc"@,
{
    "c7000003-1e00-4000-8000-0000000000cc"
}

/// The characteristic that notifies of responses.
pub fn control_response() -> (s: &'static str)
    ensures
        s@ == "c7000004-1e00-4000-8000-0000000000cc"@,
{
    "c7000004-1e00-4000-8000-0000000000cc"
}

fn joined(a: &str, b: &str) -> (s: String)
    ensures
        s@ == a@ + b@,
{
    let mut s = String::new();
    s.append(a);
    s.append(b);
    assert(s@ =~= a@ + b@);
    s
}

// ---- The connection ----

/// The user asked for a connection.
pub fn begin_connect(app: &mut AppState, now_us: u64)
    ensures
        final(app)@ == (AppView { conn: ConnState::Connecting, ..old(app)@ }).noting("请求蓝牙设备..."@, now_us),
        old(app).wf() ==> final(app).wf(),
{
    app.conn = ConnState::Connecting;
    app.note("请求蓝牙设备...".to_string(), now_us);
}

/// The browser connected to a device, which may have a name.
pub fn connect_succeeded(app: &mut AppState, name: Option<String>, now_us: u64)
    ensures
        final(app)@ == (AppView { conn: ConnState::Connected, ..old(app)@ }).noting(
            "已连接: "@ + (match name {
                Some(n) => n@,
                None => "unknown"@,
            }),
            now_us,
        ),
        old(app).wf() ==> final(app).wf(),
{
    app.conn = ConnState::Connected;
    let summary = match name {
        Some(n) => joined("已连接: ", n.as_str()),
        None => joined("已连接: ", "unknown"),
    };
    app.note(summary, now_us);
}

/// The browser could not connect.
pub fn connect_failed(app: &mut AppState, reason: &str, now_us: u64)
    ensures
        final(app)@ == (AppView { conn: ConnState::Disconnected, ..old(app)@ }).warning(
            "连接失败: "@ + reason@,
            now_us,
        ),
        old(app).wf() ==> final(app).wf(),
{
    app.conn = ConnState::Disconnected;
    app.warn(joined("连接失败: ", reason), now_us);
}

/// The user asked to disconnect. Without a connection nothing happens.
pub fn disconnect(app: &mut AppState, has_handles: bool, now_us: u64)
    ensures
        has_handles ==> final(app)@ == (AppView { conn: ConnState::Disconnected, ..old(app)@ }).noting(
            "已断开连接"@,
            now_us,
        ),
        !has_handles ==> *final(app) == *old(app),
        old(app).wf() ==> final(app).wf(),
{
    if has_handles {
        app.conn = ConnState::Disconnected;
        app.note("已断开连接".to_string(), now_us);
    }
}

/// The steps of connecting, in order.
#[derive(Debug, Clone, Copy, PartialEq, Eq, Structural)]
pub enum ConnectStep {
    /// The browser offers Bluetooth at all.
    FindBluetooth,
    /// The request names the device that is looked for.
    SetFilterName,
    SetFilters,
    /// The request asks for the gamepad's service.
    SetOptionalServices,
    /// The browser can be asked for a device.
    FindRequestDevice,
    CheckRequestDevice,
    CallRequestDevice,
    CheckPromise,
    /// The user picks a device.
    RequestDevice,
    /// The device has a GATT server.
    FindGatt,
    ConnectGatt,
    GetService,
    GetFrameStream,
    GetControlResponse,
    GetControlCommand,
    StartFrames,
    /// Frames are listened to.
    BindFrames,
    StartResponses,
    /// Responses are listened to.
    BindResponses,
    Done,
}

/// The step after one that succeeded.
pub open spec fn step_after(step: ConnectStep) -> ConnectStep {
    match step {
        ConnectStep::FindBluetooth => ConnectStep::SetFilterName,
        ConnectStep::SetFilterName => ConnectStep::SetFilters,
        ConnectStep::SetFilters => ConnectStep::SetOptionalServices,
        ConnectStep::SetOptionalServices => ConnectStep::FindRequestDevice,
        ConnectStep::FindRequestDevice => ConnectStep::CheckRequestDevice,
        ConnectStep::CheckRequestDevice => ConnectStep::CallRequestDevice,
        ConnectStep::CallRequestDevice => ConnectStep::CheckPromise,
        ConnectStep::CheckPromise => ConnectStep::RequestDevice,
        ConnectStep::RequestDevice => ConnectStep::FindGatt,
        ConnectStep::FindGatt => ConnectStep::ConnectGatt,
        ConnectStep::ConnectGatt => ConnectStep::GetService,
        ConnectStep::GetService => ConnectStep::GetFrameStream,
        ConnectStep::GetFrameStream => ConnectStep::GetControlResponse,
        ConnectStep::GetControlResponse => ConnectStep::GetControlCommand,
        ConnectStep::GetControlCommand => ConnectStep::StartFrames,
        ConnectStep::StartFrames => ConnectStep::BindFrames,
        ConnectStep::BindFrames => ConnectStep::StartResponses,
        ConnectStep::StartResponses => ConnectStep::BindResponses,
        ConnectStep::BindResponses => ConnectStep::Done,
        ConnectStep::Done => ConnectStep::Done,
    }
}

/// What is said of a step that failed, before the browser's own words.
pub open spec fn failure_text(step: ConnectStep) -> Seq<char> {
    match step {
        ConnectStep::FindBluetooth => "浏览器不支持 WebBluetooth（请用最新版 Chrome/Edge）"@,
        ConnectStep::SetFilterName => "设置 filter.name 失败: "@,
        ConnectStep::SetFilters => "设置 opts.filters 失败: "@,
        ConnectStep::SetOptionalServices => "设置 opts.optionalServices 失败: "@,
        ConnectStep::FindRequestDevice => "查找 requestDevice 失败: "@,
        ConnectStep::CheckRequestDevice => "requestDevice 不是函数"@,
        ConnectStep::CallRequestDevice => "调用 requestDevice 失败: "@,
        ConnectStep::CheckPromise => "requestDevice 返回值不是 Promise"@,
        ConnectStep::RequestDevice => "用户取消或 requestDevice 失败: "@,
        ConnectStep::FindGatt => "device.gatt 缺失"@,
        ConnectStep::ConnectGatt => "GATT connect 失败: "@,
        ConnectStep::GetService => "获取 CustomService 失败: "@,
        ConnectStep::GetFrameStream => "获取 FrameStream 失败: "@,
        ConnectStep::GetControlResponse => "获取 ControlResponse 失败: "@,
        ConnectStep::GetControlCommand => "获取 ControlCommand 失败: "@,
        ConnectStep::StartFrames => "startNotifications(Frame) 失败: "@,
        ConnectStep::BindFrames => "Frame 事件绑定失败: "@,
        ConnectStep::StartResponses => "startNotifications(Response) 失败: "@,
        ConnectStep::BindResponses => "Response 事件绑定失败: "@,
        ConnectStep::Done => ""@,
    }
}

/// A step's failure says all there is to say: there are no words of the browser to
/// add.
pub open spec fn failure_is_complete(step: ConnectStep) -> bool {
    step is FindBluetooth || step is CheckRequestDevice || step is CheckPromise || step is FindGatt || step is Done
}

fn failure_prefix(step: ConnectStep) -> (s: &'static str)
    ensures
        s@ == failure_text(step),
{
    match step {
        ConnectStep::FindBluetooth => "浏览器不支持 WebBluetooth（请用最新版 Chrome/Edge）",
        ConnectStep::SetFilterName => "设置 filter.name 失败: ",
        ConnectStep::SetFilters => "设置 opts.filters 失败: ",
        ConnectStep::SetOptionalServices => "设置 opts.optionalServices 失败: ",
        ConnectStep::FindRequestDevice => "查找 requestDevice 失败: ",
        ConnectStep::CheckRequestDevice => "requestDevice 不是函数",
        ConnectStep::CallRequestDevice => "调用 requestDevice 失败: ",
        ConnectStep::CheckPromise => "requestDevice 返回值不是 Promise",
        ConnectStep::RequestDevice => "用户取消或 requestDevice 失败: ",
        ConnectStep::FindGatt => "device.gatt 缺失",
        ConnectStep::ConnectGatt => "GATT connect 失败: ",
        ConnectStep::GetService => "获取 CustomService 失败: ",
        ConnectStep::GetFrameStream => "获取 FrameStream 失败: ",
        ConnectStep::GetControlResponse => "获取 ControlResponse 失败: ",
        ConnectStep::GetControlCommand => "获取 ControlCommand 失败: ",
        ConnectStep::StartFrames => "startNotifications(Frame) 失败: ",
        ConnectStep::BindFrames => "Frame 事件绑定失败: ",
        ConnectStep::StartResponses => "startNotifications(Response) 失败: ",
        ConnectStep::BindResponses => "Response 事件绑定失败: ",
        ConnectStep::Done => "",
    }
}

/// Goes on with connecting. `failure` holds the browser's words if the step failed.
/// The connection stands once every step succeeded, and fails with the first step
/// that does.
pub fn do_connect(step: ConnectStep, failure: Option<String>) -> (r: Result<ConnectStep, String>)
    ensures
        failure is None ==> r == Ok::<ConnectStep, String>(step_after(step)),
        failure is Some ==> r is Err && r->Err_0@ == failure_text(step) + (if failure_is_complete(step) {
            Seq::empty()
        } else {
            failure->0@
        }),
{
    match failure {
        Some(words) => {
            let mut s = String::new();
            s.append(failure_prefix(step));
            match step {
                ConnectStep::FindBluetooth
                | ConnectStep::CheckRequestDevice
                | ConnectStep::CheckPromise
                | ConnectStep::FindGatt
                | ConnectStep::Done => {},
                _ => {
                    s.append(words.as_str());
                },
            }
            assert(s@ =~= failure_text(step) + (if failure_is_complete(step) {
                Seq::empty()
            } else {
                words@
            }));
            Err(s)
        },
        None => Ok(
            match step {
                ConnectStep::FindBluetooth => ConnectStep::SetFilterName,
                ConnectStep::SetFilterName => ConnectStep::SetFilters,
                ConnectStep::SetFilters => ConnectStep::SetOptionalServices,
                ConnectStep::SetOptionalServices => ConnectStep::FindRequestDevice,
                ConnectStep::FindRequestDevice => ConnectStep::CheckRequestDevice,
                ConnectStep::CheckRequestDevice => ConnectStep::CallRequestDevice,
                ConnectStep::CallRequestDevice => ConnectStep::CheckPromise,
                ConnectStep::CheckPromise => ConnectStep::RequestDevice,
                ConnectStep::RequestDevice => ConnectStep::FindGatt,
                ConnectStep::FindGatt => ConnectStep::ConnectGatt,
                ConnectStep::ConnectGatt => ConnectStep::GetService,
                ConnectStep::GetService => ConnectStep::GetFrameStream,
                ConnectStep::GetFrameStream => ConnectStep::GetControlResponse,
                ConnectStep::GetControlResponse => ConnectStep::GetControlCommand,
                ConnectStep::GetControlCommand => ConnectStep::StartFrames,
                ConnectStep::StartFrames => ConnectStep::BindFrames,
                ConnectStep::BindFrames => ConnectStep::StartResponses,
                ConnectStep::StartResponses => ConnectStep::BindResponses,
                ConnectStep::BindResponses => ConnectStep::Done,
                ConnectStep::Done => ConnectStep::Done,
            },
        ),
    }
}

/// How many steps lie before a step.
pub open spec fn place(step: ConnectStep) -> int {
    match step {
        ConnectStep::FindBluetooth => 0,
        ConnectStep::SetFilterName => 1,
        ConnectStep::SetFilters => 2,
        ConnectStep::SetOptionalServices => 3,
        ConnectStep::FindRequestDevice => 4,
        ConnectStep::CheckRequestDevice => 5,
        ConnectStep::CallRequestDevice => 6,
        ConnectStep::CheckPromise => 7,
        ConnectStep::RequestDevice => 8,
        ConnectStep::FindGatt => 9,
        ConnectStep::ConnectGatt => 10,
        ConnectStep::GetService => 11,
        ConnectStep::GetFrameStream => 12,
        ConnectStep::GetControlResponse => 13,
        ConnectStep::GetControlCommand => 14,
        ConnectStep::StartFrames => 15,
        ConnectStep::BindFrames => 16,
        ConnectStep::StartResponses => 17,
        ConnectStep::BindResponses => 18,
        ConnectStep::Done => 19,
    }
}

/// Connecting takes every step once, in order: each step that succeeds leads to the
/// one after it, until all are done.
pub proof fn lemma_every_step_is_taken(step: ConnectStep)
    ensures
        step != ConnectStep::Done ==> place(step_after(step)) == place(step) + 1,
        place(step) == 19 <==> step == ConnectStep::Done,
{
}

// ---- Sending ----

/// A key as the log shows it.
pub open spec fn key_text(key: KeyId) -> Seq<char> {
    "KeyId("@ + text::decimal(key.raw as nat) + ")"@
}

/// What the log says of a command.
pub open spec fn command_summary(cmd: Command) -> Seq<char> {
    "Command seq="@ + text::decimal(cmd.seq as nat) + " kid="@ + key_text(cmd.key_id)
}

/// What the log says of a command.
pub fn summarize_command(cmd: &Command) -> (s: String)
    ensures
        s@ == command_summary(*cmd),
{
    let mut s = String::new();
    s.append("Command seq=");
    text::push_decimal(&mut s, cmd.seq as u64);
    s.append(" kid=");
    s.append("KeyId(");
    text::push_decimal(&mut s, cmd.key_id.raw as u64);
    s.append(")");
    assert(s@ =~= command_summary(*cmd));
    s
}

/// A command that is about to be written, and what the log will say of it.
pub struct PendingWrite {
    pub bytes: [u8; COMMAND_LEN],
    pub summary: String,
}

/// Prepares a command to be written. Without a connection a warning is logged
/// instead.
pub fn send_command<E>(app: &mut AppState, has_handles: bool, cmd: Command, encode: E, now_us: u64) -> (w: Option<
    PendingWrite,
>) where E: Fn(Command) -> [u8; COMMAND_LEN]
    requires
        encode.requires((cmd,)),
    ensures
        w is Some <==> has_handles,
        has_handles ==> {
            &&& *final(app) == *old(app)
            &&& encode.ensures((cmd,), w->0.bytes)
            &&& w->0.summary@ == command_summary(cmd)
        },
        !has_handles ==> final(app)@ == old(app)@.warning("未连接，无法发送命令"@, now_us),
        old(app).wf() ==> final(app).wf(),
{
    if !has_handles {
        app.warn("未连接，无法发送命令".to_string(), now_us);
        return None;
    }
    let bytes = encode(cmd);
    Some(PendingWrite { bytes, summary: summarize_command(&cmd) })
}

/// The write went through: only now is the command logged as sent.
pub fn write_succeeded(app: &mut AppState, write: PendingWrite, now_us: u64)
    ensures
        final(app)@ == old(app)@.with_event(
            EventView {
                ts_us: now_us,
                dir: EventDirection::Tx,
                summary: write.summary@,
                bytes: Some(write.bytes@),
            },
        ),
        old(app).wf() ==> final(app).wf(),
{
    let bytes: Vec<u8> = copied(vstd::array::array_as_slice(&write.bytes));
    app.push_event(EventEntry::tx(write.summary, bytes, now_us));
}

/// The write failed.
pub fn write_failed(app: &mut AppState, reason: &str, now_us: u64)
    ensures
        final(app)@ == old(app)@.warning("写入 ControlCommand 失败: "@ + reason@, now_us),
        old(app).wf() ==> final(app).wf(),
{
    app.warn(joined("写入 ControlCommand 失败: ", reason), now_us);
}

fn copied(bytes: &[u8]) -> (v: Vec<u8>)
    ensures
        v@ == bytes@,
{
    let mut v: Vec<u8> = Vec::with_capacity(bytes.len());
    let mut i: usize = 0;
    while i < bytes.len()
        invariant
            i <= bytes@.len(),
            v@ == bytes@.subrange(0, i as int),
        decreases bytes@.len() - i,
    {
        v.push(bytes[i]);
        i = i + 1;
        assert(v@ =~= bytes@.subrange(0, i as int));
    }
    assert(v@ =~= bytes@);
    v
}

// ---- Notifications ----

/// What the log says of bytes of a wrong length.
pub open spec fn length_warning(what: Seq<char>, len: nat, expected: nat) -> Seq<char> {
    what + " 长度异常: "@ + text::decimal(len) + " != "@ + text::decimal(expected)
}

fn length_warning_text(what: &str, len: usize, expected: usize) -> (s: String)
    ensures
        s@ == length_warning(what@, len as nat, expected as nat),
{
    let mut s = String::new();
    s.append(what);
    s.append(" 长度异常: ");
    text::push_decimal(&mut s, len as u64);
    s.append(" != ");
    text::push_decimal(&mut s, expected as u64);
    assert(s@ =~= length_warning(what@, len as nat, expected as nat));
    s
}

/// The dashboard after a frame was decoded, or was found damaged.
pub open spec fn frame_taken(app: AppView, decoded: Result<Frame, Seq<char>>, now_us: u64) -> AppView {
    match decoded {
        Ok(frame) => AppView { gamepad: frame.payload, last_frame_seq: frame.header.seq, ..app },
        Err(words) => app.warning("decode Frame 失败: "@ + words, now_us),
    }
}

/// A decoder's answer with its words as a sequence of characters.
pub open spec fn answer<T>(decoded: Result<T, String>) -> Result<T, Seq<char>> {
    match decoded {
        Ok(v) => Ok(v),
        Err(words) => Err(words@),
    }
}

/// Takes a decoded frame.
pub fn take_frame(app: &mut AppState, decoded: Result<Frame, String>, now_us: u64)
    ensures
        final(app)@ == frame_taken(old(app)@, answer(decoded), now_us),
        old(app).wf() ==> final(app).wf(),
{
    match decoded {
        Ok(frame) => {
            app.gamepad = frame.payload;
            app.last_frame_seq = frame.header.seq;
        },
        Err(words) => {
            app.warn(joined("decode Frame 失败: ", words.as_str()), now_us);
        },
    }
}

/// Takes the bytes of a frame notification. `decode` turns them into a frame, or
/// says in words what is wrong with them.
pub fn on_frame_notification<D>(app: &mut AppState, bytes: &[u8], decode: D, now_us: u64) where
    D: Fn(&[u8]) -> Result<Frame, String>,

    requires
        decode.requires((bytes,)),
    ensures
        bytes@.len() != FRAME_LEN ==> final(app)@ == old(app)@.warning(
            length_warning("Frame"@, bytes@.len(), FRAME_LEN as nat),
            now_us,
        ),
        bytes@.len() == FRAME_LEN ==> exists|decoded: Result<Frame, String>| #[trigger]
            decode.ensures((bytes,), decoded) && final(app)@ == frame_taken(
                old(app)@,
                answer(decoded),
                now_us,
            ),
        old(app).wf() ==> final(app).wf(),
{
    if bytes.len() != FRAME_LEN {
        app.warn(length_warning_text("Frame", bytes.len(), FRAME_LEN), now_us);
        return;
    }
    let decoded = decode(bytes);
    take_frame(app, decoded, now_us);
}

/// A nonce as the page shows it.
pub open spec fn nonce_text(nonce: u32) -> Seq<char> {
    "0x"@ + text::lower_hex(nonce as nat, 8)
}

/// Appends a nonce as the page shows it.
pub fn push_nonce(out: &mut String, nonce: u32)
    ensures
        final(out)@ == old(out)@ + nonce_text(nonce),
{
    out.append("0x");
    text::push_lower_hex(out, nonce, 8);
    assert(out@ =~= old(out)@ + nonce_text(nonce));
}

/// What the log says of a response.
pub open spec fn response_summary(resp: CommandResponse) -> Seq<char> {
    match resp.body {
        ResponseBody::Ack => "Ack req_seq="@ + text::decimal(resp.req_seq as nat),
        ResponseBody::Error(code) => "Error req_seq="@ + text::decimal(resp.req_seq as nat) + " → "@
            + state::error_text(code),
        ResponseBody::BatterySnapshot { percent } => "Battery="@ + text::decimal(percent as nat) + "%"@,
        ResponseBody::NonceHello { nonce } => "NonceHello="@ + nonce_text(nonce),
        ResponseBody::AnnounceReply { mac, rssi_dbm, role_tag } => "AnnounceReply mac="@
            + state::mac_text(mac@) + " rssi="@ + text::integer(rssi_dbm as int) + "dBm role="@
            + text::readable(role_tag@),
    }
}

/// What the log says of a response.
pub fn summarize_response(resp: &CommandResponse) -> (s: String)
    ensures
        s@ == response_summary(*resp),
{
    let mut s = String::new();
    match resp.body {
        ResponseBody::Ack => {
            s.append("Ack req_seq=");
            text::push_decimal(&mut s, resp.req_seq as u64);
        },
        ResponseBody::Error(code) => {
            s.append("Error req_seq=");
            text::push_decimal(&mut s, resp.req_seq as u64);
            s.append(" → ");
            s.append(error_code_label(code));
        },
        ResponseBody::BatterySnapshot { percent } => {
            s.append("Battery=");
            text::push_decimal(&mut s, percent as u64);
            s.append("%");
        },
        ResponseBody::NonceHello { nonce } => {
            s.append("NonceHello=");
            push_nonce(&mut s, nonce);
        },
        ResponseBody::AnnounceReply { mac, rssi_dbm, role_tag } => {
            s.append("AnnounceReply mac=");
            push_mac(&mut s, &mac);
            s.append(" rssi=");
            text::push_integer(&mut s, rssi_dbm as i32);
            s.append("dBm role=");
            s.append(text::readable_text(role_tag.as_slice()));
        },
    }
    assert(s@ =~= response_summary(*resp));
    s
}

/// The dashboard after a response: what it reports is remembered, and it is logged
/// with its bytes.
pub open spec fn response_taken(
    app: AppView,
    resp: CommandResponse,
    bytes: Seq<u8>,
    now_us: u64,
    next: AppView,
) -> bool {
    let entry = EventView {
        ts_us: now_us,
        dir: EventDirection::Rx,
        summary: response_summary(resp),
        bytes: Some(bytes),
    };
    &&& next == (AppView {
        battery: match resp.body {
            ResponseBody::BatterySnapshot { percent } => Some(percent),
            _ => app.battery,
        },
        session_nonce: match resp.body {
            ResponseBody::NonceHello { nonce } => Some(nonce),
            _ => app.session_nonce,
        },
        last_response: Some((resp.req_seq, resp.body)),
        events: state::logged(app.events, entry),
        receivers: next.receivers,
        ..app
    })
    &&& match resp.body {
        ResponseBody::AnnounceReply { mac, rssi_dbm, role_tag } => state::reported(
            app.receivers,
            mac,
            role_tag,
            rssi_dbm,
            now_us,
            next.receivers,
        ),
        _ => next.receivers == app.receivers,
    }
}

/// Takes a decoded response, or logs what is wrong with it.
pub fn take_response(app: &mut AppState, bytes: &[u8], decoded: Result<CommandResponse, String>, now_us: u64)
    requires
        state::list_wf(old(app).receivers@),
    ensures
        state::list_wf(final(app).receivers@),
        old(app).wf() ==> final(app).wf(),
        match decoded {
            Ok(resp) => response_taken(old(app)@, resp, bytes@, now_us, final(app)@),
            Err(words) => final(app)@ == old(app)@.warning("decode Response 失败: "@ + words@, now_us),
        },
{
    match decoded {
        Ok(resp) => {
            let summary = summarize_response(&resp);
            match resp.body {
                ResponseBody::BatterySnapshot { percent } => {
                    app.battery = Some(percent);
                },
                ResponseBody::NonceHello { nonce } => {
                    app.session_nonce = Some(nonce);
                },
                ResponseBody::AnnounceReply { mac, rssi_dbm, role_tag } => {
                    app.upsert_receiver(mac, role_tag, rssi_dbm, now_us);
                },
                _ => {},
            }
            app.last_response = Some((resp.req_seq, resp.body));
            app.push_event(EventEntry::rx(summary, copied(bytes), now_us));
        },
        Err(words) => {
            app.warn(joined("decode Response 失败: ", words.as_str()), now_us);
        },
    }
}

/// Takes the bytes of a response notification. `decode` turns them into a response,
/// or says in words what is wrong with them.
pub fn on_response_notification<D>(app: &mut AppState, bytes: &[u8], decode: D, now_us: u64) where
    D: Fn(&[u8]) -> Result<CommandResponse, String>,

    requires
        state::list_wf(old(app).receivers@),
        decode.requires((bytes,)),
    ensures
        state::list_wf(final(app).receivers@),
        old(app).wf() ==> final(app).wf(),
        bytes@.len() != RESPONSE_LEN ==> final(app)@ == old(app)@.warning(
            length_warning("Response"@, bytes@.len(), RESPONSE_LEN as nat),
            now_us,
        ),
        bytes@.len() == RESPONSE_LEN ==> exists|decoded: Result<CommandResponse, String>| #[trigger]
            decode.ensures((bytes,), decoded) && match decoded {
                Ok(resp) => response_taken(old(app)@, resp, bytes@, now_us, final(app)@),
                Err(words) => final(app)@ == old(app)@.warning(
                    "decode Response 失败: "@ + words@,
                    now_us,
                ),
            },
{
    if bytes.len() != RESPONSE_LEN {
        app.warn(length_warning_text("Response", bytes.len(), RESPONSE_LEN), now_us);
        return;
    }
    let decoded = decode(bytes);
    take_response(app, bytes, decoded, now_us);
}

// ---- Laws ----

/// A frame that was decoded is what the page shows from then on: its state and its number,
/// and nothing else changes. One that was not leaves both alone and is warned about.
pub proof fn lemma_frame_is_shown_or_warned_about(app: AppView, decoded: Result<Frame, Seq<char>>, now_us: u64)
    ensures
        ({
            let next = frame_taken(app, decoded, now_us);
            &&& decoded is Ok ==> {
                &&& next.gamepad == decoded->Ok_0.payload
                &&& next.last_frame_seq == decoded->Ok_0.header.seq
                &&& next.events == app.events
            }
            &&& decoded is Err ==> {
                &&& next.gamepad == app.gamepad
                &&& next.last_frame_seq == app.last_frame_seq
                &&& next.events.last().dir is Warn
                &&& next.events.last().ts_us == now_us
            }
            &&& next.conn == app.conn
            &&& next.battery == app.battery
            &&& next.session_nonce == app.session_nonce
            &&& next.key_id == app.key_id
            &&& next.tx_counter == app.tx_counter
            &&& next.receivers == app.receivers
        }),
{
}

/// A response is remembered for what it says: a battery level, a nonce, or an endpoint, each
/// as reported, and each response only for its own kind. Every response is the newest one
/// afterwards, and is logged as received with its bytes and its time.
pub proof fn lemma_response_is_remembered_for_its_kind(
    app: AppView,
    resp: CommandResponse,
    bytes: Seq<u8>,
    now_us: u64,
    next: AppView,
)
    requires
        response_taken(app, resp, bytes, now_us, next),
    ensures
        resp.body is BatterySnapshot ==> next.battery == Some(resp.body->percent),
        !(resp.body is BatterySnapshot) ==> next.battery == app.battery,
        resp.body is NonceHello ==> next.session_nonce == Some(resp.body->nonce),
        !(resp.body is NonceHello) ==> next.session_nonce == app.session_nonce,
        !(resp.body is AnnounceReply) ==> next.receivers == app.receivers,
        next.last_response == Some((resp.req_seq, resp.body)),
        next.events.last().dir is Rx,
        next.events.last().ts_us == now_us,
        next.events.last().bytes == Some(bytes),
        next.conn == app.conn,
        next.key_id == app.key_id,
        next.gamepad == app.gamepad,
        next.last_frame_seq == app.last_frame_seq,
        next.tx_counter == app.tx_counter,
{
}

/// An endpoint that reports itself is in the list afterwards, with the role, the signal
/// strength and the time of the report, as long as an id is free.
pub proof fn lemma_reporting_endpoint_is_listed(
    app: AppView,
    resp: CommandResponse,
    bytes: Seq<u8>,
    now_us: u64,
    next: AppView,
    free: u8,
)
    requires
        response_taken(app, resp, bytes, now_us, next),
        resp.body is AnnounceReply,
        state::list_wf(app.receivers),
        free < 32,
        forall|i: int| 0 <= i < app.receivers.len() ==> (#[trigger] app.receivers[i]).receiver_id != free,
    ensures
        exists|j: int|
            #![trigger next.receivers[j]]
            0 <= j < next.receivers.len() && next.receivers[j].mac == resp.body->mac && next.receivers[j].role
                == resp.body->role_tag && next.receivers[j].rssi_dbm == resp.body->rssi_dbm
                && next.receivers[j].last_seen_us == now_us,
{
    let (mac, role, rssi) = (resp.body->mac, resp.body->role_tag, resp.body->rssi_dbm);
    if state::mac_listed(app.receivers, mac) {
        let at = choose|i: int| 0 <= i < app.receivers.len() && (#[trigger] app.receivers[i]).mac == mac;
        state::lemma_report_refreshes_its_endpoint(app.receivers, role, rssi, now_us, next.receivers, at, at);
        assert(next.receivers[at].mac == mac);
    } else {
        state::lemma_report_lists_a_new_endpoint(app.receivers, mac, role, rssi, now_us, next.receivers, free);
    }
}

/// A nonce is shown as all of its eight hexadecimal digits.
pub proof fn lemma_nonce_is_shown_whole(nonce: u32)
    ensures
        nonce_text(nonce).len() == 10,
        text::number_of(nonce_text(nonce).skip(2), 16) == nonce,
{
    reveal_strlit("0x");
    text::lemma_hex_reads_back(nonce as nat, 8);
    assert(nonce_text(nonce).skip(2) =~= text::lower_hex(nonce as nat, 8));
    assert(vstd::arithmetic::power::pow(16, 8) == 0x1_0000_0000) by {
        reveal_with_fuel(vstd::arithmetic::power::pow, 9);
    }
    vstd::arithmetic::div_mod::lemma_small_mod(nonce as nat, 0x1_0000_0000);
}

} // verus!
