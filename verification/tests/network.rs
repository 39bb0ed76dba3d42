use controller::comm::dispatch::Delivery;
use controller::comm::keyring::Keyring;
use controller::comm::loopback::{pair, Loopback, LoopbackError, TryRecv, Wire, BROADCAST};
use controller::comm::notifier::outbound::Outbound;
use controller::comm::notifier::signals::{
    CommandDest, CommandOutChannel, FrameSignal, OutboundCommand, ResponseChannel,
};
use controller::comm::notifier::{Notifier, NotifierError};
use controller::comm::peer_registry::PeerRegistry;
use controller::comm::receiver::{CommandOutcome, CommandSource, Receiver, UNASSIGNED_ID};
use controller::comm::replay::ReplayGuard;
use controller::comm::selector::Selector;
use controller::protocol::{
    Command, CommandBody, CommandResponse, ErrorCode, Frame, GamepadState, KeyId, ResponseBody,
    COMMAND_LEN, COMMAND_MAGIC, FRAME_LEN, FRAME_MAGIC, RESPONSE_LEN, RESPONSE_MAGIC,
};
use controller::time::Instant;

const MAC_A: [u8; 6] = [0xAA; 6];
const MAC_B: [u8; 6] = [0xBB; 6];

// ---- A simple wire format ----

fn encode_command(cmd: Command) -> [u8; COMMAND_LEN] {
    let mut b = [0u8; COMMAND_LEN];
    b[0..2].copy_from_slice(&COMMAND_MAGIC.to_le_bytes());
    b[2..6].copy_from_slice(&cmd.seq.to_le_bytes());
    b[6] = cmd.key_id.as_u8();
    match cmd.kind {
        CommandBody::Nop => b[7] = 0,
        CommandBody::LedBlink { led_idx, count, period_ms } => {
            b[7] = 1;
            b[8] = led_idx;
            b[9] = count;
            b[10..12].copy_from_slice(&period_ms.to_le_bytes());
        }
        CommandBody::SetSensitivity { joy_scale, knob_scale } => {
            b[7] = 2;
            b[8..10].copy_from_slice(&joy_scale.to_le_bytes());
            b[10..12].copy_from_slice(&knob_scale.to_le_bytes());
        }
        CommandBody::ShowToast { len, bytes } => {
            b[7] = 3;
            b[8] = len;
            b[9..14].copy_from_slice(&bytes);
        }
        CommandBody::SetBatteryMode { simulate } => {
            b[7] = 4;
            b[8] = u8::from(simulate);
        }
        CommandBody::Announce => b[7] = 5,
        CommandBody::AssignId { mac, receiver_id } => {
            b[7] = 6;
            b[8..14].copy_from_slice(&mac);
            b[14] = receiver_id;
        }
    }
    b
}

fn decode_command(b: &[u8]) -> Option<Command> {
    let seq = u32::from_le_bytes([b[2], b[3], b[4], b[5]]);
    let key_id = KeyId::new(b[6]).ok()?;
    let kind = match b[7] {
        0 => CommandBody::Nop,
        1 => CommandBody::LedBlink {
            led_idx: b[8],
            count: b[9],
            period_ms: u16::from_le_bytes([b[10], b[11]]),
        },
        2 => CommandBody::SetSensitivity {
            joy_scale: u16::from_le_bytes([b[8], b[9]]),
            knob_scale: u16::from_le_bytes([b[10], b[11]]),
        },
        3 => CommandBody::ShowToast { len: b[8], bytes: [b[9], b[10], b[11], b[12], b[13]] },
        4 => CommandBody::SetBatteryMode { simulate: b[8] != 0 },
        5 => CommandBody::Announce,
        6 => CommandBody::AssignId {
            mac: [b[8], b[9], b[10], b[11], b[12], b[13]],
            receiver_id: b[14],
        },
        _ => return None,
    };
    Some(Command::with_key(seq, key_id, kind))
}

fn encode_response(resp: CommandResponse) -> [u8; RESPONSE_LEN] {
    let mut b = [0u8; RESPONSE_LEN];
    b[0..2].copy_from_slice(&RESPONSE_MAGIC.to_le_bytes());
    b[2..6].copy_from_slice(&resp.req_seq.to_le_bytes());
    b[6] = resp.key_id.as_u8();
    match resp.body {
        ResponseBody::Ack => b[7] = 0,
        ResponseBody::Error(code) => {
            b[7] = 1;
            b[8] = if code == ErrorCode::Unsupported { 1 } else { 2 };
        }
        ResponseBody::BatterySnapshot { percent } => {
            b[7] = 2;
            b[8] = percent;
        }
        ResponseBody::NonceHello { nonce } => {
            b[7] = 3;
            b[8..12].copy_from_slice(&nonce.to_le_bytes());
        }
        ResponseBody::AnnounceReply { mac, rssi_dbm, role_tag } => {
            b[7] = 4;
            b[8..14].copy_from_slice(&mac);
            b[14] = rssi_dbm as u8;
            b[15..18].copy_from_slice(&role_tag);
        }
    }
    b
}

fn decode_response(b: &[u8]) -> Option<CommandResponse> {
    let req_seq = u32::from_le_bytes([b[2], b[3], b[4], b[5]]);
    let key_id = KeyId::new(b[6]).ok()?;
    let body = match b[7] {
        0 => ResponseBody::Ack,
        1 => ResponseBody::Error(if b[8] == 1 {
            ErrorCode::Unsupported
        } else {
            ErrorCode::InvalidArgument
        }),
        2 => ResponseBody::BatterySnapshot { percent: b[8] },
        3 => ResponseBody::NonceHello { nonce: u32::from_le_bytes([b[8], b[9], b[10], b[11]]) },
        4 => ResponseBody::AnnounceReply {
            mac: [b[8], b[9], b[10], b[11], b[12], b[13]],
            rssi_dbm: b[14] as i8,
            role_tag: [b[15], b[16], b[17]],
        },
        _ => return None,
    };
    Some(CommandResponse { req_seq, key_id, body })
}

fn peek_nonce_hello(b: &[u8]) -> Option<u32> {
    match decode_response(b)?.body {
        ResponseBody::NonceHello { nonce } => Some(nonce),
        _ => None,
    }
}

fn encode_frame(f: Frame) -> [u8; FRAME_LEN] {
    let mut b = [0u8; FRAME_LEN];
    b[0..2].copy_from_slice(&FRAME_MAGIC.to_le_bytes());
    b[2..6].copy_from_slice(&f.header.seq.to_le_bytes());
    b[6..10].copy_from_slice(&f.dest_mask.to_le_bytes());
    b[10..12].copy_from_slice(&f.payload.buttons.to_le_bytes());
    b[12..14].copy_from_slice(&f.payload.joy_x.to_le_bytes());
    b[14..16].copy_from_slice(&f.payload.joy_y.to_le_bytes());
    b[16..18].copy_from_slice(&f.payload.knob_1.to_le_bytes());
    b[18..20].copy_from_slice(&f.payload.knob_2.to_le_bytes());
    b
}

fn decode_frame(b: &[u8]) -> Option<Frame> {
    let state = GamepadState {
        buttons: u16::from_le_bytes([b[10], b[11]]),
        joy_x: i16::from_le_bytes([b[12], b[13]]),
        joy_y: i16::from_le_bytes([b[14], b[15]]),
        knob_1: u16::from_le_bytes([b[16], b[17]]),
        knob_2: u16::from_le_bytes([b[18], b[19]]),
    };
    Some(Frame::with_dest(
        u32::from_le_bytes([b[2], b[3], b[4], b[5]]),
        state,
        u32::from_le_bytes([b[6], b[7], b[8], b[9]]),
    ))
}

fn on_the_wire(out: Outbound) -> Vec<u8> {
    match out {
        Outbound::Frame { dest: _, frame } => encode_frame(frame).to_vec(),
        Outbound::Response(resp) => encode_response(resp).to_vec(),
        Outbound::Command(cmd) => cmd.bytes.to_vec(),
    }
}

// ---- Two devices ----

struct Seen {
    commands: Vec<Command>,
    frames: Vec<Frame>,
    responses: Vec<CommandResponse>,
    upstream_frames: Vec<Frame>,
}

struct Net {
    a: Notifier,
    b: Receiver,
    link: Loopback,
    seen: Seen,
}

fn coordinator() -> Notifier {
    Notifier::builder()
        .keyring(Keyring::new())
        .peers(PeerRegistry::new())
        .replay(ReplayGuard::new())
        .selector(Selector::broadcast_all())
        .frame_signal(FrameSignal::new())
        .command_signal(CommandOutChannel::new())
        .response_signal(ResponseChannel::new())
        .with_response_handler()
        .build()
}

fn endpoint() -> Receiver {
    Receiver::builder()
        .keyring(Keyring::new())
        .replay(ReplayGuard::new())
        .response_signal(ResponseChannel::new())
        .frame_signal(FrameSignal::new())
        .command_signal(CommandOutChannel::new())
        .role_tag(*b"led")
        .mac(MAC_B)
        .my_id(UNASSIGNED_ID)
        .command_handler()
        .frame_handler()
        .build()
}

fn net() -> Net {
    Net {
        a: coordinator(),
        b: endpoint(),
        link: pair(MAC_A, MAC_B),
        seen: Seen { commands: vec![], frames: vec![], responses: vec![], upstream_frames: vec![] },
    }
}

impl Net {
    /// Exchanges packets until nobody has anything left to send.
    fn run(&mut self, handler: fn(&Command) -> CommandOutcome) {
        loop {
            let mut busy = false;
            let link = &mut self.link;
            if let Some(out) = self.a.next_to_send() {
                link.a_send.send(&mut link.ab, BROADCAST, &on_the_wire(out)).unwrap();
            }
            while link.b_recv.recv(&mut link.ab) == Ok(TryRecv::Received) {
                busy = true;
                let packet = link.b_recv.packet();
                assert_eq!(packet.src, MAC_A);
                match self.b.on_packet(packet.data, decode_command, decode_frame, peek_nonce_hello) {
                    Delivery::Command(cmd) => {
                        self.seen.commands.push(cmd);
                        self.b.on_handled(&cmd, handler(&cmd));
                    }
                    Delivery::Frame(frame) => self.seen.frames.push(frame),
                    Delivery::Response(_) => panic!("endpoints have no response handler"),
                    Delivery::Nothing => {}
                }
            }
            if let Some(out) = self.b.next_to_send() {
                link.b_send.send(&mut link.ba, BROADCAST, &on_the_wire(out)).unwrap();
            }
            while link.a_recv.recv(&mut link.ba) == Ok(TryRecv::Received) {
                busy = true;
                let packet = link.a_recv.packet();
                assert_eq!(packet.src, MAC_B);
                let at = Instant::from_ticks(0);
                match self.a.on_packet(
                    packet.data,
                    at,
                    decode_response,
                    decode_command,
                    decode_frame,
                    encode_command,
                ) {
                    Delivery::Response(resp) => self.seen.responses.push(resp),
                    Delivery::Frame(frame) => self.seen.upstream_frames.push(frame),
                    _ => {}
                }
            }
            if !busy {
                return;
            }
        }
    }
}

fn done(_cmd: &Command) -> CommandOutcome {
    CommandOutcome::Done
}

#[test]
fn discovery_and_assign_id_flow() {
    let mut net = net();
    net.a.discover(encode_command);
    net.run(done);
    assert_eq!(net.b.assigned_id(), 0, "receiver 应拿到 id=0");
    assert_eq!(net.a.peers().len(), 1, "notifier 侧 peer 目录应有 1 条");
    let snap = net.a.peers();
    assert_eq!(snap.as_slice()[0].mac, MAC_B);
    assert_eq!(snap.as_slice()[0].role_bytes(), b"led");
}

#[test]
fn command_flow_triggers_handler_and_returns_ack() {
    let mut net = net();
    net.a.send_command(CommandBody::LedBlink { led_idx: 0, count: 3, period_ms: 100 }, encode_command);
    net.run(|cmd| match cmd.kind {
        CommandBody::LedBlink { .. } => CommandOutcome::Done,
        _ => CommandOutcome::Refused(ErrorCode::Unsupported),
    });
    assert_eq!(net.seen.commands.len(), 1);
    match net.seen.commands[0].kind {
        CommandBody::LedBlink { count, .. } => assert_eq!(count, 3),
        other => panic!("unexpected {:?}", other),
    }
    assert_eq!(net.seen.responses.len(), 1);
    assert_eq!(net.seen.responses[0].body, ResponseBody::Ack);
    assert_eq!(net.seen.responses[0].req_seq, 1);
}

#[test]
fn anti_replay_rejects_duplicate_seq() {
    let mut net = net();
    let cmd = Command::with_key(
        42,
        KeyId::default(),
        CommandBody::LedBlink { led_idx: 0, count: 1, period_ms: 50 },
    );
    let bytes = encode_command(cmd);
    for _ in 0..2 {
        if let Delivery::Command(cmd) =
            net.b.on_packet(&bytes, decode_command, decode_frame, peek_nonce_hello)
        {
            net.seen.commands.push(cmd);
            net.b.on_handled(&cmd, CommandOutcome::Done);
        }
        net.run(done);
    }
    assert_eq!(net.seen.commands.len(), 1, "重放帧应被 anti-replay 拒绝");
    assert_eq!(net.seen.responses.len(), 1);
}

#[test]
fn selector_reflects_discovered_peer() {
    let mut net = net();
    net.a.discover(encode_command);
    net.run(done);
    assert!(!net.a.peers().is_empty());
    assert!(net.a.selector().unwrap().is_active_selected(0));
    net.a.select_targets(1 << 0);
    assert!(net.a.selector().unwrap().is_active_selected(0));
    assert!(!net.a.selector().unwrap().is_active_selected(1));
}

#[test]
fn frame_flow_delivers_to_receiver() {
    let mut net = net();
    let mut state = GamepadState::empty();
    state.buttons = 0xBEEF;
    net.a.send_frame(&Frame::with_dest(1, state, u32::MAX));
    net.run(done);
    assert_eq!(net.seen.frames.len(), 1, "frame_handler 应被调用一次");
    assert_eq!(net.seen.frames[0].payload.buttons, 0xBEEF, "payload.buttons 应完整穿透 encode→decode");
}

#[test]
fn frame_dest_mask_filters_by_id() {
    let mut net = net();
    net.a.discover(encode_command);
    net.run(done);
    assert_eq!(net.b.assigned_id(), 0);
    net.a.send_frame(&Frame::with_dest(1, GamepadState::empty(), 1u32 << 3));
    net.run(done);
    assert_eq!(net.seen.frames.len(), 0, "dest_mask 未覆盖本机 id 时 frame_handler 应被过滤掉");
}

#[test]
fn receiver_report_reaches_notifier() {
    let mut net = net();
    net.a.discover(encode_command);
    net.run(done);
    assert_eq!(net.b.assigned_id(), 0);
    net.b.report(ResponseBody::BatterySnapshot { percent: 85 });
    net.run(done);
    let reports: Vec<&CommandResponse> = net
        .seen
        .responses
        .iter()
        .filter(|r| matches!(r.body, ResponseBody::BatterySnapshot { .. }))
        .collect();
    assert_eq!(reports.len(), 1, "response_handler 应被调用一次");
    assert_eq!(
        reports[0].body,
        ResponseBody::BatterySnapshot { percent: 85 },
        "上报的 percent 应完整穿透 encode→decode"
    );
    assert!(
        !net.seen.responses.iter().any(|r| matches!(r.body, ResponseBody::AnnounceReply { .. })),
        "AnnounceReply 属于 comm 内部机制，不应转发给业务 response_handler"
    );
}

#[test]
fn receiver_send_frame_reaches_notifier_dual_role() {
    let mut net = net();
    net.a = Notifier::builder()
        .keyring(Keyring::new())
        .peers(PeerRegistry::new())
        .replay(ReplayGuard::new())
        .frame_signal(FrameSignal::new())
        .command_signal(CommandOutChannel::new())
        .response_signal(ResponseChannel::new())
        .with_command_handler(*b"hst", MAC_A, UNASSIGNED_ID, CommandSource::EspNow)
        .with_frame_handler()
        .build();
    let mut state = GamepadState::empty();
    state.buttons = 0xCAFE;
    net.b.send_frame(&Frame::with_dest(1, state, u32::MAX));
    net.run(done);
    assert_eq!(
        net.seen.upstream_frames.len(),
        1,
        "notifier 端 frame_handler 应被 receiver 主动上行的 Frame 触发一次"
    );
    assert_eq!(
        net.seen.upstream_frames[0].payload.buttons,
        0xCAFE,
        "receiver→notifier 方向的 Frame payload 应完整穿透 encode→decode"
    );
}

#[test]
fn assign_id_resends_on_updated_and_self_heals() {
    let mut net = net();
    net.a.discover(encode_command);
    net.run(done);
    assert_eq!(net.b.assigned_id(), 0, "首轮应分配 id=0");
    assert_eq!(net.a.peers().len(), 1, "peer 已入库");
    net.b.config.my_id = UNASSIGNED_ID;
    net.a.discover(encode_command);
    net.run(done);
    assert_eq!(net.b.assigned_id(), 0, "Updated 路径应重发 AssignId，receiver 自愈回 id=0");
    assert_eq!(net.a.peers().len(), 1, "peer 数量不应因重发变化");
}

#[test]
fn receiver_adopts_nonce_from_nonce_hello_broadcast() {
    const START_NONCE: u32 = 0x1111_1111;
    const BROADCAST_NONCE: u32 = 0x2222_2222;
    let mut net = net();
    net.b.state.nonce.init_session_nonce(START_NONCE);
    assert_eq!(net.b.state.nonce.session_nonce(), START_NONCE);
    net.a.state.nonce.init_session_nonce(BROADCAST_NONCE);
    controller::comm::notifier::nonce::broadcast_once(
        &net.a.state.nonce,
        &mut net.a.state.response_signal,
        &mut net.a.state.drops,
    );
    net.run(done);
    assert_eq!(
        net.b.state.nonce.session_nonce(),
        BROADCAST_NONCE,
        "receiver 的 dispatch 应免鉴权采纳 NonceHello 里的 nonce"
    );
}

#[test]
fn single_target_frame_auto_unicasts_and_delivers() {
    let mut net = net();
    let _ = net.a.peers.upsert(MAC_B, *b"led", -20, Instant::from_ticks(0));
    net.b.config.my_id = 0;
    let mut state = GamepadState::empty();
    state.buttons = 0x1234;
    let frame = Frame::with_dest(1, state, 1u32 << 0);
    net.a.send_frame(&frame);
    assert_eq!(
        net.a.next_to_send(),
        Some(Outbound::Frame { dest: CommandDest::Unicast(MAC_B), frame })
    );
    net.a.send_frame(&frame);
    net.run(done);
    assert_eq!(net.seen.frames.len(), 1, "单目标 Frame 经自动单播后仍应送达目标 peer");
    assert_eq!(
        net.seen.frames[0].payload.buttons,
        0x1234,
        "单播帧应携带完整 payload，且 dest_mask 使 receiver 过滤放行"
    );
}

#[test]
fn multi_target_frame_broadcasts_and_delivers() {
    let mut net = net();
    let _ = net.a.peers.upsert(MAC_B, *b"led", -20, Instant::from_ticks(0));
    let _ = net.a.peers.upsert([0xCC; 6], *b"srv", -30, Instant::from_ticks(0));
    net.b.config.my_id = 0;
    let frame = Frame::with_dest(1, GamepadState::empty(), (1u32 << 0) | (1u32 << 1));
    net.a.send_frame(&frame);
    assert_eq!(net.a.next_to_send(), Some(Outbound::Frame { dest: CommandDest::Broadcast, frame }));
    net.a.send_frame(&frame);
    net.run(done);
    assert_eq!(net.seen.frames.len(), 1, "多目标 Frame 应走广播且送达被寻址的本机");
}

#[test]
fn send_command_to_unicasts_registered_peer_and_reports_no_target_otherwise() {
    let mut notifier = coordinator();
    assert_eq!(
        notifier.send_command_to(0, CommandBody::Nop, encode_command),
        Err(NotifierError::NoTarget)
    );
    assert!(notifier.command_signal.try_receive().is_none(), "NoTarget 不应向出站通道写入任何命令");

    let mac = [0xDE, 0xAD, 0xBE, 0xEF, 0x00, 0x01];
    let _ = notifier.peers.upsert(mac, *b"led", -20, Instant::from_ticks(0));

    notifier
        .send_command_to(
            0,
            CommandBody::LedBlink { led_idx: 0, count: 3, period_ms: 100 },
            encode_command,
        )
        .expect("已注册 peer 应是合法目标");

    let out: OutboundCommand =
        notifier.command_signal.try_receive().expect("send_command_to 应向出站通道写入一条命令");
    assert_eq!(out.dest, CommandDest::Unicast(mac), "目标寻址应为该 peer 的单播 MAC");
    assert_eq!(
        u16::from_le_bytes([out.bytes[0], out.bytes[1]]),
        COMMAND_MAGIC,
        "写出的字节应是合法编码的 Command 帧"
    );

    notifier.send_command_to_mac(mac, CommandBody::Nop, encode_command);
    let out2 = notifier.command_signal.try_receive().expect("send_command_to_mac 应写入命令");
    assert_eq!(out2.dest, CommandDest::Unicast(mac));
}

#[test]
fn refused_and_silent_commands_are_answered_as_asked() {
    let mut net = net();
    net.a.send_command(CommandBody::Nop, encode_command);
    net.run(|_| CommandOutcome::Refused(ErrorCode::Unsupported));
    net.a.send_command(CommandBody::Nop, encode_command);
    net.run(|_| CommandOutcome::NoReply);
    net.a.send_command(CommandBody::Nop, encode_command);
    net.run(|cmd| {
        CommandOutcome::Respond(CommandResponse {
            req_seq: cmd.seq,
            key_id: cmd.key_id,
            body: ResponseBody::BatterySnapshot { percent: 7 },
        })
    });
    let bodies: Vec<ResponseBody> = net.seen.responses.iter().map(|r| r.body).collect();
    assert_eq!(
        bodies,
        vec![
            ResponseBody::Error(ErrorCode::Unsupported),
            ResponseBody::BatterySnapshot { percent: 7 }
        ]
    );
    assert_eq!(net.seen.responses[0].req_seq, 1);
    assert_eq!(net.seen.responses[1].req_seq, 3);
}

#[test]
fn damaged_packets_are_ignored() {
    let mut net = net();
    let nothing = |_: &[u8]| None::<Command>;
    let bytes = encode_command(Command::with_key(1, KeyId::default(), CommandBody::Nop));
    assert_eq!(
        net.b.on_packet(&bytes, nothing, decode_frame, peek_nonce_hello),
        Delivery::Nothing
    );
    assert_eq!(
        net.b.on_packet(&[1, 2, 3], decode_command, decode_frame, peek_nonce_hello),
        Delivery::Nothing
    );
    assert_eq!(
        net.b.on_packet(&bytes[..20], decode_command, decode_frame, peek_nonce_hello),
        Delivery::Nothing
    );
}

#[test]
fn key_rotation_changes_the_numbering_key() {
    let mut notifier = coordinator();
    notifier.send_command(CommandBody::Nop, encode_command);
    notifier.rotate_key(KeyId::new(1).unwrap()).unwrap();
    notifier.send_command(CommandBody::Nop, encode_command);
    let first = decode_command(&notifier.command_signal.try_receive().unwrap().bytes).unwrap();
    let second = decode_command(&notifier.command_signal.try_receive().unwrap().bytes).unwrap();
    assert_eq!((first.key_id.as_u8(), first.seq), (0, 1));
    assert_eq!((second.key_id.as_u8(), second.seq), (1, 1));
}

#[test]
fn wires_deliver_in_order_and_tell_when_an_end_is_gone() {
    let Loopback { mut ab, mut a_send, mut a_recv, mut b_recv, .. } = pair(MAC_A, MAC_B);
    assert_eq!(b_recv.recv(&mut ab), Ok(TryRecv::Empty));
    a_send.send(&mut ab, MAC_B, &[1, 2]).unwrap();
    a_send.send(&mut ab, BROADCAST, &[3]).unwrap();
    assert_eq!(b_recv.recv(&mut ab), Ok(TryRecv::Received));
    assert_eq!((b_recv.packet().src, b_recv.packet().data), (MAC_A, &[1u8, 2][..]));
    assert!(matches!(a_send.recv(), Err(LoopbackError::Disconnected)));
    assert_eq!(a_recv.send(MAC_B, &[9]), Err(LoopbackError::Disconnected));
    a_send.close(&mut ab);
    assert_eq!(b_recv.recv(&mut ab), Ok(TryRecv::Received));
    assert_eq!(b_recv.packet().data, &[3u8][..]);
    assert_eq!(b_recv.recv(&mut ab), Err(LoopbackError::Disconnected));
    let mut wire = Wire::new();
    b_recv.close(&mut wire);
    let Loopback { mut b_send, .. } = pair(MAC_A, MAC_B);
    assert_eq!(b_send.send(&mut wire, BROADCAST, &[1]), Err(LoopbackError::Disconnected));
}

#[test]
fn announcements_are_answered_however_old_their_number_is() {
    let mut b = endpoint();
    let nop = encode_command(Command::with_key(500, KeyId::default(), CommandBody::Nop));
    let announce = encode_command(Command::with_key(1, KeyId::default(), CommandBody::Announce));
    assert!(matches!(
        b.on_packet(&nop, decode_command, decode_frame, peek_nonce_hello),
        Delivery::Command(_)
    ));
    let windows = b.state.replay.snapshot();
    for _ in 0..2 {
        let left = b.on_packet(&announce, decode_command, decode_frame, peek_nonce_hello);
        assert_eq!(left, Delivery::Nothing);
        let answer = b.state.response_signal.try_receive().unwrap();
        assert!(matches!(answer.body, ResponseBody::AnnounceReply { mac: MAC_B, .. }));
    }
    assert_eq!(b.state.replay.snapshot(), windows);
}
