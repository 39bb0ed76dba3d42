use controller::comm::metrics::{
    dropped_commands, dropped_responses, record_dropped_command, record_dropped_response, reset, snapshot,
    DropMetrics,
};
use controller::comm::notifier::nonce::{broadcast_once, init_session, EntropySource};
use controller::comm::notifier::outbound::{frame_dest, resend_command};
use controller::comm::notifier::signals::{
    enqueue_command, enqueue_response, CommandDest, CommandOutChannel, FrameSignal, OutboundCommand,
    ResponseChannel, OUTBOUND_QUEUE_DEPTH,
};
use controller::comm::peer_registry::{PeerInfo, PeerRegistry, UpsertOutcome, RSSI_UNKNOWN};
use controller::comm::replay::{ReplayCheckError, ReplayGuard};
use controller::comm::selector::{Selector, DEST_MASK_ALL};
use controller::protocol::{
    CommandResponse, Frame, GamepadState, KeyId, ReplayError, ResponseBody, SessionNonce, COMMAND_LEN,
};
use controller::time::{Duration, Instant};

// ---- Drop counting ----

#[test]
fn enqueue_helpers_count_drops_on_full_queue() {
    let mut metrics = DropMetrics::new();
    let mut cmd_chan = CommandOutChannel::new();
    let before_cmd = dropped_commands(&metrics);
    let cmd = OutboundCommand::broadcast([0u8; COMMAND_LEN]);
    let cmd_overflow = 3_u32;
    for _ in 0..(OUTBOUND_QUEUE_DEPTH as u32 + cmd_overflow) {
        enqueue_command(&mut cmd_chan, &mut metrics, cmd);
    }
    assert_eq!(
        dropped_commands(&metrics) - before_cmd,
        cmd_overflow,
        "队列满后每条 Command 丢弃都应计数"
    );

    let mut resp_chan = ResponseChannel::new();
    let before_resp = dropped_responses(&metrics);
    let resp = CommandResponse::nonce_hello(1);
    let resp_overflow = 2_u32;
    for _ in 0..(OUTBOUND_QUEUE_DEPTH as u32 + resp_overflow) {
        enqueue_response(&mut resp_chan, &mut metrics, resp);
    }
    assert_eq!(
        dropped_responses(&metrics) - before_resp,
        resp_overflow,
        "队列满后每条 Response 丢弃都应计数"
    );

    let snap = snapshot(&metrics);
    assert_eq!(snap.commands, dropped_commands(&metrics));
    assert_eq!(snap.responses, dropped_responses(&metrics));
    assert!(!snap.is_clean());
}

#[test]
fn drop_counts_can_be_reset() {
    let mut metrics = DropMetrics::new();
    assert!(snapshot(&metrics).is_clean());
    record_dropped_command(&mut metrics);
    record_dropped_response(&mut metrics);
    assert!(!snapshot(&metrics).is_clean());
    reset(&mut metrics);
    assert!(snapshot(&metrics).is_clean());
}

// ---- Session nonce ----

struct FixedEntropy(u32);

impl EntropySource for FixedEntropy {
    fn may_draw(before: Self, value: u32, _after: Self) -> bool {
        value == before.0
    }

    fn read_u32(&mut self) -> u32 {
        self.0
    }
}

#[test]
fn init_session_writes_nonce() {
    let mut nonce = SessionNonce::new();
    let mut entropy = FixedEntropy(0xDEAD_BEEF);
    let written = init_session(&mut entropy, &mut nonce);
    assert_eq!(written, 0xDEAD_BEEF);
    assert_eq!(nonce.session_nonce(), 0xDEAD_BEEF);
}

#[test]
fn init_session_zero_seed_avoids_sentinel() {
    let mut nonce = SessionNonce::new();
    let mut entropy = FixedEntropy(0);
    let written = init_session(&mut entropy, &mut nonce);
    assert_ne!(written, 0);
}

#[test]
fn broadcast_once_signals_current_nonce() {
    let mut nonce = SessionNonce::new();
    nonce.init_session_nonce(0x1234_5678);
    let mut sig = ResponseChannel::new();
    let mut metrics = DropMetrics::new();
    broadcast_once(&nonce, &mut sig, &mut metrics);
    let sent = sig.try_receive();
    assert!(sent.is_some());
    assert_eq!(sent.unwrap().body, ResponseBody::NonceHello { nonce: 0x1234_5678 });
}

// ---- Directory of endpoints ----

fn now() -> Instant {
    Instant::from_ticks(0)
}

#[test]
fn insert_new_mac_allocates_id_zero() {
    let mut reg = PeerRegistry::new();
    let mac = [0x11, 0x22, 0x33, 0x44, 0x55, 0x66];
    match reg.upsert(mac, *b"led", -42, now()) {
        UpsertOutcome::Inserted { receiver_id } => assert_eq!(receiver_id, 0),
        other => panic!("expected Inserted, got {:?}", other),
    }
    assert_eq!(reg.len(), 1);
}

#[test]
fn re_upsert_same_mac_returns_updated_and_refreshes_fields() {
    let mut reg = PeerRegistry::new();
    let mac = [0xAA; 6];
    let _ = reg.upsert(mac, *b"led", -30, now());
    match reg.upsert(mac, *b"srv", -50, now()) {
        UpsertOutcome::Updated { receiver_id } => assert_eq!(receiver_id, 0),
        other => panic!("expected Updated, got {:?}", other),
    }
    let snap = reg.snapshot();
    assert_eq!(snap.len(), 1);
    assert_eq!(snap.as_slice()[0].role_bytes(), b"srv");
    assert_eq!(snap.as_slice()[0].rssi_dbm, -50);
}

#[test]
fn lookup_finds_existing_and_misses_unknown() {
    let mut reg = PeerRegistry::new();
    let mac = [1, 2, 3, 4, 5, 6];
    let _ = reg.upsert(mac, *b"led", -20, now());
    assert_eq!(reg.lookup_id_for_mac(&mac), Some(0));
    assert_eq!(reg.lookup_id_for_mac(&[9, 9, 9, 9, 9, 9]), None);
}

#[test]
fn reverse_lookup_maps_id_to_mac_and_misses_unknown() {
    let mut reg = PeerRegistry::new();
    let mac_a = [1, 2, 3, 4, 5, 6];
    let mac_b = [0xAA, 0xBB, 0xCC, 0xDD, 0xEE, 0xFF];
    let _ = reg.upsert(mac_a, *b"led", -20, now());
    let _ = reg.upsert(mac_b, *b"srv", -30, now());
    assert_eq!(reg.lookup_mac_for_id(0), Some(mac_a));
    assert_eq!(reg.lookup_mac_for_id(1), Some(mac_b));
    assert_eq!(reg.lookup_mac_for_id(2), None);
    assert_eq!(reg.lookup_mac_for_id(31), None);
}

#[test]
fn peer_by_id_returns_full_info_and_misses_unknown() {
    let mut reg = PeerRegistry::new();
    let mac_a = [1, 2, 3, 4, 5, 6];
    let mac_b = [0xAA, 0xBB, 0xCC, 0xDD, 0xEE, 0xFF];
    let _ = reg.upsert(mac_a, *b"led", -20, now());
    let _ = reg.upsert(mac_b, *b"srv", -30, now());

    let p0 = reg.peer_by_id(0).expect("id 0 present");
    assert_eq!(p0.receiver_id, 0);
    assert_eq!(p0.mac, mac_a);
    assert_eq!(p0.role, *b"led");
    assert_eq!(p0.rssi_dbm, -20);

    let p1 = reg.peer_by_id(1).expect("id 1 present");
    assert_eq!(p1.mac, mac_b);
    assert_eq!(p1.rssi_dbm, -30);

    assert_eq!(reg.peer_by_id(2), None);
    assert_eq!(reg.peer_by_id(31), None);
}

#[test]
fn reverse_lookup_round_trips_with_forward_lookup() {
    let mut reg = PeerRegistry::new();
    let mac = [0x10, 0x20, 0x30, 0x40, 0x50, 0x60];
    let UpsertOutcome::Inserted { receiver_id } = reg.upsert(mac, *b"srv", -25, now()) else {
        panic!("expected Inserted");
    };
    assert_eq!(reg.lookup_mac_for_id(receiver_id), Some(mac));
    assert_eq!(reg.lookup_id_for_mac(&mac), Some(receiver_id));
}

#[test]
fn ids_allocated_ascending_and_snapshot_sorted() {
    let mut reg = PeerRegistry::new();
    for i in 0..5_u8 {
        let _ = reg.upsert([i, 0, 0, 0, 0, 0], *b"aaa", -10, now());
    }
    let snap = reg.snapshot();
    let mut prev = -1_i32;
    for peer in snap.as_slice().iter() {
        let cur = i32::from(peer.receiver_id);
        assert!(cur > prev);
        prev = cur;
    }
}

#[test]
fn overflow_evicts_least_recently_seen() {
    let mut reg = PeerRegistry::new();
    for i in 0..32_u8 {
        let t = if i == 3 { 0 } else { 100 + u64::from(i) };
        let _ = reg.upsert([i, 0, 0, 0, 0, 0], *b"aaa", -10, Instant::from_ticks(t));
    }
    assert_eq!(reg.len(), 32);

    match reg.upsert([99, 0, 0, 0, 0, 0], *b"new", -10, Instant::from_ticks(999)) {
        UpsertOutcome::Evicted { receiver_id, evicted_id } => {
            assert_eq!(evicted_id, 3, "应淘汰 last_seen 最旧的 id 3");
            assert_eq!(receiver_id, 3, "新 peer 复用腾出的 id 3");
        }
        other => panic!("expected Evicted, got {:?}", other),
    }
    assert_eq!(reg.len(), 32);
    assert_eq!(reg.lookup_id_for_mac(&[3, 0, 0, 0, 0, 0]), None);
    assert_eq!(reg.lookup_id_for_mac(&[99, 0, 0, 0, 0, 0]), Some(3));
}

#[test]
fn prune_removes_only_stale_peers() {
    let mut reg = PeerRegistry::new();
    let _ = reg.upsert([1, 0, 0, 0, 0, 0], *b"old", -10, Instant::from_ticks(0));
    let _ = reg.upsert([2, 0, 0, 0, 0, 0], *b"new", -10, Instant::from_millis(10_000));
    assert_eq!(reg.len(), 2);

    let removed = reg.prune(Instant::from_millis(10_000), Duration::from_millis(5_000));
    assert_eq!(removed, 1);
    assert_eq!(reg.len(), 1);
    assert_eq!(reg.lookup_id_for_mac(&[1, 0, 0, 0, 0, 0]), None);
    assert_eq!(reg.lookup_id_for_mac(&[2, 0, 0, 0, 0, 0]), Some(1));
}

#[test]
fn prune_frees_id_for_reuse() {
    let mut reg = PeerRegistry::new();
    let _ = reg.upsert([1, 0, 0, 0, 0, 0], *b"led", -10, Instant::from_ticks(0));
    let _ = reg.upsert([2, 0, 0, 0, 0, 0], *b"srv", -10, Instant::from_ticks(0));
    reg.prune(Instant::from_millis(1), Duration::from_ticks(0));
    assert_eq!(reg.len(), 0);
    match reg.upsert([9, 0, 0, 0, 0, 0], *b"mot", -10, Instant::from_millis(2)) {
        UpsertOutcome::Inserted { receiver_id } => assert_eq!(receiver_id, 0),
        other => panic!("expected Inserted id 0, got {:?}", other),
    }
}

#[test]
fn prune_keeps_fresh_peers_and_reports_zero() {
    let mut reg = PeerRegistry::new();
    let _ = reg.upsert([1, 0, 0, 0, 0, 0], *b"led", -10, Instant::from_millis(1_000));
    let removed = reg.prune(Instant::from_millis(1_500), Duration::from_millis(5_000));
    assert_eq!(removed, 0);
    assert_eq!(reg.len(), 1);
}

#[test]
fn role_bytes_trims_trailing_nulls() {
    let peer = PeerInfo { receiver_id: 0, mac: [0; 6], role: [b'l', b'd', 0], rssi_dbm: RSSI_UNKNOWN };
    assert_eq!(peer.role_bytes(), b"ld");
}

#[test]
fn new_endpoint_fills_the_smallest_free_id() {
    let mut reg = PeerRegistry::new();
    let _ = reg.upsert([1, 0, 0, 0, 0, 0], *b"a\0\0", -10, Instant::from_millis(0));
    let _ = reg.upsert([2, 0, 0, 0, 0, 0], *b"b\0\0", -10, Instant::from_millis(9));
    let _ = reg.upsert([3, 0, 0, 0, 0, 0], *b"c\0\0", -10, Instant::from_millis(9));
    assert_eq!(reg.prune(Instant::from_millis(9), Duration::from_millis(5)), 1);
    assert_eq!(
        reg.upsert([4, 0, 0, 0, 0, 0], *b"d\0\0", -10, Instant::from_millis(9)),
        UpsertOutcome::Inserted { receiver_id: 0 }
    );
    let ids: Vec<u8> = reg.snapshot().as_slice().iter().map(|p| p.receiver_id).collect();
    assert_eq!(ids, vec![0, 1, 2]);
}

// ---- Replay windows ----

fn key(i: u8) -> KeyId {
    KeyId::new(i).expect("valid KeyId")
}

#[test]
fn fresh_guard_accepts_first_seq() {
    let mut g = ReplayGuard::new();
    assert_eq!(g.check(key(0), 1), Ok(()));
    assert_eq!(g.last_seq(key(0)), 1);
}

#[test]
fn independent_windows_per_key_id() {
    let mut g = ReplayGuard::new();
    for seq in 1..=5 {
        g.check(key(0), seq).unwrap();
    }
    assert_eq!(g.check(key(1), 1), Ok(()));
    assert!(g.check(key(0), 3).is_err());
}

#[test]
fn snapshot_reflects_current_state() {
    let mut g = ReplayGuard::new();
    g.check(key(0), 100).unwrap();
    g.check(key(1), 42).unwrap();
    let snap = g.snapshot();
    assert_eq!(snap[0].last_seq(), 100);
    assert_eq!(snap[1].last_seq(), 42);
}

#[test]
fn from_snapshot_restores_state() {
    let mut g1 = ReplayGuard::new();
    g1.check(key(0), 500).unwrap();
    let snap = g1.snapshot();

    let mut g2 = ReplayGuard::from_snapshot(snap);
    assert!(g2.check(key(0), 500).is_err());
    assert_eq!(g2.check(key(0), 501), Ok(()));
}

#[test]
fn restore_from_snapshot_overwrites_in_place() {
    let mut g = ReplayGuard::new();
    for seq in 1..=3 {
        g.check(key(0), seq).unwrap();
    }
    assert_eq!(g.last_seq(key(0)), 3);

    let mut source = ReplayGuard::new();
    source.check(key(0), 999).unwrap();
    let snap = source.snapshot();

    g.restore_from_snapshot(snap);
    assert_eq!(g.last_seq(key(0)), 999);
    assert!(g.check(key(0), 999).is_err());
    assert_eq!(g.check(key(0), 1000), Ok(()));
}

#[test]
fn guard_tells_its_refusals_apart() {
    let mut g = ReplayGuard::new();
    assert_eq!(g.check(key(9), 1), Err(ReplayCheckError::KeyIdOutOfRange(9)));
    assert_eq!(g.check(key(0), 0), Err(ReplayCheckError::Window(ReplayError::InvalidSeq)));
    g.check(key(0), 200).unwrap();
    assert_eq!(g.check(key(0), 200), Err(ReplayCheckError::Window(ReplayError::AlreadySeen)));
    assert_eq!(g.check(key(0), 100), Err(ReplayCheckError::Window(ReplayError::TooOld)));
    assert_eq!(g.check(key(0), 199), Ok(()));
    assert_eq!(g.last_seq(key(9)), 0);
}

// ---- Target selector ----

#[test]
fn new_starts_empty() {
    let s = Selector::new();
    assert_eq!(s.pending(), 0);
    assert_eq!(s.active(), 0);
    assert!(!s.is_dirty());
}

#[test]
fn toggle_pending_flips_bits() {
    let mut s = Selector::new();
    s.toggle_pending(0);
    s.toggle_pending(3);
    assert_eq!(s.pending(), 0b1001);
    s.toggle_pending(0);
    assert_eq!(s.pending(), 0b1000);
}

#[test]
fn commit_promotes_pending_to_active() {
    let mut s = Selector::new();
    s.toggle_pending(1);
    s.toggle_pending(4);
    assert!(s.is_dirty());
    s.commit();
    assert_eq!(s.active(), 0b10010);
    assert!(!s.is_dirty());
}

#[test]
fn cancel_reverts_pending() {
    let mut s = Selector::new();
    s.set_active(0b101);
    s.toggle_pending(2);
    assert_ne!(s.pending(), s.active());
    s.cancel();
    assert_eq!(s.pending(), s.active());
}

#[test]
fn out_of_range_toggle_is_ignored() {
    let mut s = Selector::new();
    s.toggle_pending(32);
    s.toggle_pending(200);
    assert_eq!(s.pending(), 0);
}

#[test]
fn broadcast_all_constructor() {
    let s = Selector::broadcast_all();
    assert_eq!(s.active(), DEST_MASK_ALL);
    assert!(s.is_active_selected(0));
    assert!(s.is_active_selected(31));
}

// ---- Outgoing paths ----

#[test]
fn frame_slot_keeps_the_newest() {
    let mut slot = FrameSignal::new();
    assert!(slot.try_take().is_none());
    slot.signal(Frame::with_dest(1, GamepadState::empty(), 1));
    slot.signal(Frame::with_dest(2, GamepadState::empty(), 1));
    assert_eq!(slot.try_take().unwrap().header.seq, 2);
    assert!(slot.try_take().is_none());
}

#[test]
fn response_queue_is_first_in_first_out() {
    let mut metrics = DropMetrics::new();
    let mut chan = ResponseChannel::new();
    assert_eq!(chan.free_capacity(), OUTBOUND_QUEUE_DEPTH);
    enqueue_response(&mut chan, &mut metrics, CommandResponse::nonce_hello(1));
    enqueue_response(&mut chan, &mut metrics, CommandResponse::nonce_hello(2));
    assert_eq!(chan.free_capacity(), OUTBOUND_QUEUE_DEPTH - 2);
    assert_eq!(chan.try_receive(), Some(CommandResponse::nonce_hello(1)));
    assert_eq!(chan.try_receive(), Some(CommandResponse::nonce_hello(2)));
    assert_eq!(chan.try_receive(), None);
}

#[test]
fn single_known_target_is_addressed_directly() {
    let mut reg = PeerRegistry::new();
    let mac = [7, 7, 7, 7, 7, 7];
    let _ = reg.upsert(mac, *b"led", -20, now());
    assert_eq!(frame_dest(1, Some(&reg)), CommandDest::Unicast(mac));
    assert_eq!(frame_dest(2, Some(&reg)), CommandDest::Broadcast);
    assert_eq!(frame_dest(3, Some(&reg)), CommandDest::Broadcast);
    assert_eq!(frame_dest(0, Some(&reg)), CommandDest::Broadcast);
    assert_eq!(frame_dest(1, None), CommandDest::Broadcast);
}

#[test]
fn only_failed_directed_commands_are_sent_again() {
    let unicast = CommandDest::Unicast([1; 6]);
    assert!(resend_command(&unicast, true, 0, 2));
    assert!(!resend_command(&unicast, true, 2, 2));
    assert!(!resend_command(&unicast, false, 0, 2));
    assert!(!resend_command(&CommandDest::Broadcast, true, 0, 2));
}

#[test]
fn clearing_the_registry_forgets_everybody() {
    let mut reg = PeerRegistry::new();
    reg.upsert([1; 6], *b"LCD", -40, Instant::from_ticks(0));
    assert_eq!(reg.len(), 1);
    reg.clear_for_test();
    assert!(reg.is_empty());
    assert_eq!(reg.lookup_id_for_mac(&[1; 6]), None);
}

#[test]
fn a_pending_selection_is_not_in_force_until_committed() {
    let mut sel = Selector::new();
    let before = sel.active();
    sel.set_pending(0b101);
    assert_eq!(sel.pending(), 0b101);
    assert_eq!(sel.active(), before);
    sel.commit();
    assert_eq!(sel.active(), 0b101);
}

#[test]
fn every_number_is_accepted_at_most_once() {
    let mut g = ReplayGuard::new();
    let order: [u32; 8] = [5, 3, 70, 7, 6, 69, 134, 71];
    for seq in order {
        let fresh = g.last_seq(key(1)) < seq + 64;
        assert_eq!(g.check(key(1), seq).is_ok(), fresh);
    }
    for seq in order {
        assert!(g.check(key(1), seq).is_err());
    }
}
