//! Commands from hosts.
//!
//! Two ways lead here: a host connected directly, and the radio network. Both share
//! one replay guard, so what was accepted on one way is refused on the other. Slow
//! work is left for others to pick up: blinking, short texts, saving to flash.

use crate::comm::dispatch::{self, Delivery, DispatchState};
use crate::comm::metrics::DropMetrics;
use crate::comm::notifier::signals::{self, enqueue_response, ResponseChannel};
use crate::comm::receiver::{CommandOutcome, CommandSource, ReceiverRecvConfig};
use crate::comm::replay::{self, ReplayGuard};
use crate::controller::hal::led_effects::{self, signal_led_effect, LedEffectSignal};
use crate::controller::ui::toast::Toast;
use crate::protocol::{
    AntiReplayWindow, Command, CommandBody, CommandDecodeError, CommandResponse, ErrorCode, KeyId,
    KEY_SLOTS,
};
use crate::time::Instant;
use vstd::prelude::*;

verus! {

/// Sensitivity of a new gamepad: full.
pub const DEFAULT_SENSITIVITY: u16 = 1000;

/// Full sensitivity.
pub const SENSITIVITY_MAX: u16 = 1000;

/// How far a key's numbers advance between two savings of the replay windows.
pub const REPLAY_PERSIST_INTERVAL: u32 = 100;

/// Shortest blinking period that a command may ask for.
pub const MIN_COMMAND_PERIOD_MS: u16 = 20;

/// Settings to be saved.
#[derive(Debug, Clone, Copy)]
pub struct PersistentSettings {
    pub joy_sensitivity: u16,
    pub knob_sensitivity: u16,
    pub battery_simulated: bool,
    pub replay_windows: [AntiReplayWindow; KEY_SLOTS],
}

/// The settings that commands change, and what commands leave for others to do.
pub struct ControlState {
    pub joy_sensitivity: u16,
    pub knob_sensitivity: u16,
    pub battery_simulated: bool,
    /// Whether every command is answered.
    pub auto_ack: bool,
    /// The newest number of each key when its window was last saved.
    pub last_persisted: [u32; KEY_SLOTS],
    /// Blinking to be played.
    pub led_effects: LedEffectSignal,
    /// A short text to be shown.
    pub toast: Option<Toast>,
    /// When a host was last heard.
    pub host_seen_at: Option<Instant>,
    /// Settings to be saved.
    pub persist_dirty: Option<PersistentSettings>,
    /// Replay windows to be saved.
    pub replay_dirty: Option<[AntiReplayWindow; KEY_SLOTS]>,
    /// Responses for the host that is connected directly.
    pub ble_responses: ResponseChannel,
}

impl ControlState {
    /// Sensitivities are within their range.
    pub open spec fn wf(self) -> bool {
        self.joy_sensitivity <= SENSITIVITY_MAX && self.knob_sensitivity <= SENSITIVITY_MAX
    }

    /// A gamepad with its first settings.
    pub fn new() -> (s: ControlState)
        ensures
            s.wf(),
            s.joy_sensitivity == DEFAULT_SENSITIVITY,
            s.knob_sensitivity == DEFAULT_SENSITIVITY,
            s.battery_simulated,
            s.auto_ack,
            forall|k: int| 0 <= k < KEY_SLOTS ==> #[trigger] s.last_persisted@[k] == 0,
            s.led_effects@ is None,
            s.toast is None,
            s.host_seen_at is None,
            s.persist_dirty is None,
            s.replay_dirty is None,
            s.ble_responses@ == Seq::<CommandResponse>::empty(),
    {
        ControlState {
            joy_sensitivity: DEFAULT_SENSITIVITY,
            knob_sensitivity: DEFAULT_SENSITIVITY,
            battery_simulated: true,
            auto_ack: true,
            last_persisted: [0u32, 0u32, 0u32, 0u32],
            led_effects: LedEffectSignal::new(),
            toast: None,
            host_seen_at: None,
            persist_dirty: None,
            replay_dirty: None,
            ble_responses: ResponseChannel::new(),
        }
    }
}

/// A sensitivity within its range.
pub open spec fn limited(scale: u16) -> u16 {
    if scale > SENSITIVITY_MAX {
        SENSITIVITY_MAX
    } else {
        scale
    }
}

/// Sets the stick's sensitivity, at most full.
pub fn set_joy_sensitivity(state: &mut ControlState, scale: u16)
    ensures
        *final(state) == (ControlState { joy_sensitivity: limited(scale), ..*old(state) }),
{
    state.joy_sensitivity = if scale > SENSITIVITY_MAX {
        SENSITIVITY_MAX
    } else {
        scale
    };
}

/// Sets the knobs' sensitivity, at most full.
pub fn set_knob_sensitivity(state: &mut ControlState, scale: u16)
    ensures
        *final(state) == (ControlState { knob_sensitivity: limited(scale), ..*old(state) }),
{
    state.knob_sensitivity = if scale > SENSITIVITY_MAX {
        SENSITIVITY_MAX
    } else {
        scale
    };
}

/// The stick's sensitivity.
pub fn joy_sensitivity(state: &ControlState) -> (scale: u16)
    ensures
        scale == state.joy_sensitivity,
{
    state.joy_sensitivity
}

/// The knobs' sensitivity.
pub fn knob_sensitivity(state: &ControlState) -> (scale: u16)
    ensures
        scale == state.knob_sensitivity,
{
    state.knob_sensitivity
}

/// All replay windows, for saving.
pub fn snapshot_replay_windows(replay: &ReplayGuard) -> (windows: [AntiReplayWindow; KEY_SLOTS])
    ensures
        windows@ == replay@,
{
    replay.snapshot()
}

/// Everything that is kept over a restart is to be saved.
pub open spec fn settings_marked(s: ControlState, windows: Seq<AntiReplayWindow>, next: ControlState) -> bool {
    &&& next == (ControlState { persist_dirty: next.persist_dirty, ..s })
    &&& next.persist_dirty is Some
    &&& next.persist_dirty->0.joy_sensitivity == s.joy_sensitivity
    &&& next.persist_dirty->0.knob_sensitivity == s.knob_sensitivity
    &&& next.persist_dirty->0.battery_simulated == s.battery_simulated
    &&& next.persist_dirty->0.replay_windows@ == windows
}

/// Asks for everything to be saved that is kept over a restart.
pub fn mark_persist_dirty(state: &mut ControlState, replay: &ReplayGuard)
    ensures
        settings_marked(*old(state), replay@, *final(state)),
{
    state.persist_dirty = Some(
        PersistentSettings {
            joy_sensitivity: state.joy_sensitivity,
            knob_sensitivity: state.knob_sensitivity,
            battery_simulated: state.battery_simulated,
            replay_windows: snapshot_replay_windows(replay),
        },
    );
}

// ---- What each command does ----

/// What a command does, and whether it is carried out.
pub open spec fn executed(
    s: ControlState,
    windows: Seq<AntiReplayWindow>,
    body: CommandBody,
    next: ControlState,
    r: Result<(), ErrorCode>,
) -> bool {
    match body {
        CommandBody::Nop => r == Ok::<(), ErrorCode>(()) && next == s,
        CommandBody::LedBlink { led_idx, count, period_ms } => if led_idx > 1 || count == 0 || period_ms
            < MIN_COMMAND_PERIOD_MS {
            r == Err::<(), ErrorCode>(ErrorCode::InvalidArgument) && next == s
        } else {
            &&& r == Ok::<(), ErrorCode>(())
            &&& next == (ControlState { led_effects: next.led_effects, ..s })
            &&& next.led_effects@ == Some(led_effects::playable(led_idx, count, period_ms))
        },
        CommandBody::SetSensitivity { joy_scale, knob_scale } => {
            let set = ControlState {
                joy_sensitivity: limited(joy_scale),
                knob_sensitivity: limited(knob_scale),
                ..s
            };
            r == Ok::<(), ErrorCode>(()) && settings_marked(set, windows, next)
        },
        CommandBody::ShowToast { len, bytes } => {
            &&& r == Ok::<(), ErrorCode>(())
            &&& next == (ControlState { toast: next.toast, ..s })
            &&& next.toast is Some
            &&& next.toast->0@ == bytes@.subrange(
                0,
                if len < 5 {
                    len as int
                } else {
                    5
                },
            )
        },
        CommandBody::SetBatteryMode { simulate } => {
            let set = ControlState { battery_simulated: simulate, ..s };
            r == Ok::<(), ErrorCode>(()) && settings_marked(set, windows, next)
        },
        CommandBody::Announce => r == Err::<(), ErrorCode>(ErrorCode::Unsupported) && next == s,
        CommandBody::AssignId { .. } => r == Err::<(), ErrorCode>(ErrorCode::Unsupported) && next == s,
    }
}

/// Blinks a light.
pub fn execute_led_blink(state: &mut ControlState, led_idx: u8, count: u8, period_ms: u16) -> (r: Result<
    (),
    ErrorCode,
>)
    ensures
        executed(
            *old(state),
            Seq::empty(),
            CommandBody::LedBlink { led_idx, count, period_ms },
            *final(state),
            r,
        ),
        r is Ok <==> led_idx <= 1 && count > 0 && period_ms >= 20,
        r is Ok ==> final(state).led_effects@ is Some,
        r is Ok ==> final(state).led_effects@->0.led_idx == led_idx,
        r is Ok ==> final(state).led_effects@->0.count == count,
        r is Ok ==> final(state).led_effects@->0.period_ms == (if period_ms < 50 {
            50
        } else {
            period_ms
        }),
{
    if led_idx > 1 {
        return Err(ErrorCode::InvalidArgument);
    }
    if count == 0 || period_ms < MIN_COMMAND_PERIOD_MS {
        return Err(ErrorCode::InvalidArgument);
    }
    signal_led_effect(&mut state.led_effects, led_idx, count, period_ms);
    Ok(())
}

/// Sets both sensitivities.
pub fn execute_set_sensitivity(state: &mut ControlState, replay: &ReplayGuard, joy_scale: u16, knob_scale: u16) -> (r: Result<
    (),
    ErrorCode,
>)
    ensures
        executed(
            *old(state),
            replay@,
            CommandBody::SetSensitivity { joy_scale, knob_scale },
            *final(state),
            r,
        ),
{
    set_joy_sensitivity(state, joy_scale);
    set_knob_sensitivity(state, knob_scale);
    mark_persist_dirty(state, replay);
    Ok(())
}

/// Shows a short text.
pub fn execute_show_toast(state: &mut ControlState, len: u8, bytes: [u8; 5]) -> (r: Result<(), ErrorCode>)
    ensures
        executed(*old(state), Seq::empty(), CommandBody::ShowToast { len, bytes }, *final(state), r),
{
    let n: usize = if len < 5 {
        len as usize
    } else {
        5
    };
    let msg = vstd::slice::slice_subrange(bytes.as_slice(), 0, n);
    let toast = Toast::new(msg);
    assert(toast@ =~= bytes@.subrange(0, n as int));
    state.toast = Some(toast);
    Ok(())
}

/// Chooses between a simulated and a measured battery level.
pub fn execute_set_battery_mode(state: &mut ControlState, replay: &ReplayGuard, simulate: bool) -> (r: Result<
    (),
    ErrorCode,
>)
    ensures
        executed(*old(state), replay@, CommandBody::SetBatteryMode { simulate }, *final(state), r),
{
    state.battery_simulated = simulate;
    mark_persist_dirty(state, replay);
    Ok(())
}

/// Carries out a command.
pub fn execute_command(state: &mut ControlState, replay: &ReplayGuard, cmd: &Command) -> (r: Result<
    (),
    ErrorCode,
>)
    ensures
        executed(*old(state), replay@, cmd.kind, *final(state), r),
{
    match cmd.kind {
        CommandBody::Nop => Ok(()),
        CommandBody::LedBlink { led_idx, count, period_ms } => execute_led_blink(
            state,
            led_idx,
            count,
            period_ms,
        ),
        CommandBody::SetSensitivity { joy_scale, knob_scale } => execute_set_sensitivity(
            state,
            replay,
            joy_scale,
            knob_scale,
        ),
        CommandBody::ShowToast { len, bytes } => execute_show_toast(state, len, bytes),
        CommandBody::SetBatteryMode { simulate } => execute_set_battery_mode(state, replay, simulate),
        CommandBody::Announce => Err(ErrorCode::Unsupported),
        CommandBody::AssignId { mac: _, receiver_id: _ } => Err(ErrorCode::Unsupported),
    }
}

/// The answer to a command.
pub open spec fn answer(cmd: Command, result: Result<(), ErrorCode>) -> CommandResponse {
    match result {
        Ok(_) => CommandResponse::spec_ack(cmd.seq, cmd.key_id),
        Err(code) => CommandResponse::spec_err(cmd.seq, cmd.key_id, code),
    }
}

/// The answer to a command, under the command's key.
pub fn build_response(cmd: &Command, result: Result<(), ErrorCode>) -> (resp: CommandResponse)
    ensures
        resp == answer(*cmd, result),
{
    match result {
        Ok(_) => CommandResponse::ack_with_key(cmd.seq, cmd.key_id),
        Err(code) => CommandResponse::err_with_key(cmd.seq, cmd.key_id, code),
    }
}

// ---- Saving the replay windows ----

/// How far a number has advanced, the numbers going round.
pub open spec fn advance(current: u32, last: u32) -> int {
    (current - last) % 0x1_0000_0000
}

/// The replay windows are to be saved once a key has advanced far enough since they
/// were saved last.
pub open spec fn replay_saved(s: ControlState, windows: Seq<AntiReplayWindow>, key_id: KeyId, next: ControlState) -> bool {
    let slot = key_id.raw as int;
    let current = windows[slot].last_seq;
    if advance(current, s.last_persisted@[slot]) < REPLAY_PERSIST_INTERVAL {
        next == s
    } else {
        &&& next == (ControlState {
            last_persisted: next.last_persisted,
            replay_dirty: next.replay_dirty,
            ..s
        })
        &&& next.last_persisted@ == s.last_persisted@.update(slot, current)
        &&& next.replay_dirty is Some
        &&& next.replay_dirty->0@ == windows
    }
}

/// Asks for the replay windows to be saved if the key has advanced far enough.
pub fn maybe_persist_replay(state: &mut ControlState, replay: &ReplayGuard, key_id: KeyId)
    requires
        key_id.in_slots(),
    ensures
        replay_saved(*old(state), replay@, key_id, *final(state)),
{
    let slot: usize = key_id.as_u8() as usize;
    let current: u32 = replay.last_seq(key_id);
    let last: u32 = state.last_persisted[slot];
    let ahead: u32 = current.wrapping_sub(last);
    assert(ahead == advance(current, last)) by {
        if current < last {
            vstd::arithmetic::div_mod::lemma_mod_add_multiples_vanish(current - last, 0x1_0000_0000);
            vstd::arithmetic::div_mod::lemma_small_mod(
                (current - last + 0x1_0000_0000) as nat,
                0x1_0000_0000,
            );
        } else {
            vstd::arithmetic::div_mod::lemma_small_mod((current - last) as nat, 0x1_0000_0000);
        }
    }
    if ahead < REPLAY_PERSIST_INTERVAL {
        return;
    }
    state.last_persisted[slot] = current;
    state.replay_dirty = Some(snapshot_replay_windows(replay));
    assert(state.last_persisted@ =~= old(state).last_persisted@.update(slot as int, current));
}

// ---- Answers ----

/// A response was offered to both ways, first to the radio network.
pub open spec fn offered_to_both(
    radio: Seq<CommandResponse>,
    direct: Seq<CommandResponse>,
    drops: u32,
    resp: CommandResponse,
    next_radio: Seq<CommandResponse>,
    next_direct: Seq<CommandResponse>,
    next_drops: u32,
) -> bool {
    exists|mid: u32|
        #![auto]
        signals::offered(radio, drops, resp, next_radio, mid) && signals::offered(
            direct,
            mid,
            resp,
            next_direct,
            next_drops,
        )
}

/// Answers on both ways. Neither waits for the other: a way that is cut off does not
/// keep the answer from the other.
pub fn broadcast_response(resp: CommandResponse, state: &mut ControlState, net: &mut DispatchState)
    ensures
        *final(state) == (ControlState { ble_responses: final(state).ble_responses, ..*old(state) }),
        offered_to_both(
            old(net).response_signal@,
            old(state).ble_responses@,
            old(net).drops.responses,
            resp,
            final(net).response_signal@,
            final(state).ble_responses@,
            final(net).drops.responses,
        ),
        final(net).drops.commands == old(net).drops.commands,
        final(net).keyring == old(net).keyring,
        final(net).replay == old(net).replay,
        final(net).nonce == old(net).nonce,
{
    enqueue_response(&mut net.response_signal, &mut net.drops, resp);
    let ghost mid = net.drops.responses;
    enqueue_response(&mut state.ble_responses, &mut net.drops, resp);
    assert(signals::offered(
        old(net).response_signal@,
        old(net).drops.responses,
        resp,
        net.response_signal@,
        mid,
    ));
}

// ---- Commands of the host that is connected directly ----

/// The gamepad after a host was heard.
pub open spec fn heard(s: ControlState, now: Instant) -> ControlState {
    ControlState { host_seen_at: Some(now), ..s }
}

/// The answer went out on both ways, or answers are switched off.
pub open spec fn acknowledged(
    s: ControlState,
    net: DispatchState,
    resp: CommandResponse,
    next: ControlState,
    next_net: DispatchState,
) -> bool {
    &&& next_net.drops.commands == net.drops.commands
    &&& if s.auto_ack {
        &&& next == (ControlState { ble_responses: next.ble_responses, ..s })
        &&& offered_to_both(
            net.response_signal@,
            s.ble_responses@,
            net.drops.responses,
            resp,
            next_net.response_signal@,
            next.ble_responses@,
            next_net.drops.responses,
        )
    } else {
        &&& next == s
        &&& next_net.response_signal@ == net.response_signal@
        &&& next_net.drops.responses == net.drops.responses
    }
}

/// What a command from the host leads to. One that cannot be decoded, or that the
/// replay guard refuses, changes nothing and is not answered.
pub open spec fn ble_dispatched(
    decoded: Result<Command, CommandDecodeError>,
    s: ControlState,
    net: DispatchState,
    now: Instant,
    next: ControlState,
    next_net: DispatchState,
) -> bool {
    match decoded {
        Err(_) => next == s && net.same(next_net),
        Ok(cmd) => if replay::guard_verdict(net.replay@, cmd.key_id, cmd.seq) is Err {
            next == s && net.same(next_net)
        } else {
            &&& replay::guard_judged(net.replay@, cmd.key_id, cmd.seq, next_net.replay@)
            &&& next_net.keyring == net.keyring
            &&& next_net.nonce == net.nonce
            &&& exists|a: ControlState, b: ControlState, r: Result<(), ErrorCode>|
                #![trigger replay_saved(s, next_net.replay@, cmd.key_id, a), executed(heard(a, now), next_net.replay@, cmd.kind, b, r)]
                {
                    &&& replay_saved(s, next_net.replay@, cmd.key_id, a)
                    &&& executed(heard(a, now), next_net.replay@, cmd.kind, b, r)
                    &&& acknowledged(b, net, answer(cmd, r), next, next_net)
                }
        },
    }
}

/// Acts on what the decoder made of a command from the host.
pub fn dispatch_decoded_from_ble(
    decoded: Result<Command, CommandDecodeError>,
    state: &mut ControlState,
    net: &mut DispatchState,
    now: Instant,
)
    ensures
        ble_dispatched(decoded, *old(state), *old(net), now, *final(state), *final(net)),
{
    let cmd = match decoded {
        Ok(cmd) => cmd,
        Err(_) => {
            return;
        },
    };
    if net.replay.check(cmd.key_id, cmd.seq).is_err() {
        return;
    }
    maybe_persist_replay(state, &net.replay, cmd.key_id);
    let ghost a = *state;
    state.host_seen_at = Some(now);
    let result = execute_command(state, &net.replay, &cmd);
    let ghost b = *state;
    let ghost net_b = *net;
    if state.auto_ack {
        broadcast_response(build_response(&cmd, result), state, net);
    }
    proof {
        assert(replay_saved(*old(state), net.replay@, cmd.key_id, a));
        assert(executed(heard(a, now), net.replay@, cmd.kind, b, result));
        assert(acknowledged(b, *old(net), answer(cmd, result), *state, *net));
    }
}

/// Acts on the bytes of a command from the host. `decode_command` turns them into a
/// command or says why it cannot.
pub fn dispatch_command_from_ble<D>(
    raw: &[u8],
    decode_command: D,
    state: &mut ControlState,
    net: &mut DispatchState,
    now: Instant,
) where D: Fn(&[u8]) -> Result<Command, CommandDecodeError>
    requires
        decode_command.requires((raw,)),
    ensures
        exists|decoded: Result<Command, CommandDecodeError>| #[trigger]
            decode_command.ensures((raw,), decoded) && ble_dispatched(
                decoded,
                *old(state),
                *old(net),
                now,
                *final(state),
                *final(net),
            ),
{
    let decoded = decode_command(raw);
    dispatch_decoded_from_ble(decoded, state, net, now);
}

// ---- Commands of the radio network ----

/// What a command from the radio network leads to. The network has already decoded
/// it and asked the replay guard; it sends the answer itself, the host that is
/// connected directly gets a copy.
pub open spec fn esp_now_dispatched(
    cmd: Command,
    s: ControlState,
    windows: Seq<AntiReplayWindow>,
    drops: DropMetrics,
    now: Instant,
    next: ControlState,
    next_drops: DropMetrics,
    outcome: CommandOutcome,
) -> bool {
    exists|b: ControlState, r: Result<(), ErrorCode>|
        #![trigger executed(heard(s, now), windows, cmd.kind, b, r)]
        {
            &&& executed(heard(s, now), windows, cmd.kind, b, r)
            &&& if b.auto_ack {
                &&& next == (ControlState { ble_responses: next.ble_responses, ..b })
                &&& signals::offered(
                    b.ble_responses@,
                    drops.responses,
                    answer(cmd, r),
                    next.ble_responses@,
                    next_drops.responses,
                )
                &&& next_drops.commands == drops.commands
                &&& outcome == match r {
                    Ok(_) => CommandOutcome::Done,
                    Err(code) => CommandOutcome::Refused(code),
                }
            } else {
                &&& next == b
                &&& next_drops == drops
                &&& outcome == CommandOutcome::NoReply
            }
        }
}

/// Acts on a command from the radio network.
pub fn dispatch_command_from_esp_now(
    _src: CommandSource,
    cmd: &Command,
    state: &mut ControlState,
    replay: &ReplayGuard,
    drops: &mut DropMetrics,
    now: Instant,
) -> (outcome: CommandOutcome)
    ensures
        esp_now_dispatched(
            *cmd,
            *old(state),
            replay@,
            *old(drops),
            now,
            *final(state),
            *final(drops),
            outcome,
        ),
{
    state.host_seen_at = Some(now);
    let result = execute_command(state, replay, cmd);
    assert(executed(heard(*old(state), now), replay@, cmd.kind, *state, result));
    if !state.auto_ack {
        return CommandOutcome::NoReply;
    }
    enqueue_response(&mut state.ble_responses, drops, build_response(cmd, result));
    match result {
        Ok(_) => CommandOutcome::Done,
        Err(code) => CommandOutcome::Refused(code),
    }
}

// ---- Laws ----

/// A command that the host got carried out is refused when it comes again over the
/// radio network.
pub proof fn lemma_direct_command_is_refused_on_the_air(
    cmd: Command,
    s: ControlState,
    net: DispatchState,
    now: Instant,
    next: ControlState,
    next_net: DispatchState,
    ctx: ReceiverRecvConfig,
    last_ctx: ReceiverRecvConfig,
    last: DispatchState,
    again: Delivery,
)
    requires
        net.replay@.len() == KEY_SLOTS,
        !dispatch::is_builtin(cmd.kind),
        replay::guard_verdict(net.replay@, cmd.key_id, cmd.seq) is Ok,
        ble_dispatched(Ok(cmd), s, net, now, next, next_net),
        dispatch::command_dispatched(cmd, ctx, next_net, last_ctx, last, again),
    ensures
        again == Delivery::Nothing,
{
    replay::lemma_restored_guard_refuses(
        net.replay@,
        cmd.key_id,
        cmd.seq,
        next_net.replay@,
        next_net.replay,
    );
}

/// A command that came over the radio network changes nothing when the host sends it
/// again.
pub proof fn lemma_command_from_the_air_is_refused_directly(
    cmd: Command,
    ctx: ReceiverRecvConfig,
    net: DispatchState,
    next_ctx: ReceiverRecvConfig,
    next_net: DispatchState,
    s: ControlState,
    now: Instant,
    last: ControlState,
    last_net: DispatchState,
)
    requires
        net.replay@.len() == KEY_SLOTS,
        dispatch::command_dispatched(cmd, ctx, net, next_ctx, next_net, Delivery::Command(cmd)),
        ble_dispatched(Ok(cmd), s, next_net, now, last, last_net),
    ensures
        last == s,
        next_net.same(last_net),
{
    replay::lemma_restored_guard_refuses(
        net.replay@,
        cmd.key_id,
        cmd.seq,
        next_net.replay@,
        next_net.replay,
    );
}

/// A blinking command is carried out exactly if it names one of the two lights, blinks
/// at all and not faster than every 20 ms. What then waits to be played is what the
/// command asked for: its light, its count and its period, which is lengthened to 50 ms
/// if it is shorter.
pub proof fn lemma_blinking_plays_what_was_asked_for(
    s: ControlState,
    windows: Seq<AntiReplayWindow>,
    led_idx: u8,
    count: u8,
    period_ms: u16,
    next: ControlState,
    r: Result<(), ErrorCode>,
)
    requires
        executed(s, windows, CommandBody::LedBlink { led_idx, count, period_ms }, next, r),
    ensures
        r is Ok <==> led_idx <= 1 && count > 0 && period_ms >= 20,
        r is Err ==> r == Err::<(), ErrorCode>(ErrorCode::InvalidArgument) && next == s,
        r is Ok ==> {
            &&& next.led_effects@ is Some
            &&& next.led_effects@->0.led_idx == led_idx
            &&& next.led_effects@->0.count == count
            &&& period_ms >= 50 ==> next.led_effects@->0.period_ms == period_ms
            &&& period_ms < 50 ==> next.led_effects@->0.period_ms == 50
            &&& next.joy_sensitivity == s.joy_sensitivity
            &&& next.knob_sensitivity == s.knob_sensitivity
            &&& next.battery_simulated == s.battery_simulated
            &&& next.toast == s.toast
            &&& next.persist_dirty == s.persist_dirty
        },
{
}

/// A command for the sensitivities sets each to what was asked for it, up to full, and
/// asks for both to be saved as they are now. The battery's mode is saved as it was, and
/// nothing else changes.
pub proof fn lemma_sensitivities_are_set_and_saved(
    s: ControlState,
    windows: Seq<AntiReplayWindow>,
    joy_scale: u16,
    knob_scale: u16,
    next: ControlState,
    r: Result<(), ErrorCode>,
)
    requires
        executed(s, windows, CommandBody::SetSensitivity { joy_scale, knob_scale }, next, r),
    ensures
        r is Ok,
        joy_scale <= 1000 ==> next.joy_sensitivity == joy_scale,
        joy_scale > 1000 ==> next.joy_sensitivity == 1000,
        knob_scale <= 1000 ==> next.knob_sensitivity == knob_scale,
        knob_scale > 1000 ==> next.knob_sensitivity == 1000,
        next.battery_simulated == s.battery_simulated,
        next.persist_dirty is Some,
        next.persist_dirty->0.joy_sensitivity == next.joy_sensitivity,
        next.persist_dirty->0.knob_sensitivity == next.knob_sensitivity,
        next.persist_dirty->0.battery_simulated == s.battery_simulated,
        next.persist_dirty->0.replay_windows@ == windows,
        next.led_effects == s.led_effects,
        next.toast == s.toast,
        next.auto_ack == s.auto_ack,
        next.host_seen_at == s.host_seen_at,
        next.ble_responses == s.ble_responses,
{
}

/// A command for the battery's mode sets it and asks for it to be saved, with the
/// sensitivities as they are.
pub proof fn lemma_battery_mode_is_set_and_saved(
    s: ControlState,
    windows: Seq<AntiReplayWindow>,
    simulate: bool,
    next: ControlState,
    r: Result<(), ErrorCode>,
)
    requires
        executed(s, windows, CommandBody::SetBatteryMode { simulate }, next, r),
    ensures
        r is Ok,
        next.battery_simulated == simulate,
        next.joy_sensitivity == s.joy_sensitivity,
        next.knob_sensitivity == s.knob_sensitivity,
        next.persist_dirty is Some,
        next.persist_dirty->0.battery_simulated == simulate,
        next.persist_dirty->0.joy_sensitivity == s.joy_sensitivity,
        next.persist_dirty->0.knob_sensitivity == s.knob_sensitivity,
        next.persist_dirty->0.replay_windows@ == windows,
        next.led_effects == s.led_effects,
        next.toast == s.toast,
{
}

/// A text to be shown is the text that was sent, byte for byte, as far as its length
/// says and the command can hold.
pub proof fn lemma_toast_shows_what_was_sent(
    s: ControlState,
    windows: Seq<AntiReplayWindow>,
    len: u8,
    bytes: [u8; 5],
    next: ControlState,
    r: Result<(), ErrorCode>,
)
    requires
        executed(s, windows, CommandBody::ShowToast { len, bytes }, next, r),
    ensures
        r is Ok,
        next.toast is Some,
        next.toast->0@.len() == (if len < 5 {
            len as int
        } else {
            5
        }),
        forall|i: int| 0 <= i < len && i < 5 ==> #[trigger] next.toast->0@[i] == bytes@[i],
        next.led_effects == s.led_effects,
        next.joy_sensitivity == s.joy_sensitivity,
        next.knob_sensitivity == s.knob_sensitivity,
        next.battery_simulated == s.battery_simulated,
        next.persist_dirty == s.persist_dirty,
{
}

/// A heartbeat is carried out and changes nothing; what only an endpoint can do is
/// refused as unsupported.
pub proof fn lemma_other_commands_change_nothing(
    s: ControlState,
    windows: Seq<AntiReplayWindow>,
    body: CommandBody,
    next: ControlState,
    r: Result<(), ErrorCode>,
)
    requires
        executed(s, windows, body, next, r),
        body is Nop || body is Announce || body is AssignId,
    ensures
        next == s,
        body is Nop ==> r is Ok,
        !(body is Nop) ==> r == Err::<(), ErrorCode>(ErrorCode::Unsupported),
{
}

/// A command is answered under its own number and key: with an acknowledgement if it
/// was carried out, and otherwise with the reason why not.
pub proof fn lemma_answer_tells_the_result(cmd: Command, result: Result<(), ErrorCode>)
    ensures
        answer(cmd, result).req_seq == cmd.seq,
        answer(cmd, result).key_id == cmd.key_id,
        result is Ok <==> answer(cmd, result).body is Ack,
        result is Err ==> answer(cmd, result).body == crate::protocol::ResponseBody::Error(result->Err_0),
{
}

/// A host's command that is accepted is answered exactly once on each way that has
/// room, with the same answer, and is not answered at all if answers are switched off.
/// One that is refused as a replay, or cannot be decoded, leaves both queues alone.
pub proof fn lemma_host_is_answered_once_on_both_ways(
    decoded: Result<Command, CommandDecodeError>,
    s: ControlState,
    net: DispatchState,
    now: Instant,
    next: ControlState,
    next_net: DispatchState,
)
    requires
        ble_dispatched(decoded, s, net, now, next, next_net),
    ensures
        ({
            let taken = decoded is Ok && replay::guard_verdict(net.replay@, decoded->Ok_0.key_id, decoded->Ok_0.seq) is Ok;
            &&& taken ==> next.host_seen_at == Some(now)
            &&& taken && s.auto_ack && s.ble_responses@.len() < 8 ==> {
                &&& next.ble_responses@.len() == s.ble_responses@.len() + 1
                &&& next.ble_responses@.last().req_seq == decoded->Ok_0.seq
                &&& next.ble_responses@.last().key_id == decoded->Ok_0.key_id
            }
            &&& taken && s.auto_ack && net.response_signal@.len() < 8 ==> {
                &&& next_net.response_signal@.len() == net.response_signal@.len() + 1
                &&& next_net.response_signal@.last().req_seq == decoded->Ok_0.seq
                &&& next_net.response_signal@.last().key_id == decoded->Ok_0.key_id
            }
            &&& taken && s.auto_ack && net.response_signal@.len() < 8 && s.ble_responses@.len() < 8 ==> {
                &&& next_net.response_signal@.last() == next.ble_responses@.last()
                &&& next_net.drops == net.drops
            }
            &&& !taken || !s.auto_ack ==> next.ble_responses@ == s.ble_responses@ && next_net.response_signal@
                == net.response_signal@
            &&& !taken ==> next == s && next_net.replay@ == net.replay@
        }),
{
}

/// A command from the radio network is carried out as one from the host would be. Its
/// outcome tells the network how to answer: done, refused for the reason that it was
/// refused for, or nothing if answers are switched off. The host gets a copy of the answer
/// exactly if the network answers.
pub proof fn lemma_command_from_the_air_is_carried_out(
    cmd: Command,
    s: ControlState,
    windows: Seq<AntiReplayWindow>,
    drops: DropMetrics,
    now: Instant,
    next: ControlState,
    next_drops: DropMetrics,
    outcome: CommandOutcome,
)
    requires
        esp_now_dispatched(cmd, s, windows, drops, now, next, next_drops, outcome),
    ensures
        next.host_seen_at == Some(now),
        next.auto_ack == s.auto_ack,
        s.auto_ack <==> !(outcome is NoReply),
        !s.auto_ack ==> next.ble_responses@ == s.ble_responses@ && next_drops == drops,
        s.auto_ack && s.ble_responses@.len() < 8 ==> {
            &&& next.ble_responses@.len() == s.ble_responses@.len() + 1
            &&& next.ble_responses@.last().req_seq == cmd.seq
            &&& next.ble_responses@.last().key_id == cmd.key_id
            &&& next.ble_responses@.last().body is Ack <==> outcome is Done
            &&& next.ble_responses@.last().body is Error <==> outcome is Refused
        },
        s.auto_ack && s.ble_responses@.len() < 8 ==> next_drops == drops,
        s.auto_ack && s.ble_responses@.len() >= 8 ==> {
            &&& next.ble_responses@ == s.ble_responses@
            &&& next_drops.commands == drops.commands
            &&& drops.responses < 0xFFFF_FFFF ==> next_drops.responses == drops.responses + 1
        },
        s.auto_ack && cmd.kind is Nop ==> outcome is Done,
        s.auto_ack && cmd.kind is SetSensitivity ==> outcome is Done,
        s.auto_ack && cmd.kind is SetBatteryMode ==> outcome is Done && next.battery_simulated == cmd.kind->simulate,
        s.auto_ack && cmd.kind is LedBlink ==> (outcome is Done <==> cmd.kind->led_idx <= 1 && cmd.kind->count > 0
            && cmd.kind->period_ms >= 20),
        s.auto_ack && (cmd.kind is Announce || cmd.kind is AssignId) ==> outcome == CommandOutcome::Refused(
            ErrorCode::Unsupported,
        ),
        !(cmd.kind is SetBatteryMode) ==> next.battery_simulated == s.battery_simulated,
        !(cmd.kind is SetSensitivity) ==> next.joy_sensitivity == s.joy_sensitivity && next.knob_sensitivity
            == s.knob_sensitivity,
{
}

/// The replay windows are saved as soon as the key has advanced by 100 numbers since
/// they were saved last, and not before; all windows are saved, and only this key's
/// mark moves.
pub proof fn lemma_windows_are_saved_after_a_hundred(
    s: ControlState,
    windows: Seq<AntiReplayWindow>,
    key_id: KeyId,
    next: ControlState,
)
    requires
        key_id.in_slots(),
        replay_saved(s, windows, key_id, next),
    ensures
        ({
            let slot = key_id.raw as int;
            let ahead = if windows[slot].last_seq >= s.last_persisted@[slot] {
                windows[slot].last_seq - s.last_persisted@[slot]
            } else {
                windows[slot].last_seq - s.last_persisted@[slot] + 0x1_0000_0000
            };
            &&& ahead < 100 ==> next == s
            &&& ahead >= 100 ==> {
                &&& next.replay_dirty is Some
                &&& next.replay_dirty->0@ == windows
                &&& next.last_persisted@[slot] == windows[slot].last_seq
            }
            &&& forall|k: int|
                0 <= k < KEY_SLOTS && k != slot ==> #[trigger] next.last_persisted@[k] == s.last_persisted@[k]
        }),
{
    let step = windows[key_id.raw as int].last_seq - s.last_persisted@[key_id.raw as int];
    if step >= 0 {
        vstd::arithmetic::div_mod::lemma_small_mod(step as nat, 0x1_0000_0000);
    } else {
        vstd::arithmetic::div_mod::lemma_mod_add_multiples_vanish(step, 0x1_0000_0000);
        vstd::arithmetic::div_mod::lemma_small_mod((step + 0x1_0000_0000) as nat, 0x1_0000_0000);
    }
}

/// Whatever a command asks for, sensitivities stay within their range.
pub proof fn lemma_sensitivity_stays_in_range(
    s: ControlState,
    windows: Seq<AntiReplayWindow>,
    body: CommandBody,
    next: ControlState,
    r: Result<(), ErrorCode>,
)
    requires
        s.wf(),
        executed(s, windows, body, next, r),
    ensures
        next.wf(),
{
}

/// A refused command changes nothing.
pub proof fn lemma_refused_command_changes_nothing(
    s: ControlState,
    windows: Seq<AntiReplayWindow>,
    body: CommandBody,
    next: ControlState,
    r: Result<(), ErrorCode>,
)
    requires
        executed(s, windows, body, next, r),
        r is Err,
    ensures
        next == s,
{
}

/// Saving the replay windows does not wear out the flash: right after a save, no
/// further one is due before the key has advanced by a whole interval.
pub proof fn lemma_saves_are_spaced(
    s: ControlState,
    windows: Seq<AntiReplayWindow>,
    key_id: KeyId,
    saved: ControlState,
    later: Seq<AntiReplayWindow>,
    next: ControlState,
)
    requires
        key_id.in_slots(),
        replay_saved(s, windows, key_id, saved),
        saved != s,
        replay_saved(saved, later, key_id, next),
        advance(later[key_id.raw as int].last_seq, windows[key_id.raw as int].last_seq) < REPLAY_PERSIST_INTERVAL,
    ensures
        next == saved,
{
}

} // verus!
