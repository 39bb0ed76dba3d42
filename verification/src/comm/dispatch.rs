//! What a device does with a received packet.
//!
//! Announcements and id assignments are answered at once and are exempt from the
//! anti-replay check, so that a coordinator whose numbering starts over can still
//! find its endpoints. Every other command is checked for replay and then handed
//! to the device's own handler, whose outcome becomes the reply. Frames are
//! handed over if they address the device.

use super::keyring::Keyring;
use super::link::{route_packet, PacketRoute};
use super::metrics::DropMetrics;
use super::notifier::signals::{self, enqueue_response, ResponseChannel};
use super::peer_registry::{same_mac, RSSI_UNKNOWN};
use super::receiver::{CommandOutcome, ReceiverRecvConfig, UNASSIGNED_ID};
use super::replay::{self, ReplayGuard};
use crate::bits;
use crate::protocol::{
    Command, CommandBody, CommandResponse, Frame, KeyId, ResponseBody, SessionNonce,
};
use vstd::prelude::*;

verus! {

/// What received packets may change besides the device's own id.
pub struct DispatchState {
    pub keyring: Keyring,
    pub replay: ReplayGuard,
    pub response_signal: ResponseChannel,
    pub nonce: SessionNonce,
    pub drops: DropMetrics,
}

/// What is left for the device's handlers.
#[derive(Debug, Clone, Copy, PartialEq, Eq)]
pub enum Delivery {
    Nothing,
    /// Run the command handler and hand its outcome to `complete_command`.
    Command(Command),
    /// Run the frame handler.
    Frame(Frame),
    /// Run the response handler.
    Response(CommandResponse),
}

impl DispatchState {
    /// A fresh state.
    pub fn new() -> (s: DispatchState)
        ensures
            s.keyring.wf(),
            s.keyring.key() == KeyId::spec_default(),
            forall|i: int| 0 <= i < crate::protocol::KEY_SLOTS ==> #[trigger] s.keyring.counters()[i] == 0,
            s.replay@.len() == crate::protocol::KEY_SLOTS,
            forall|k: int|
                0 <= k < crate::protocol::KEY_SLOTS ==> #[trigger] s.replay@[k] == (crate::protocol::AntiReplayWindow {
                    last_seq: 0,
                    bitmap: 0,
                }),
            s.response_signal@ == Seq::<CommandResponse>::empty(),
            s.nonce.value == 0,
            s.drops == (DropMetrics { commands: 0, responses: 0 }),
    {
        DispatchState {
            keyring: Keyring::new(),
            replay: ReplayGuard::new(),
            response_signal: ResponseChannel::new(),
            nonce: SessionNonce::new(),
            drops: DropMetrics::new(),
        }
    }

    /// Nothing has changed.
    pub open spec fn same(self, next: DispatchState) -> bool {
        &&& next.keyring == self.keyring
        &&& next.replay@ == self.replay@
        &&& next.response_signal@ == self.response_signal@
        &&& next.nonce == self.nonce
        &&& next.drops == self.drops
    }

    /// Nothing has changed but the replay windows.
    pub open spec fn same_but_replay(self, next: DispatchState) -> bool {
        &&& next.keyring == self.keyring
        &&& next.response_signal@ == self.response_signal@
        &&& next.nonce == self.nonce
        &&& next.drops == self.drops
    }

    /// Nothing has changed but that `resp` was offered to the response queue.
    pub open spec fn replied(self, resp: CommandResponse, next: DispatchState) -> bool {
        &&& next.keyring == self.keyring
        &&& next.replay@ == self.replay@
        &&& next.nonce == self.nonce
        &&& next.drops.commands == self.drops.commands
        &&& signals::offered(
            self.response_signal@,
            self.drops.responses,
            resp,
            next.response_signal@,
            next.drops.responses,
        )
    }
}

/// The answer to an announcement: address and role, signal strength unknown.
pub open spec fn announce_reply(role_tag: [u8; 3], my_mac: [u8; 6], key_id: KeyId) -> CommandResponse {
    CommandResponse {
        req_seq: 0,
        key_id,
        body: ResponseBody::AnnounceReply { mac: my_mac, rssi_dbm: RSSI_UNKNOWN, role_tag },
    }
}

/// Builds the answer to an announcement.
pub fn build_announce_reply(role_tag: [u8; 3], my_mac: [u8; 6], key_id: KeyId) -> (r: CommandResponse)
    ensures
        r == announce_reply(role_tag, my_mac, key_id),
{
    CommandResponse {
        req_seq: 0,
        key_id,
        body: ResponseBody::AnnounceReply { mac: my_mac, rssi_dbm: RSSI_UNKNOWN, role_tag },
    }
}

/// The command is answered by the device itself, without a handler.
pub open spec fn is_builtin(kind: CommandBody) -> bool {
    kind is Announce || kind is AssignId
}

/// The id of a device after a built-in command: an assignment to its own address
/// sets it, nothing else does.
pub open spec fn id_after(kind: CommandBody, my_mac: [u8; 6], my_id: u8) -> u8 {
    match kind {
        CommandBody::AssignId { mac, receiver_id } => if mac == my_mac {
            receiver_id
        } else {
            my_id
        },
        _ => my_id,
    }
}

/// Answers announcements and takes id assignments. Neither is checked for replay.
pub fn handle_builtin(cmd: &Command, ctx: &mut ReceiverRecvConfig, state: &mut DispatchState) -> (builtin: bool)
    ensures
        builtin == is_builtin(cmd.kind),
        final(ctx).my_id == id_after(cmd.kind, old(ctx).my_mac, old(ctx).my_id),
        old(ctx).same_identity(*final(ctx)),
        cmd.kind is Announce ==> old(state).replied(
            announce_reply(old(ctx).role_tag, old(ctx).my_mac, old(state).keyring.key()),
            *final(state),
        ),
        !(cmd.kind is Announce) ==> old(state).same(*final(state)),
{
    match cmd.kind {
        CommandBody::Announce => {
            let resp = build_announce_reply(ctx.role_tag, ctx.my_mac, state.keyring.active());
            enqueue_response(&mut state.response_signal, &mut state.drops, resp);
            true
        },
        CommandBody::AssignId { mac, receiver_id } => {
            if same_mac(&mac, &ctx.my_mac) {
                ctx.my_id = receiver_id;
            }
            true
        },
        _ => false,
    }
}

/// The reply to a command that its handler finished with `outcome`.
pub open spec fn reply_to(cmd: Command, outcome: CommandOutcome) -> Option<CommandResponse> {
    match outcome {
        CommandOutcome::Done => Some(CommandResponse::spec_ack(cmd.seq, cmd.key_id)),
        CommandOutcome::Refused(code) => Some(CommandResponse::spec_err(cmd.seq, cmd.key_id, code)),
        CommandOutcome::Respond(resp) => Some(resp),
        CommandOutcome::NoReply => None,
    }
}

/// Queues the reply to a command that its handler has finished.
pub fn complete_command(cmd: &Command, outcome: CommandOutcome, state: &mut DispatchState)
    ensures
        match reply_to(*cmd, outcome) {
            Some(resp) => old(state).replied(resp, *final(state)),
            None => old(state).same(*final(state)),
        },
{
    match outcome {
        CommandOutcome::Done => {
            enqueue_response(
                &mut state.response_signal,
                &mut state.drops,
                CommandResponse::ack_with_key(cmd.seq, cmd.key_id),
            );
        },
        CommandOutcome::Refused(code) => {
            enqueue_response(
                &mut state.response_signal,
                &mut state.drops,
                CommandResponse::err_with_key(cmd.seq, cmd.key_id, code),
            );
        },
        CommandOutcome::Respond(resp) => {
            enqueue_response(&mut state.response_signal, &mut state.drops, resp);
        },
        CommandOutcome::NoReply => {},
    }
}

/// Lets a command through to the handler unless it is a replay.
pub fn dispatch_business_command(cmd: &Command, state: &mut DispatchState) -> (run: bool)
    ensures
        run == (replay::guard_verdict(old(state).replay@, cmd.key_id, cmd.seq) is Ok),
        replay::guard_judged(old(state).replay@, cmd.key_id, cmd.seq, final(state).replay@),
        !run ==> final(state).replay@ == old(state).replay@,
        old(state).same_but_replay(*final(state)),
{
    state.replay.check(cmd.key_id, cmd.seq).is_ok()
}

/// Everything that happens to a decoded command before a handler runs.
pub open spec fn command_dispatched(
    cmd: Command,
    ctx: ReceiverRecvConfig,
    state: DispatchState,
    next_ctx: ReceiverRecvConfig,
    next: DispatchState,
    delivery: Delivery,
) -> bool {
    &&& ctx.same_identity(next_ctx)
    &&& next_ctx.my_id == id_after(cmd.kind, ctx.my_mac, ctx.my_id)
    &&& if cmd.kind is Announce {
        &&& state.replied(announce_reply(ctx.role_tag, ctx.my_mac, state.keyring.key()), next)
        &&& delivery == Delivery::Nothing
    } else if cmd.kind is AssignId {
        &&& state.same(next)
        &&& delivery == Delivery::Nothing
    } else {
        &&& state.same_but_replay(next)
        &&& replay::guard_judged(state.replay@, cmd.key_id, cmd.seq, next.replay@)
        &&& delivery == (if replay::guard_verdict(state.replay@, cmd.key_id, cmd.seq) is Ok {
            Delivery::Command(cmd)
        } else {
            Delivery::Nothing
        })
        &&& !(delivery is Command) ==> next.replay@ == state.replay@
    }
}

/// Nothing at all happens.
pub open spec fn ignored(
    ctx: ReceiverRecvConfig,
    state: DispatchState,
    next_ctx: ReceiverRecvConfig,
    next: DispatchState,
    delivery: Delivery,
) -> bool {
    &&& next_ctx == ctx
    &&& state.same(next)
    &&& delivery == Delivery::Nothing
}

/// What happens to a command packet, by what its decoder made of it.
pub open spec fn command_frame_dispatched(
    decoded: Option<Command>,
    ctx: ReceiverRecvConfig,
    state: DispatchState,
    next_ctx: ReceiverRecvConfig,
    next: DispatchState,
    delivery: Delivery,
) -> bool {
    match decoded {
        Some(cmd) => command_dispatched(cmd, ctx, state, next_ctx, next, delivery),
        None => ignored(ctx, state, next_ctx, next, delivery),
    }
}

/// Acts on a command packet. `decoded` is what the wire decoder made of it:
/// nothing if the packet is damaged, unauthenticated or malformed.
pub fn dispatch_command_frame(
    decoded: Option<Command>,
    ctx: &mut ReceiverRecvConfig,
    state: &mut DispatchState,
) -> (delivery: Delivery)
    ensures
        command_frame_dispatched(
            decoded,
            *old(ctx),
            *old(state),
            *final(ctx),
            *final(state),
            delivery,
        ),
{
    let cmd = match decoded {
        Some(cmd) => cmd,
        None => {
            return Delivery::Nothing;
        },
    };
    if handle_builtin(&cmd, ctx, state) {
        return Delivery::Nothing;
    }
    if dispatch_business_command(&cmd, state) {
        Delivery::Command(cmd)
    } else {
        Delivery::Nothing
    }
}

/// A frame is for a device: it has no id yet, or the frame names its id.
pub open spec fn frame_is_for(frame: Frame, my_id: u8) -> bool {
    my_id == UNASSIGNED_ID || bits::has_bit(frame.dest_mask, my_id as int)
}

/// What happens to a frame packet, by what its decoder made of it.
pub open spec fn frame_delivery(decoded: Option<Frame>, ctx: ReceiverRecvConfig) -> Delivery {
    match decoded {
        Some(frame) => if ctx.frame_handler && frame_is_for(frame, ctx.my_id) {
            Delivery::Frame(frame)
        } else {
            Delivery::Nothing
        },
        None => Delivery::Nothing,
    }
}

/// Hands over a frame that is for this device, if the device wants frames.
pub fn dispatch_frame(decoded: Option<Frame>, ctx: &ReceiverRecvConfig) -> (delivery: Delivery)
    ensures
        delivery == frame_delivery(decoded, *ctx),
        decoded is None || !ctx.frame_handler ==> delivery == Delivery::Nothing,
        decoded is Some && ctx.frame_handler && ctx.my_id < 32 ==> delivery == (if decoded->0.dest_mask & (1u32
            << (ctx.my_id as u32)) != 0 {
            Delivery::Frame(decoded->0)
        } else {
            Delivery::Nothing
        }),
{
    if !ctx.frame_handler {
        return Delivery::Nothing;
    }
    match decoded {
        Some(frame) => {
            if ctx.my_id == UNASSIGNED_ID || frame.is_addressed_to(ctx.my_id) {
                Delivery::Frame(frame)
            } else {
                Delivery::Nothing
            }
        },
        None => Delivery::Nothing,
    }
}

/// Adopts the nonce of a coordinator's announcement. `announced` is the nonce the
/// packet carries, nothing if it is another kind of response.
pub fn dispatch_response_frame(announced: Option<u32>, state: &mut DispatchState)
    ensures
        final(state).nonce.value == (match announced {
            Some(n) => if old(state).nonce.value == n {
                n
            } else {
                SessionNonce::from_seed(n)
            },
            None => old(state).nonce.value,
        }),
        final(state).keyring == old(state).keyring,
        final(state).replay@ == old(state).replay@,
        final(state).response_signal@ == old(state).response_signal@,
        final(state).drops == old(state).drops,
{
    match announced {
        Some(n) => {
            if state.nonce.session_nonce() != n {
                state.nonce.init_session_nonce(n);
            }
        },
        None => {},
    }
}

/// Acts on a received packet: tells what it is, decodes it, and does everything
/// that needs no handler. The three decoders turn the bytes of a packet of their
/// kind into its contents, or into nothing if it is not valid.
pub fn dispatch_packet<DC, DF, PN>(
    data: &[u8],
    decode_command: DC,
    decode_frame: DF,
    peek_nonce_hello: PN,
    ctx: &mut ReceiverRecvConfig,
    state: &mut DispatchState,
) -> (delivery: Delivery) where
    DC: Fn(&[u8]) -> Option<Command>,
    DF: Fn(&[u8]) -> Option<Frame>,
    PN: Fn(&[u8]) -> Option<u32>,

    requires
        decode_command.requires((data,)),
        decode_frame.requires((data,)),
        peek_nonce_hello.requires((data,)),
    ensures
        match crate::comm::link::route_of(data@) {
            PacketRoute::Command => exists|decoded: Option<Command>| #[trigger]
                decode_command.ensures((data,), decoded) && command_frame_dispatched(
                    decoded,
                    *old(ctx),
                    *old(state),
                    *final(ctx),
                    *final(state),
                    delivery,
                ),
            PacketRoute::Frame => {
                &&& *final(ctx) == *old(ctx)
                &&& old(state).same(*final(state))
                &&& !old(ctx).frame_handler ==> delivery == Delivery::Nothing
                &&& old(ctx).frame_handler ==> exists|decoded: Option<Frame>| #[trigger]
                    decode_frame.ensures((data,), decoded) && delivery == frame_delivery(decoded, *old(ctx))
            },
            PacketRoute::Response => {
                &&& *final(ctx) == *old(ctx)
                &&& delivery == Delivery::Nothing
                &&& final(state).keyring == old(state).keyring
                &&& final(state).replay@ == old(state).replay@
                &&& final(state).response_signal@ == old(state).response_signal@
                &&& final(state).drops == old(state).drops
                &&& exists|announced: Option<u32>| #[trigger]
                    peek_nonce_hello.ensures((data,), announced) && final(state).nonce.value == (match announced {
                        Some(n) => if old(state).nonce.value == n {
                            n
                        } else {
                            SessionNonce::from_seed(n)
                        },
                        None => old(state).nonce.value,
                    })
            },
            PacketRoute::Drop => ignored(*old(ctx), *old(state), *final(ctx), *final(state), delivery),
        },
{
    match route_packet(data) {
        PacketRoute::Command => {
            let decoded = decode_command(data);
            dispatch_command_frame(decoded, ctx, state)
        },
        PacketRoute::Frame => {
            if !ctx.frame_handler {
                return Delivery::Nothing;
            }
            let decoded = decode_frame(data);
            dispatch_frame(decoded, ctx)
        },
        PacketRoute::Response => {
            let announced = peek_nonce_hello(data);
            dispatch_response_frame(announced, state);
            Delivery::Nothing
        },
        PacketRoute::Drop => Delivery::Nothing,
    }
}

// ---- Laws ----

/// A device with an id that wants frames gets a frame exactly when the bit of its id
/// is set in the frame's mask, whatever other bits are; it gets the frame as it was
/// sent. Without an id it gets every frame, and without a handler none.
pub proof fn lemma_frame_reaches_exactly_its_addressees(frame: Frame, ctx: ReceiverRecvConfig)
    ensures
        ctx.frame_handler && ctx.my_id < 32 ==> (frame_delivery(Some(frame), ctx) == Delivery::Frame(frame) <==> frame.dest_mask
            & (1u32 << (ctx.my_id as u32)) != 0),
        ctx.frame_handler && ctx.my_id < 32 ==> (frame_delivery(Some(frame), ctx) == Delivery::Nothing <==> frame.dest_mask
            & (1u32 << (ctx.my_id as u32)) == 0),
        ctx.frame_handler && ctx.my_id == 255 ==> frame_delivery(Some(frame), ctx) == Delivery::Frame(frame),
        ctx.frame_handler && 32 <= ctx.my_id < 255 ==> frame_delivery(Some(frame), ctx) == Delivery::Nothing,
        !ctx.frame_handler ==> frame_delivery(Some(frame), ctx) == Delivery::Nothing,
        frame_delivery(None, ctx) == Delivery::Nothing,
{
}

/// The answer to an announcement says who the device is, and nothing else: its own
/// address and role, no signal strength, and no request that it answers.
pub proof fn lemma_announce_reply_identifies_the_device(role_tag: [u8; 3], my_mac: [u8; 6], key_id: KeyId)
    ensures
        ({
            let r = announce_reply(role_tag, my_mac, key_id);
            &&& r.req_seq == 0
            &&& r.key_id == key_id
            &&& r.body is AnnounceReply
            &&& r.body->AnnounceReply_mac == my_mac
            &&& r.body->AnnounceReply_role_tag == role_tag
            &&& r.body->AnnounceReply_rssi_dbm == -128
        }),
{
}

/// A device takes the id that is assigned to its own address. An assignment to
/// another address, and every other command, leaves its id alone.
pub proof fn lemma_only_an_assignment_to_the_device_changes_its_id(
    cmd: Command,
    ctx: ReceiverRecvConfig,
    state: DispatchState,
    next_ctx: ReceiverRecvConfig,
    next: DispatchState,
    delivery: Delivery,
)
    requires
        command_dispatched(cmd, ctx, state, next_ctx, next, delivery),
    ensures
        cmd.kind is AssignId && cmd.kind->mac == ctx.my_mac ==> next_ctx.my_id == cmd.kind->receiver_id,
        cmd.kind is AssignId && cmd.kind->mac != ctx.my_mac ==> next_ctx.my_id == ctx.my_id,
        !(cmd.kind is AssignId) ==> next_ctx.my_id == ctx.my_id,
        next_ctx.my_mac == ctx.my_mac,
        next_ctx.role_tag == ctx.role_tag,
        next_ctx.frame_handler == ctx.frame_handler,
{
}

/// Only what a handler has to see reaches it: a command arrives as it was sent, is
/// never an announcement or an assignment, and the reply queue is left alone.
pub proof fn lemma_handlers_see_business_commands_unchanged(
    cmd: Command,
    ctx: ReceiverRecvConfig,
    state: DispatchState,
    next_ctx: ReceiverRecvConfig,
    next: DispatchState,
    delivery: Delivery,
)
    requires
        command_dispatched(cmd, ctx, state, next_ctx, next, delivery),
    ensures
        delivery == Delivery::Nothing || delivery == Delivery::Command(cmd),
        delivery is Command ==> !(cmd.kind is Announce) && !(cmd.kind is AssignId),
        !(cmd.kind is Announce) ==> next.response_signal@ == state.response_signal@ && next.drops == state.drops,
        cmd.kind is Announce && state.response_signal@.len() < 8 ==> next.response_signal@.len()
            == state.response_signal@.len() + 1 && next.response_signal@.last().body is AnnounceReply,
{
}

/// A reply waits behind the others, or is counted among the dropped responses if eight wait
/// already. Keys, replay windows, nonce and the count of dropped commands stay as they were.
pub proof fn lemma_reply_waits_or_counts(state: DispatchState, resp: CommandResponse, next: DispatchState)
    requires
        state.replied(resp, next),
    ensures
        state.response_signal@.len() < 8 ==> next.response_signal@ == state.response_signal@.push(resp) && next.drops
            == state.drops,
        state.response_signal@.len() >= 8 ==> next.response_signal@ == state.response_signal@,
        state.response_signal@.len() >= 8 && state.drops.responses < 0xFFFF_FFFF ==> next.drops.responses
            == state.drops.responses + 1,
        next.drops.commands == state.drops.commands,
        next.keyring == state.keyring,
        next.replay@ == state.replay@,
        next.nonce == state.nonce,
{
}

/// A packet that is ignored changes nothing and reaches no handler.
pub proof fn lemma_ignored_packets_leave_no_trace(
    ctx: ReceiverRecvConfig,
    state: DispatchState,
    next_ctx: ReceiverRecvConfig,
    next: DispatchState,
    delivery: Delivery,
)
    requires
        command_frame_dispatched(None, ctx, state, next_ctx, next, delivery),
    ensures
        next_ctx == ctx,
        next.keyring == state.keyring,
        next.replay@ == state.replay@,
        next.response_signal@ == state.response_signal@,
        next.nonce == state.nonce,
        next.drops == state.drops,
        delivery == Delivery::Nothing,
{
}

/// The reply to a finished command answers that command: its number and key, and the
/// handler's verdict.
pub proof fn lemma_reply_answers_the_command(cmd: Command, outcome: CommandOutcome)
    ensures
        outcome is NoReply <==> reply_to(cmd, outcome) is None,
        outcome is Done ==> reply_to(cmd, outcome) == Some(
            CommandResponse { req_seq: cmd.seq, key_id: cmd.key_id, body: ResponseBody::Ack },
        ),
        outcome matches CommandOutcome::Refused(code) ==> reply_to(cmd, outcome) == Some(
            CommandResponse { req_seq: cmd.seq, key_id: cmd.key_id, body: ResponseBody::Error(code) },
        ),
        outcome matches CommandOutcome::Respond(resp) ==> reply_to(cmd, outcome) == Some(resp),
{
}

/// A broadcast frame is for every device, with or without an id; a frame for
/// nobody reaches only devices without an id.
pub proof fn lemma_broadcast_and_silent_frames(frame: Frame, my_id: u8)
    requires
        my_id < 32 || my_id == UNASSIGNED_ID,
    ensures
        frame.dest_mask == u32::MAX ==> frame_is_for(frame, my_id),
        frame.dest_mask == 0 ==> (frame_is_for(frame, my_id) <==> my_id == UNASSIGNED_ID),
{
    bits::lemma_none_and_all();
}

/// Announcements and id assignments work whatever the replay windows hold, and
/// leave them alone.
pub proof fn lemma_builtins_are_exempt_from_replay(
    cmd: Command,
    ctx: ReceiverRecvConfig,
    state: DispatchState,
    next_ctx: ReceiverRecvConfig,
    next: DispatchState,
    delivery: Delivery,
)
    requires
        is_builtin(cmd.kind),
        command_dispatched(cmd, ctx, state, next_ctx, next, delivery),
    ensures
        next.replay@ == state.replay@,
        next_ctx.my_id == id_after(cmd.kind, ctx.my_mac, ctx.my_id),
        cmd.kind is Announce ==> state.replied(
            announce_reply(ctx.role_tag, ctx.my_mac, state.keyring.key()),
            next,
        ),
{
}

/// One command's way through a device: what it was, the device before and after,
/// and what was left for the handler.
pub struct Dispatched {
    pub cmd: Command,
    pub ctx: ReceiverRecvConfig,
    pub before: DispatchState,
    pub next_ctx: ReceiverRecvConfig,
    pub after: DispatchState,
    pub delivery: Delivery,
}

/// `steps` are the commands that one device took, one after another. Between two
/// of them the device may do anything that leaves its replay windows alone.
pub open spec fn dispatch_history(steps: Seq<Dispatched>) -> bool {
    &&& forall|t: int|
        #![trigger steps[t]]
        0 <= t < steps.len() ==> {
            &&& steps[t].before.replay@.len() == crate::protocol::KEY_SLOTS
            &&& command_dispatched(
                steps[t].cmd,
                steps[t].ctx,
                steps[t].before,
                steps[t].next_ctx,
                steps[t].after,
                steps[t].delivery,
            )
        }
    &&& forall|t: int, u: int|
        #![trigger steps[t], steps[u]]
        0 <= t && u == t + 1 && u < steps.len() ==> steps[u].before.replay@ == steps[t].after.replay@
}

/// A business command that reached the handler once never reaches it again,
/// whatever other commands came in between.
pub proof fn lemma_handler_runs_at_most_once(steps: Seq<Dispatched>, i: int, j: int)
    requires
        dispatch_history(steps),
        0 <= i < j < steps.len(),
        !is_builtin(steps[i].cmd.kind),
        !is_builtin(steps[j].cmd.kind),
        steps[i].cmd.key_id == steps[j].cmd.key_id,
        steps[i].cmd.seq == steps[j].cmd.seq,
        steps[i].delivery is Command,
    ensures
        steps[j].delivery == Delivery::Nothing,
{
    lemma_refused_from(steps, i, j);
}

proof fn lemma_refused_from(steps: Seq<Dispatched>, i: int, j: int)
    requires
        dispatch_history(steps),
        0 <= i < j < steps.len(),
        !is_builtin(steps[i].cmd.kind),
        steps[i].delivery is Command,
    ensures
        replay::guard_verdict(steps[j].before.replay@, steps[i].cmd.key_id, steps[i].cmd.seq) is Err,
    decreases j,
{
    let key_id = steps[i].cmd.key_id;
    let seq = steps[i].cmd.seq;
    let last = steps[j - 1];
    assert(steps[j].before.replay@ == last.after.replay@);
    if j == i + 1 {
        replay::lemma_restored_guard_refuses(
            last.before.replay@,
            key_id,
            seq,
            last.after.replay@,
            last.after.replay,
        );
    } else {
        lemma_refused_from(steps, i, j - 1);
        if !is_builtin(last.cmd.kind) {
            replay::lemma_guard_keeps_refusing(
                last.before.replay@,
                key_id,
                seq,
                last.cmd.key_id,
                last.cmd.seq,
                last.after.replay@,
            );
        }
    }
}

} // verus!
