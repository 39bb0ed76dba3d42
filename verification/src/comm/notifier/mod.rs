//! The coordinator: keeps the directory of endpoints, starts discovery, assigns
//! ids, sends frames and commands, and hears reports.

pub mod builder;
pub mod nonce;
pub mod outbound;
pub mod signals;

pub use builder::{CommandHandlerConfig, NotifierBuilder};

use super::dispatch::{complete_command, dispatch_command_frame, dispatch_frame, Delivery, DispatchState};
use super::keyring::{self, Keyring, KeyringError};
use super::link::{route_packet, PacketRoute};
use super::peer_registry::{self, PeerList, PeerRegistry, UpsertOutcome};
use super::receiver::{CommandOutcome, ReceiverRecvConfig};
use super::selector::{DestMask, Selector};
use crate::protocol::{
    Command, CommandBody, CommandResponse, Frame, KeyId, ResponseBody, COMMAND_LEN,
};
use crate::time::Instant;
use nonce::EntropySource;
use outbound::{next_outbound, Outbound};
use signals::{
    enqueue_command, CommandDest, CommandOutChannel, FrameSignal, OutboundCommand, ResponseChannel,
};
use vstd::prelude::*;

verus! {

/// Failures of the coordinator.
#[derive(Debug, Clone, Copy, PartialEq, Eq, Structural)]
#[non_exhaustive]
pub enum NotifierError {
    /// The link failed.
    Link,
    /// The endpoint is not in the directory.
    NoTarget,
}

/// The coordinator.
pub struct Notifier {
    pub state: DispatchState,
    pub peers: PeerRegistry,
    pub selector: Option<Selector>,
    pub frame_signal: FrameSignal,
    pub command_signal: CommandOutChannel,
    /// Set when the device takes commands as well.
    pub handler_config: Option<CommandHandlerConfig>,
    /// Whether the device has a handler for responses.
    pub response_handler: bool,
}

/// The command that the next call numbers and signs.
pub open spec fn numbered(keys: Keyring, body: CommandBody) -> Command {
    Command {
        seq: keyring::next_number(keys.counters()[keys.slot()]),
        key_id: keys.key(),
        kind: body,
    }
}

/// The keys after the next number was handed out.
pub open spec fn number_taken(keys: Keyring, next: Keyring) -> bool {
    &&& next.counters() == keys.counters().update(
        keys.slot(),
        keyring::next_number(keys.counters()[keys.slot()]),
    )
    &&& next.key() == keys.key()
    &&& next.slot() == keys.slot()
}

/// A command was numbered with the active key's next number, encoded and offered
/// to the outgoing queue.
pub open spec fn command_sent<E: Fn(Command) -> [u8; COMMAND_LEN]>(
    keys: Keyring,
    dest: CommandDest,
    body: CommandBody,
    encode: E,
    queue: Seq<OutboundCommand>,
    drops: u32,
    next_keys: Keyring,
    next_queue: Seq<OutboundCommand>,
    next_drops: u32,
) -> bool {
    &&& number_taken(keys, next_keys)
    &&& exists|bytes: [u8; COMMAND_LEN]|
        {
            &&& #[trigger] encode.ensures((numbered(keys, body),), bytes)
            &&& signals::offered(queue, drops, OutboundCommand { dest, bytes }, next_queue, next_drops)
        }
}

impl Notifier {
    /// The keys and the directory are in order.
    pub open spec fn wf(self) -> bool {
        &&& self.state.keyring.wf()
        &&& self.peers.wf()
    }

    /// Nothing but the outgoing commands, their numbers and their drop count has
    /// changed.
    pub open spec fn same_but_commands(self, next: Notifier) -> bool {
        &&& next.state.replay@ == self.state.replay@
        &&& next.state.response_signal@ == self.state.response_signal@
        &&& next.state.nonce == self.state.nonce
        &&& next.state.drops.responses == self.state.drops.responses
        &&& next.peers@ == self.peers@
        &&& next.selector == self.selector
        &&& next.frame_signal@ == self.frame_signal@
        &&& next.handler_config == self.handler_config
        &&& next.response_handler == self.response_handler
    }

    /// Nothing has changed.
    pub open spec fn same(self, next: Notifier) -> bool {
        &&& self.state.same(next.state)
        &&& next.command_signal@ == self.command_signal@
        &&& self.same_but_commands(next)
    }

    /// A command went out.
    pub open spec fn sent<E: Fn(Command) -> [u8; COMMAND_LEN]>(
        self,
        dest: CommandDest,
        body: CommandBody,
        encode: E,
        next: Notifier,
    ) -> bool {
        &&& self.same_but_commands(next)
        &&& command_sent(
            self.state.keyring,
            dest,
            body,
            encode,
            self.command_signal@,
            self.state.drops.commands,
            next.state.keyring,
            next.command_signal@,
            next.state.drops.commands,
        )
    }

    /// Starts to put a coordinator together.
    pub fn builder() -> (b: NotifierBuilder)
        ensures
            b.is_blank(),
    {
        NotifierBuilder::new()
    }

    /// Leaves a frame to be sent, in place of one that was not sent yet.
    pub fn send_frame(&mut self, frame: &Frame)
        ensures
            final(self).frame_signal@ == Some(*frame),
            old(self).state.same(final(self).state),
            final(self).command_signal@ == old(self).command_signal@,
            final(self).peers == old(self).peers,
            final(self).selector == old(self).selector,
            final(self).handler_config == old(self).handler_config,
            final(self).response_handler == old(self).response_handler,
    {
        self.frame_signal.signal(*frame);
    }

    fn enqueue<E>(&mut self, dest: CommandDest, body: CommandBody, encode: E) where
        E: Fn(Command) -> [u8; COMMAND_LEN],

        requires
            old(self).wf(),
            forall|c: Command| encode.requires((c,)),
        ensures
            final(self).wf(),
            old(self).sent(dest, body, encode, *final(self)),
    {
        let key_id = self.state.keyring.active();
        let seq: u32 = self.state.keyring.next_seq();
        let cmd = Command::with_key(seq, key_id, body);
        let bytes = encode(cmd);
        let out = OutboundCommand { dest, bytes };
        enqueue_command(&mut self.command_signal, &mut self.state.drops, out);
    }

    /// Asks every endpoint in reach to report itself.
    pub fn discover<E>(&mut self, encode: E) where E: Fn(Command) -> [u8; COMMAND_LEN]
        requires
            old(self).wf(),
            forall|c: Command| encode.requires((c,)),
        ensures
            final(self).wf(),
            old(self).sent(CommandDest::Broadcast, CommandBody::Announce, encode, *final(self)),
    {
        self.enqueue(CommandDest::Broadcast, CommandBody::Announce, encode);
    }

    /// Sends a command to everybody.
    pub fn send_command<E>(&mut self, body: CommandBody, encode: E) where
        E: Fn(Command) -> [u8; COMMAND_LEN],

        requires
            old(self).wf(),
            forall|c: Command| encode.requires((c,)),
        ensures
            final(self).wf(),
            old(self).sent(CommandDest::Broadcast, body, encode, *final(self)),
    {
        self.enqueue(CommandDest::Broadcast, body, encode);
    }

    /// Sends a command to an address.
    pub fn send_command_to_mac<E>(&mut self, mac: [u8; 6], body: CommandBody, encode: E) where
        E: Fn(Command) -> [u8; COMMAND_LEN],

        requires
            old(self).wf(),
            forall|c: Command| encode.requires((c,)),
        ensures
            final(self).wf(),
            old(self).sent(CommandDest::Unicast(mac), body, encode, *final(self)),
    {
        self.enqueue(CommandDest::Unicast(mac), body, encode);
    }

    /// Sends a command to the endpoint with an id. Without such an endpoint
    /// nothing is sent and no number is used up.
    pub fn send_command_to<E>(&mut self, receiver_id: u8, body: CommandBody, encode: E) -> (r: Result<
        (),
        NotifierError,
    >) where E: Fn(Command) -> [u8; COMMAND_LEN]
        requires
            old(self).wf(),
            forall|c: Command| encode.requires((c,)),
        ensures
            final(self).wf(),
            !peer_registry::id_taken(old(self).peers@, receiver_id as int) ==> {
                &&& r == Err::<(), NotifierError>(NotifierError::NoTarget)
                &&& *final(self) == *old(self)
            },
            peer_registry::id_taken(old(self).peers@, receiver_id as int) ==> {
                &&& r is Ok
                &&& exists|mac: [u8; 6]|
                    {
                        &&& #[trigger] peer_registry::mac_of(old(self).peers@, receiver_id as int, Some(mac))
                        &&& old(self).sent(CommandDest::Unicast(mac), body, encode, *final(self))
                    }
            },
    {
        match self.peers.lookup_mac_for_id(receiver_id) {
            Some(mac) => {
                assert(peer_registry::mac_of(old(self).peers@, receiver_id as int, Some(mac)));
                self.enqueue(CommandDest::Unicast(mac), body, encode);
                Ok(())
            },
            None => Err(NotifierError::NoTarget),
        }
    }

    /// The endpoints known now.
    pub fn peers(&self) -> (list: PeerList)
        ensures
            list@ == peer_registry::infos(self.peers@),
    {
        self.peers.snapshot()
    }

    /// Selects endpoints directly, without the selector's editing step. Without a
    /// selector nothing happens.
    pub fn select_targets(&mut self, mask: DestMask)
        ensures
            match old(self).selector {
                Some(_) => final(self).selector is Some && final(self).selector->0.in_force() == mask
                    && final(self).selector->0.editing() == mask,
                None => final(self).selector is None,
            },
            final(self).state == old(self).state,
            final(self).peers == old(self).peers,
            final(self).frame_signal == old(self).frame_signal,
            final(self).command_signal == old(self).command_signal,
            final(self).handler_config == old(self).handler_config,
            final(self).response_handler == old(self).response_handler,
    {
        if let Some(s) = self.selector {
            let mut s = s;
            s.set_active(mask);
            self.selector = Some(s);
        }
    }

    /// The selector, if the coordinator has one.
    pub fn selector(&self) -> (s: Option<Selector>)
        ensures
            s == self.selector,
    {
        self.selector
    }

    /// Activates a key.
    pub fn rotate_key(&mut self, new_id: KeyId) -> (r: Result<(), KeyringError>)
        requires
            old(self).wf(),
        ensures
            final(self).wf(),
            r == (if !new_id.in_slots() {
                Err::<(), KeyringError>(KeyringError::SlotOutOfRange(new_id.raw))
            } else if !crate::protocol::auth::slot_has_secret(new_id.raw as int) {
                Err(KeyringError::SlotDisabled(new_id.raw))
            } else {
                Ok(())
            }),
            r is Ok ==> final(self).state.keyring.key() == new_id,
            r is Err ==> final(self).state.keyring == old(self).state.keyring,
            final(self).state.keyring.counters() == old(self).state.keyring.counters(),
            old(self).same_but_commands(*final(self)),
            final(self).command_signal == old(self).command_signal,
            final(self).state.drops == old(self).state.drops,
    {
        self.state.keyring.rotate_to(new_id)
    }

    /// The queue of outgoing responses, for those who add to it.
    pub fn response_signal(&mut self) -> (queue: &mut ResponseChannel)
        ensures
            *queue == old(self).state.response_signal,
            *final(self) == (Notifier {
                state: DispatchState { response_signal: *final(queue), ..old(self).state },
                ..*old(self)
            }),
    {
        &mut self.state.response_signal
    }

    /// Draws the session nonce, adopts it and returns it.
    pub fn init_session<E: EntropySource>(&mut self, entropy: &mut E) -> (written: u32)
        ensures
            exists|seed: u32| #[trigger]
                E::may_draw(*old(entropy), seed, *final(entropy)) && written == crate::protocol::SessionNonce::from_seed(
                    seed,
                ),
            written != 0,
            final(self).state.nonce.value == written,
            final(self).state.keyring == old(self).state.keyring,
            final(self).state.replay == old(self).state.replay,
            final(self).state.response_signal == old(self).state.response_signal,
            final(self).state.drops == old(self).state.drops,
            final(self).peers == old(self).peers,
            final(self).selector == old(self).selector,
            final(self).frame_signal == old(self).frame_signal,
            final(self).command_signal == old(self).command_signal,
            final(self).handler_config == old(self).handler_config,
            final(self).response_handler == old(self).response_handler,
    {
        nonce::init_session(entropy, &mut self.state.nonce)
    }

    /// Takes the next message to send.
    pub fn next_to_send(&mut self) -> (out: Option<Outbound>)
        ensures
            outbound::taken(
                old(self).frame_signal@,
                old(self).state.response_signal@,
                old(self).command_signal@,
                out,
                final(self).frame_signal@,
                final(self).state.response_signal@,
                final(self).command_signal@,
            ),
            match out {
                Some(Outbound::Frame { dest, frame }) => outbound::frame_goes_to(
                    frame.dest_mask,
                    old(self).peers@,
                    dest,
                ),
                _ => true,
            },
            final(self).peers == old(self).peers,
            final(self).selector == old(self).selector,
            final(self).handler_config == old(self).handler_config,
            final(self).response_handler == old(self).response_handler,
            final(self).state.keyring == old(self).state.keyring,
            final(self).state.replay@ == old(self).state.replay@,
            final(self).state.nonce == old(self).state.nonce,
            final(self).state.drops == old(self).state.drops,
    {
        next_outbound(
            &mut self.frame_signal,
            &mut self.state.response_signal,
            &mut self.command_signal,
            Some(&self.peers),
        )
    }

    /// Acts on a response. An endpoint that reports itself is put into the
    /// directory and told its id, every time: an assignment that was lost is made
    /// up for by the next report. Any other response is for the response handler.
    pub fn handle_incoming_response<E>(&mut self, resp: &CommandResponse, now: Instant, encode: E) -> (forward:
        bool) where E: Fn(Command) -> [u8; COMMAND_LEN]
        requires
            old(self).wf(),
            forall|c: Command| encode.requires((c,)),
        ensures
            final(self).wf(),
            forward == (!(resp.body is AnnounceReply) && old(self).response_handler),
            response_handled(*old(self), *resp, now, encode, *final(self)),
    {
        match resp.body {
            ResponseBody::AnnounceReply { mac, rssi_dbm, role_tag } => {
                let outcome = self.peers.upsert(mac, role_tag, rssi_dbm, now);
                match outcome.assigned_id() {
                    Some(receiver_id) => self.enqueue(
                        CommandDest::Unicast(mac),
                        CommandBody::AssignId { mac, receiver_id },
                        encode,
                    ),
                    None => {},
                }
                assert(peer_registry::upserted(
                    old(self).peers@,
                    mac,
                    role_tag,
                    rssi_dbm,
                    now,
                    outcome,
                    self.peers@,
                ));
                false
            },
            _ => self.response_handler,
        }
    }

    /// Acts on a received packet and says what is left for the handlers. The
    /// decoders turn the bytes of a packet of their kind into its contents, or into
    /// nothing if it is not valid; `encode` turns a command into its bytes.
    pub fn on_packet<DR, DC, DF, E>(
        &mut self,
        data: &[u8],
        now: Instant,
        decode_response: DR,
        decode_command: DC,
        decode_frame: DF,
        encode: E,
    ) -> (delivery: Delivery) where
        DR: Fn(&[u8]) -> Option<CommandResponse>,
        DC: Fn(&[u8]) -> Option<Command>,
        DF: Fn(&[u8]) -> Option<Frame>,
        E: Fn(Command) -> [u8; COMMAND_LEN],

        requires
            old(self).wf(),
            decode_response.requires((data,)),
            decode_command.requires((data,)),
            decode_frame.requires((data,)),
            forall|c: Command| encode.requires((c,)),
        ensures
            final(self).wf(),
            match crate::comm::link::route_of(data@) {
                PacketRoute::Response => exists|decoded: Option<CommandResponse>| #[trigger]
                    decode_response.ensures((data,), decoded) && match decoded {
                        Some(resp) => {
                            &&& response_handled(*old(self), resp, now, encode, *final(self))
                            &&& delivery == (if !(resp.body is AnnounceReply) && old(self).response_handler {
                                Delivery::Response(resp)
                            } else {
                                Delivery::Nothing
                            })
                        },
                        None => old(self).same(*final(self)) && delivery == Delivery::Nothing,
                    },
                PacketRoute::Command => match old(self).handler_config {
                    Some(cfg) => {
                        &&& old(self).same_but_state(*final(self))
                        &&& final(self).handler_config is Some
                        &&& exists|decoded: Option<Command>| #[trigger]
                            decode_command.ensures((data,), decoded)
                                && crate::comm::dispatch::command_frame_dispatched(
                                decoded,
                                cfg,
                                old(self).state,
                                final(self).handler_config->0,
                                final(self).state,
                                delivery,
                            )
                    },
                    None => old(self).same(*final(self)) && delivery == Delivery::Nothing,
                },
                PacketRoute::Frame => {
                    &&& old(self).same(*final(self))
                    &&& match old(self).handler_config {
                        Some(cfg) => {
                            &&& !cfg.frame_handler ==> delivery == Delivery::Nothing
                            &&& cfg.frame_handler ==> exists|decoded: Option<Frame>| #[trigger]
                                decode_frame.ensures((data,), decoded) && delivery
                                    == crate::comm::dispatch::frame_delivery(decoded, cfg)
                        },
                        None => delivery == Delivery::Nothing,
                    }
                },
                PacketRoute::Drop => old(self).same(*final(self)) && delivery == Delivery::Nothing,
            },
    {
        match route_packet(data) {
            PacketRoute::Response => {
                match decode_response(data) {
                    Some(resp) => {
                        if self.handle_incoming_response(&resp, now, encode) {
                            Delivery::Response(resp)
                        } else {
                            Delivery::Nothing
                        }
                    },
                    None => Delivery::Nothing,
                }
            },
            PacketRoute::Command => {
                match self.handler_config {
                    Some(cfg) => {
                        let mut cfg = cfg;
                        let decoded = decode_command(data);
                        let delivery = dispatch_command_frame(decoded, &mut cfg, &mut self.state);
                        self.handler_config = Some(cfg);
                        delivery
                    },
                    None => Delivery::Nothing,
                }
            },
            PacketRoute::Frame => {
                match self.handler_config {
                    Some(cfg) => {
                        if !cfg.frame_handler {
                            return Delivery::Nothing;
                        }
                        let decoded = decode_frame(data);
                        dispatch_frame(decoded, &cfg)
                    },
                    None => Delivery::Nothing,
                }
            },
            PacketRoute::Drop => Delivery::Nothing,
        }
    }

    /// Queues the reply to a command that the handler has finished.
    pub fn on_handled(&mut self, cmd: &Command, outcome: CommandOutcome)
        ensures
            match crate::comm::dispatch::reply_to(*cmd, outcome) {
                Some(resp) => old(self).state.replied(resp, final(self).state),
                None => old(self).state.same(final(self).state),
            },
            old(self).same_but_state(*final(self)),
            final(self).handler_config == old(self).handler_config,
    {
        complete_command(cmd, outcome, &mut self.state);
    }

    /// Nothing but the shared state and the device's own id has changed.
    pub open spec fn same_but_state(self, next: Notifier) -> bool {
        &&& next.peers == self.peers
        &&& next.selector == self.selector
        &&& next.frame_signal == self.frame_signal
        &&& next.command_signal == self.command_signal
        &&& next.response_handler == self.response_handler
    }
}

/// What a response does to the coordinator: a report enters the directory and is
/// answered with the id under which it is known, any other response changes
/// nothing.
pub open spec fn response_handled<E: Fn(Command) -> [u8; COMMAND_LEN]>(
    before: Notifier,
    resp: CommandResponse,
    now: Instant,
    encode: E,
    after: Notifier,
) -> bool {
    match resp.body {
        ResponseBody::AnnounceReply { mac, rssi_dbm, role_tag } => exists|outcome: UpsertOutcome|
            {
                &&& #[trigger] peer_registry::upserted(
                    before.peers@,
                    mac,
                    role_tag,
                    rssi_dbm,
                    now,
                    outcome,
                    after.peers@,
                )
                &&& (Notifier { peers: after.peers, ..before }).sent(
                    CommandDest::Unicast(mac),
                    CommandBody::AssignId { mac, receiver_id: outcome.assigned()->0 },
                    encode,
                    after,
                )
            },
        _ => before.same(after),
    }
}

// ---- Laws ----

/// A command that is sent carries what it was asked to carry, under the active key and
/// with that key's next number: one more than the last, or one after the largest. Only
/// the active key's counter moves, to that number.
pub proof fn lemma_command_is_numbered_by_its_key(keys: Keyring, body: CommandBody, next: Keyring, k: int)
    requires
        keys.wf(),
        number_taken(keys, next),
        0 <= k < crate::protocol::KEY_SLOTS,
    ensures
        ({
            let cmd = numbered(keys, body);
            let last = keys.counters()[keys.key().raw as int];
            &&& cmd.kind == body
            &&& cmd.key_id == keys.key()
            &&& last < 0xFFFF_FFFF ==> cmd.seq == last + 1
            &&& last == 0xFFFF_FFFF ==> cmd.seq == 1
            &&& next.key() == keys.key()
            &&& next.counters()[k] == (if k == keys.key().raw {
                cmd.seq
            } else {
                keys.counters()[k]
            })
        }),
{
}

/// A command that is sent waits at the end of the queue, for the destination that was
/// asked for, or is counted as dropped if eight wait already. What waited before waits
/// on, in its place.
pub proof fn lemma_command_waits_or_counts<E: Fn(Command) -> [u8; COMMAND_LEN]>(
    before: Notifier,
    dest: CommandDest,
    body: CommandBody,
    encode: E,
    after: Notifier,
)
    requires
        before.sent(dest, body, encode, after),
    ensures
        ({
            let n = before.command_signal@.len();
            &&& n < 8 ==> {
                &&& after.command_signal@.len() == n + 1
                &&& after.command_signal@[n as int].dest == dest
                &&& encode.ensures((numbered(before.state.keyring, body),), after.command_signal@[n as int].bytes)
                &&& after.state.drops == before.state.drops
            }
            &&& n >= 8 ==> after.command_signal@ == before.command_signal@
            &&& n >= 8 && before.state.drops.commands < 0xFFFF_FFFF ==> after.state.drops.commands
                == before.state.drops.commands + 1
            &&& forall|i: int| 0 <= i < n ==> #[trigger] after.command_signal@[i] == before.command_signal@[i]
            &&& after.peers@ == before.peers@
            &&& after.frame_signal@ == before.frame_signal@
            &&& after.state.response_signal@ == before.state.response_signal@
        }),
{
}

/// A report is in the directory afterwards, as it was heard: the address, the role and
/// the signal strength that it named, and the time at which it came. Any other response
/// leaves the directory and all queues alone.
pub proof fn lemma_report_enters_the_directory<E: Fn(Command) -> [u8; COMMAND_LEN]>(
    before: Notifier,
    resp: CommandResponse,
    now: Instant,
    encode: E,
    after: Notifier,
)
    requires
        before.wf(),
        response_handled(before, resp, now, encode, after),
    ensures
        resp.body is AnnounceReply ==> exists|j: int|
            #![trigger after.peers@[j]]
            0 <= j < after.peers@.len() && after.peers@[j].info.mac == resp.body->mac && after.peers@[j].info.role
                == resp.body->role_tag && after.peers@[j].info.rssi_dbm == resp.body->rssi_dbm
                && after.peers@[j].last_seen == now,
        !(resp.body is AnnounceReply) ==> after.peers@ == before.peers@ && after.command_signal@
            == before.command_signal@ && after.state.response_signal@ == before.state.response_signal@
            && after.frame_signal@ == before.frame_signal@,
{
    if resp.body is AnnounceReply {
        let (mac, rssi_dbm, role_tag) = (resp.body->mac, resp.body->rssi_dbm, resp.body->role_tag);
        let outcome = choose|outcome: UpsertOutcome|
            {
                &&& #[trigger] peer_registry::upserted(
                    before.peers@,
                    mac,
                    role_tag,
                    rssi_dbm,
                    now,
                    outcome,
                    after.peers@,
                )
            };
        peer_registry::lemma_report_is_written(
            before.peers@,
            mac,
            role_tag,
            rssi_dbm,
            now,
            outcome,
            after.peers@,
        );
    }
}

/// Every report is answered with the id under which the endpoint is known from
/// then on, whether it was known before or not: with room in the queue, the last
/// command in it is that assignment, for that address alone.
pub proof fn lemma_report_is_answered_with_its_id<E: Fn(Command) -> [u8; COMMAND_LEN]>(
    before: Notifier,
    resp: CommandResponse,
    now: Instant,
    encode: E,
    after: Notifier,
)
    requires
        before.wf(),
        resp.body is AnnounceReply,
        before.command_signal@.len() < signals::OUTBOUND_QUEUE_DEPTH,
        response_handled(before, resp, now, encode, after),
    ensures
        exists|id: u8, bytes: [u8; COMMAND_LEN]|
            {
                &&& #[trigger] peer_registry::id_of(after.peers@, resp.body->mac, Some(id))
                &&& #[trigger] encode.ensures(
                    (numbered(
                        before.state.keyring,
                        CommandBody::AssignId { mac: resp.body->mac, receiver_id: id },
                    ),),
                    bytes,
                )
                &&& after.command_signal@ == before.command_signal@.push(
                    OutboundCommand { dest: CommandDest::Unicast(resp.body->mac), bytes },
                )
            },
{
    let (mac, rssi_dbm, role_tag) = (resp.body->mac, resp.body->rssi_dbm, resp.body->role_tag);
    let outcome = choose|outcome: UpsertOutcome|
        {
            &&& #[trigger] peer_registry::upserted(
                before.peers@,
                mac,
                role_tag,
                rssi_dbm,
                now,
                outcome,
                after.peers@,
            )
            &&& (Notifier { peers: after.peers, ..before }).sent(
                CommandDest::Unicast(mac),
                CommandBody::AssignId { mac, receiver_id: outcome.assigned()->0 },
                encode,
                after,
            )
        };
    peer_registry::lemma_upsert_then_lookup(
        before.peers@,
        mac,
        role_tag,
        rssi_dbm,
        now,
        outcome,
        after.peers@,
    );
    let id = outcome.assigned()->0;
    assert(peer_registry::id_of(after.peers@, mac, Some(id)));
}

/// An endpoint that takes the assignment made for its address ends up with the id
/// under which the coordinator knows it, whatever id it had before, and whatever
/// its replay windows hold: a lost assignment heals with the next report.
pub proof fn lemma_assignment_heals(
    peers: PeerRegistry,
    id: u8,
    cmd: Command,
    ctx: ReceiverRecvConfig,
    state: DispatchState,
    next_ctx: ReceiverRecvConfig,
    next: DispatchState,
    delivery: Delivery,
)
    requires
        peers.wf(),
        peer_registry::id_of(peers@, ctx.my_mac, Some(id)),
        cmd.kind == (CommandBody::AssignId { mac: ctx.my_mac, receiver_id: id }),
        crate::comm::dispatch::command_dispatched(cmd, ctx, state, next_ctx, next, delivery),
    ensures
        next_ctx.my_id == id,
        peer_registry::mac_of(peers@, next_ctx.my_id as int, Some(next_ctx.my_mac)),
{
}

/// Discovery works: an endpoint that hears an announcement answers it, the
/// coordinator takes the answer into its directory and sends the id to that address
/// alone, and an endpoint that hears this ends up with exactly the id under which
/// the coordinator knows it. This holds whatever id either side had before, with
/// room in both queues and a wire format that gives back what was encoded.
pub proof fn lemma_discovery_assigns_the_known_id<E: Fn(Command) -> [u8; COMMAND_LEN]>(
    announce: Command,
    ctx: ReceiverRecvConfig,
    state: DispatchState,
    answered_ctx: ReceiverRecvConfig,
    answered: DispatchState,
    heard: Delivery,
    before: Notifier,
    now: Instant,
    encode: E,
    after: Notifier,
    decode: spec_fn([u8; COMMAND_LEN]) -> Option<Command>,
    assignment: Command,
    waiting: DispatchState,
    last_ctx: ReceiverRecvConfig,
    last: DispatchState,
    taken: Delivery,
)
    requires
        announce.kind is Announce,
        state.response_signal@.len() < signals::OUTBOUND_QUEUE_DEPTH,
        crate::comm::dispatch::command_dispatched(announce, ctx, state, answered_ctx, answered, heard),
        before.wf(),
        before.command_signal@.len() < signals::OUTBOUND_QUEUE_DEPTH,
        response_handled(before, answered.response_signal@.last(), now, encode, after),
        forall|c: Command, bytes: [u8; COMMAND_LEN]| #[trigger]
            encode.ensures((c,), bytes) ==> decode(bytes) == Some(c),
        decode(after.command_signal@.last().bytes) == Some(assignment),
        crate::comm::dispatch::command_dispatched(
            assignment,
            answered_ctx,
            waiting,
            last_ctx,
            last,
            taken,
        ),
    ensures
        after.command_signal@.last().dest == CommandDest::Unicast(ctx.my_mac),
        peer_registry::id_of(after.peers@, ctx.my_mac, Some(last_ctx.my_id)),
        peer_registry::mac_of(after.peers@, last_ctx.my_id as int, Some(ctx.my_mac)),
{
    let reply = answered.response_signal@.last();
    lemma_report_is_answered_with_its_id(before, reply, now, encode, after);
    let (id, bytes) = choose|id: u8, bytes: [u8; COMMAND_LEN]|
        {
            &&& #[trigger] peer_registry::id_of(after.peers@, ctx.my_mac, Some(id))
            &&& #[trigger] encode.ensures(
                (numbered(
                    before.state.keyring,
                    CommandBody::AssignId { mac: ctx.my_mac, receiver_id: id },
                ),),
                bytes,
            )
            &&& after.command_signal@ == before.command_signal@.push(
                OutboundCommand { dest: CommandDest::Unicast(ctx.my_mac), bytes },
            )
        };
    assert(assignment.kind == (CommandBody::AssignId { mac: ctx.my_mac, receiver_id: id }));
    assert(last_ctx.my_id == id);
}

/// A command that was carried out is acknowledged under the number and the key with
/// which the coordinator sent it, so that the coordinator can tell which command it
/// was. This holds with room in both queues and a wire format that gives back what
/// was encoded.
pub proof fn lemma_acknowledgement_names_its_command<E: Fn(Command) -> [u8; COMMAND_LEN]>(
    before: Notifier,
    dest: CommandDest,
    body: CommandBody,
    encode: E,
    after: Notifier,
    decode: spec_fn([u8; COMMAND_LEN]) -> Option<Command>,
    cmd: Command,
    state: DispatchState,
    replied: DispatchState,
)
    requires
        before.command_signal@.len() < signals::OUTBOUND_QUEUE_DEPTH,
        before.sent(dest, body, encode, after),
        forall|c: Command, bytes: [u8; COMMAND_LEN]| #[trigger]
            encode.ensures((c,), bytes) ==> decode(bytes) == Some(c),
        decode(after.command_signal@.last().bytes) == Some(cmd),
        state.response_signal@.len() < signals::OUTBOUND_QUEUE_DEPTH,
        state.replied(crate::comm::dispatch::reply_to(cmd, CommandOutcome::Done)->0, replied),
    ensures
        cmd.kind == body,
        after.command_signal@.last().dest == dest,
        replied.response_signal@.last() == CommandResponse::spec_ack(
            keyring::next_number(before.state.keyring.counters()[before.state.keyring.slot()]),
            before.state.keyring.key(),
        ),
{
    let sent = numbered(before.state.keyring, body);
    let bytes = choose|bytes: [u8; COMMAND_LEN]|
        {
            &&& #[trigger] encode.ensures((sent,), bytes)
            &&& signals::offered(
                before.command_signal@,
                before.state.drops.commands,
                OutboundCommand { dest, bytes },
                after.command_signal@,
                after.state.drops.commands,
            )
        };
    assert(cmd == sent);
}

/// A frame sent to a single address is for the endpoint at that address: the
/// directory knows the address under an id that the frame's mask selects.
pub proof fn lemma_unicast_frame_is_for_its_target(
    frame: Frame,
    peers: PeerRegistry,
    mac: [u8; 6],
    id: u8,
)
    requires
        peers.wf(),
        outbound::frame_goes_to(frame.dest_mask, peers@, CommandDest::Unicast(mac)),
        peer_registry::id_of(peers@, mac, Some(id)),
    ensures
        crate::comm::dispatch::frame_is_for(frame, id),
        forall|other: u8|
            other < 32 && other != id ==> !#[trigger] crate::comm::dispatch::frame_is_for(frame, other),
{
    let k = choose|k: int|
        0 <= k < 32 && frame.dest_mask == #[trigger] crate::bits::one_bit(k) && peer_registry::mac_of(
            peers@,
            k,
            Some(mac),
        );
    let i = choose|i: int|
        0 <= i < peers@.len() && (#[trigger] peers@[i]).info.mac == mac && peers@[i].info.receiver_id == id;
    let j = choose|j: int|
        0 <= j < peers@.len() && (#[trigger] peers@[j]).info.mac == mac && peers@[j].info.receiver_id == k;
    assert(i == j);
    outbound::lemma_one_bit_counts_one(k);
    assert forall|other: u8| other < 32 && other != id implies !#[trigger] crate::comm::dispatch::frame_is_for(
        frame,
        other,
    ) by {
        crate::bits::lemma_ones_is_one(crate::bits::one_bit(k), k, 32);
        assert(!crate::bits::has_bit(frame.dest_mask, other as int));
    }
}

} // verus!
