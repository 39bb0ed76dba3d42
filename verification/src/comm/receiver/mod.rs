//! The endpoint: takes commands and frames, reports back.

pub mod builder;

pub use builder::ReceiverBuilder;

use super::dispatch::{complete_command, dispatch_packet, Delivery, DispatchState};
use super::link::PacketRoute;
use super::notifier::outbound::{next_outbound, Outbound};
use super::notifier::signals::{
    self, enqueue_command, enqueue_response, CommandOutChannel, FrameSignal, OutboundCommand,
};
use crate::protocol::{
    Command, CommandBody, CommandResponse, ErrorCode, Frame, ResponseBody, SessionNonce, COMMAND_LEN,
};
use vstd::prelude::*;

verus! {

/// The id of an endpoint that has none.
pub const UNASSIGNED_ID: u8 = 255;

/// Where a command came in.
#[derive(Debug, Clone, Copy, PartialEq, Eq, Structural)]
pub enum CommandSource {
    Ble,
    EspNow,
    Local,
}

/// How a command handler finished.
#[derive(Debug, Clone, Copy, PartialEq, Eq)]
pub enum CommandOutcome {
    /// Carried out: acknowledge.
    Done,
    /// Refused: report the reason.
    Refused(ErrorCode),
    /// Answer with this response.
    Respond(CommandResponse),
    /// Say nothing.
    NoReply,
}

/// Failures of an endpoint.
#[derive(Debug, Clone, Copy, PartialEq, Eq, Structural)]
#[non_exhaustive]
pub enum ReceiverError {
    /// The link failed.
    Link,
}

/// Who a device is to the network, and what it wants to hear.
#[derive(Debug, Clone, Copy, PartialEq, Eq)]
pub struct ReceiverRecvConfig {
    /// Role reported in answer to announcements.
    pub role_tag: [u8; 3],
    /// The device's own address.
    pub my_mac: [u8; 6],
    /// The id that the coordinator assigned, `UNASSIGNED_ID` before.
    pub my_id: u8,
    /// Where commands of this link count as coming from.
    pub src: CommandSource,
    /// Whether the device has a handler for frames.
    pub frame_handler: bool,
}

impl ReceiverRecvConfig {
    /// Everything but the id is the same.
    pub open spec fn same_identity(self, next: ReceiverRecvConfig) -> bool {
        &&& next.role_tag == self.role_tag
        &&& next.my_mac == self.my_mac
        &&& next.src == self.src
        &&& next.frame_handler == self.frame_handler
    }
}

/// An endpoint.
pub struct Receiver {
    pub state: DispatchState,
    pub frame_signal: FrameSignal,
    pub command_signal: CommandOutChannel,
    pub config: ReceiverRecvConfig,
}

impl Receiver {
    /// Starts to put an endpoint together.
    pub fn builder() -> (b: ReceiverBuilder)
        ensures
            b.is_blank(),
    {
        ReceiverBuilder::new()
    }

    /// The id that the coordinator assigned, `UNASSIGNED_ID` before.
    pub fn assigned_id(&self) -> (id: u8)
        ensures
            id == self.config.my_id,
    {
        self.config.my_id
    }

    /// Reports something unprompted, under the active key.
    pub fn report(&mut self, body: ResponseBody)
        ensures
            old(self).state.replied(
                CommandResponse { req_seq: 0, key_id: old(self).state.keyring.key(), body },
                final(self).state,
            ),
            final(self).frame_signal@ == old(self).frame_signal@,
            final(self).command_signal@ == old(self).command_signal@,
            final(self).config == old(self).config,
    {
        let resp = CommandResponse { req_seq: 0, key_id: self.state.keyring.active(), body };
        enqueue_response(&mut self.state.response_signal, &mut self.state.drops, resp);
    }

    /// Leaves a frame to be broadcast, in place of one that was not sent yet.
    pub fn send_frame(&mut self, frame: &Frame)
        ensures
            final(self).frame_signal@ == Some(*frame),
            old(self).state.same(final(self).state),
            final(self).command_signal@ == old(self).command_signal@,
            final(self).config == old(self).config,
    {
        self.frame_signal.signal(*frame);
    }

    /// Queues a command for everybody, numbered and signed with the active key.
    /// `encode` turns a command into its bytes.
    pub fn send_command<E>(&mut self, body: CommandBody, encode: E) where
        E: Fn(Command) -> [u8; COMMAND_LEN],

        requires
            old(self).state.keyring.wf(),
            forall|c: Command| encode.requires((c,)),
        ensures
            final(self).state.keyring.wf(),
            final(self).frame_signal@ == old(self).frame_signal@,
            final(self).config == old(self).config,
            final(self).state.replay@ == old(self).state.replay@,
            final(self).state.response_signal@ == old(self).state.response_signal@,
            final(self).state.nonce == old(self).state.nonce,
            final(self).state.drops.responses == old(self).state.drops.responses,
            crate::comm::notifier::command_sent(
                old(self).state.keyring,
                signals::CommandDest::Broadcast,
                body,
                encode,
                old(self).command_signal@,
                old(self).state.drops.commands,
                final(self).state.keyring,
                final(self).command_signal@,
                final(self).state.drops.commands,
            ),
    {
        let key_id = self.state.keyring.active();
        let seq: u32 = self.state.keyring.next_seq();
        let cmd = Command::with_key(seq, key_id, body);
        let bytes = encode(cmd);
        enqueue_command(
            &mut self.command_signal,
            &mut self.state.drops,
            OutboundCommand::broadcast(bytes),
        );
    }

    /// Takes the next thing to send. Endpoints keep no directory, so their frames
    /// are always broadcast.
    pub fn next_to_send(&mut self) -> (out: Option<Outbound>)
        ensures
            crate::comm::notifier::outbound::taken(
                old(self).frame_signal@,
                old(self).state.response_signal@,
                old(self).command_signal@,
                out,
                final(self).frame_signal@,
                final(self).state.response_signal@,
                final(self).command_signal@,
            ),
            out matches Some(Outbound::Frame { dest, .. }) ==> dest == signals::CommandDest::Broadcast,
            final(self).config == old(self).config,
            final(self).state.keyring == old(self).state.keyring,
            final(self).state.replay@ == old(self).state.replay@,
            final(self).state.nonce == old(self).state.nonce,
            final(self).state.drops == old(self).state.drops,
    {
        next_outbound(
            &mut self.frame_signal,
            &mut self.state.response_signal,
            &mut self.command_signal,
            None,
        )
    }

    /// Acts on a received packet and says what is left for the handlers.
    pub fn on_packet<DC, DF, PN>(
        &mut self,
        data: &[u8],
        decode_command: DC,
        decode_frame: DF,
        peek_nonce_hello: PN,
    ) -> (delivery: Delivery) where
        DC: Fn(&[u8]) -> Option<Command>,
        DF: Fn(&[u8]) -> Option<Frame>,
        PN: Fn(&[u8]) -> Option<u32>,

        requires
            decode_command.requires((data,)),
            decode_frame.requires((data,)),
            peek_nonce_hello.requires((data,)),
        ensures
            final(self).frame_signal@ == old(self).frame_signal@,
            final(self).command_signal@ == old(self).command_signal@,
            match crate::comm::link::route_of(data@) {
                PacketRoute::Command => exists|decoded: Option<Command>| #[trigger]
                    decode_command.ensures((data,), decoded)
                        && crate::comm::dispatch::command_frame_dispatched(
                        decoded,
                        old(self).config,
                        old(self).state,
                        final(self).config,
                        final(self).state,
                        delivery,
                    ),
                PacketRoute::Frame => {
                    &&& final(self).config == old(self).config
                    &&& old(self).state.same(final(self).state)
                    &&& !old(self).config.frame_handler ==> delivery == Delivery::Nothing
                    &&& old(self).config.frame_handler ==> exists|decoded: Option<Frame>| #[trigger]
                        decode_frame.ensures((data,), decoded) && delivery
                            == crate::comm::dispatch::frame_delivery(decoded, old(self).config)
                },
                PacketRoute::Response => {
                    &&& final(self).config == old(self).config
                    &&& delivery == Delivery::Nothing
                    &&& final(self).state.keyring == old(self).state.keyring
                    &&& final(self).state.replay@ == old(self).state.replay@
                    &&& final(self).state.response_signal@ == old(self).state.response_signal@
                    &&& final(self).state.drops == old(self).state.drops
                    &&& exists|announced: Option<u32>| #[trigger]
                        peek_nonce_hello.ensures((data,), announced) && final(self).state.nonce.value == (
                        match announced {
                            Some(n) => if old(self).state.nonce.value == n {
                                n
                            } else {
                                SessionNonce::from_seed(n)
                            },
                            None => old(self).state.nonce.value,
                        })
                },
                PacketRoute::Drop => crate::comm::dispatch::ignored(
                    old(self).config,
                    old(self).state,
                    final(self).config,
                    final(self).state,
                    delivery,
                ),
            },
    {
        dispatch_packet(
            data,
            decode_command,
            decode_frame,
            peek_nonce_hello,
            &mut self.config,
            &mut self.state,
        )
    }

    /// Queues the reply to a command that the handler has finished.
    pub fn on_handled(&mut self, cmd: &Command, outcome: CommandOutcome)
        ensures
            match crate::comm::dispatch::reply_to(*cmd, outcome) {
                Some(resp) => old(self).state.replied(resp, final(self).state),
                None => old(self).state.same(final(self).state),
            },
            final(self).frame_signal@ == old(self).frame_signal@,
            final(self).command_signal@ == old(self).command_signal@,
            final(self).config == old(self).config,
    {
        complete_command(cmd, outcome, &mut self.state);
    }
}

} // verus!
