//! The radio network, of which the gamepad is the coordinator.

pub mod link;

use super::Transport;
use crate::comm::keyring::Keyring;
use crate::comm::metrics::DropMetrics;
use crate::comm::notifier::signals::{CommandOutChannel, FrameSignal, OutboundCommand, ResponseChannel};
use crate::comm::notifier::Notifier;
use crate::comm::peer_registry::PeerRegistry;
use crate::comm::receiver::{CommandSource, ReceiverRecvConfig, UNASSIGNED_ID};
use crate::comm::replay::ReplayGuard;
use crate::protocol::{CommandResponse, Frame};
use core::convert::Infallible;
use vstd::prelude::*;

verus! {

/// What the gamepad calls itself: "joy".
pub const ROLE_TAG: [u8; 3] = [0x6A, 0x6F, 0x79];

/// Frames on the radio.
pub struct EspNowTransport {
    pub notifier: Notifier,
}

impl EspNowTransport {
    /// Sends through a coordinator.
    pub fn new(notifier: Notifier) -> (t: EspNowTransport)
        ensures
            t.notifier == notifier,
    {
        EspNowTransport { notifier }
    }
}

impl Transport for EspNowTransport {
    type Error = Infallible;

    /// The frame waits to be sent; everything else is as before.
    open spec fn sends(
        before: EspNowTransport,
        frame: Frame,
        after: EspNowTransport,
        result: Result<(), Infallible>,
    ) -> bool {
        &&& result is Ok
        &&& after.notifier.frame_signal@ == Some(frame)
        &&& before.notifier.state.same(after.notifier.state)
        &&& after.notifier.command_signal@ == before.notifier.command_signal@
        &&& after.notifier.peers == before.notifier.peers
        &&& after.notifier.selector == before.notifier.selector
        &&& after.notifier.handler_config == before.notifier.handler_config
        &&& after.notifier.response_handler == before.notifier.response_handler
    }

    fn send(&mut self, frame: &Frame) -> (result: Result<(), Infallible>) {
        self.notifier.send_frame(frame);
        Ok(())
    }
}

/// The gamepad's coordinator. It also takes commands, but never an id; frames carry
/// the targets that the gamepad's own selector chose.
pub fn init_notifier(own_mac: [u8; 6], keyring: Keyring, peers: PeerRegistry, replay: ReplayGuard) -> (n: Notifier)
    requires
        keyring.wf(),
        peers.wf(),
    ensures
        n.wf(),
        n.state.keyring == keyring,
        n.state.replay == replay,
        n.state.nonce.value == 0,
        n.state.drops == (DropMetrics { commands: 0, responses: 0 }),
        n.peers == peers,
        n.selector is None,
        n.frame_signal@ == None::<Frame>,
        n.command_signal@ == Seq::<OutboundCommand>::empty(),
        n.state.response_signal@ == Seq::<CommandResponse>::empty(),
        n.handler_config == Some(
            ReceiverRecvConfig {
                role_tag: ROLE_TAG,
                my_mac: own_mac,
                my_id: UNASSIGNED_ID,
                src: CommandSource::EspNow,
                frame_handler: false,
            },
        ),
        !n.response_handler,
{
    Notifier::builder().keyring(keyring).peers(peers).replay(replay).frame_signal(
        FrameSignal::new(),
    ).command_signal(CommandOutChannel::new()).response_signal(
        ResponseChannel::new(),
    ).with_command_handler(ROLE_TAG, own_mac, UNASSIGNED_ID, CommandSource::EspNow).build()
}

} // verus!
