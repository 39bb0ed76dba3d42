//! Putting a coordinator together.

use super::signals::{CommandOutChannel, FrameSignal, ResponseChannel};
use super::Notifier;
use crate::comm::dispatch::DispatchState;
use crate::comm::keyring::Keyring;
use crate::comm::metrics::DropMetrics;
use crate::comm::peer_registry::PeerRegistry;
use crate::comm::receiver::{CommandSource, ReceiverRecvConfig};
use crate::comm::replay::ReplayGuard;
use crate::comm::selector::Selector;
use crate::protocol::SessionNonce;
use vstd::prelude::*;

verus! {

/// What a coordinator needs to take commands as well: the same as an endpoint.
pub type CommandHandlerConfig = ReceiverRecvConfig;

/// The parts of a coordinator, set one by one.
#[must_use]
pub struct NotifierBuilder {
    pub keyring: Option<Keyring>,
    pub peers: Option<PeerRegistry>,
    pub replay: Option<ReplayGuard>,
    pub selector: Option<Selector>,
    pub frame_signal: Option<FrameSignal>,
    pub command_signal: Option<CommandOutChannel>,
    pub response_signal: Option<ResponseChannel>,
    pub handler_config: Option<CommandHandlerConfig>,
    pub response_handler: bool,
}

impl NotifierBuilder {
    /// Nothing was set.
    pub open spec fn is_blank(self) -> bool {
        self == (NotifierBuilder {
            keyring: None,
            peers: None,
            replay: None,
            selector: None,
            frame_signal: None,
            command_signal: None,
            response_signal: None,
            handler_config: None,
            response_handler: false,
        })
    }

    /// Everything that a coordinator needs was set. The selector and the handlers
    /// are optional.
    pub open spec fn is_complete(self) -> bool {
        &&& self.keyring is Some
        &&& self.peers is Some
        &&& self.replay is Some
        &&& self.frame_signal is Some
        &&& self.command_signal is Some
        &&& self.response_signal is Some
    }

    /// Nothing set yet.
    pub fn new() -> (b: NotifierBuilder)
        ensures
            b.is_blank(),
    {
        NotifierBuilder {
            keyring: None,
            peers: None,
            replay: None,
            selector: None,
            frame_signal: None,
            command_signal: None,
            response_signal: None,
            handler_config: None,
            response_handler: false,
        }
    }

    /// Sets the keys.
    pub fn keyring(self, keyring: Keyring) -> (b: NotifierBuilder)
        ensures
            b == (NotifierBuilder { keyring: Some(keyring), ..self }),
    {
        let mut b = self;
        b.keyring = Some(keyring);
        b
    }

    /// Sets the directory.
    pub fn peers(self, peers: PeerRegistry) -> (b: NotifierBuilder)
        ensures
            b == (NotifierBuilder { peers: Some(peers), ..self }),
    {
        let mut b = self;
        b.peers = Some(peers);
        b
    }

    /// Sets the replay windows.
    pub fn replay(self, replay: ReplayGuard) -> (b: NotifierBuilder)
        ensures
            b == (NotifierBuilder { replay: Some(replay), ..self }),
    {
        let mut b = self;
        b.replay = Some(replay);
        b
    }

    /// Sets the selector.
    pub fn selector(self, selector: Selector) -> (b: NotifierBuilder)
        ensures
            b == (NotifierBuilder { selector: Some(selector), ..self }),
    {
        let mut b = self;
        b.selector = Some(selector);
        b
    }

    /// Sets the slot for frames.
    pub fn frame_signal(self, sig: FrameSignal) -> (b: NotifierBuilder)
        ensures
            b == (NotifierBuilder { frame_signal: Some(sig), ..self }),
    {
        let mut b = self;
        b.frame_signal = Some(sig);
        b
    }

    /// Sets the queue of commands.
    pub fn command_signal(self, sig: CommandOutChannel) -> (b: NotifierBuilder)
        ensures
            b == (NotifierBuilder { command_signal: Some(sig), ..self }),
    {
        let mut b = self;
        b.command_signal = Some(sig);
        b
    }

    /// Sets the queue of responses.
    pub fn response_signal(self, sig: ResponseChannel) -> (b: NotifierBuilder)
        ensures
            b == (NotifierBuilder { response_signal: Some(sig), ..self }),
    {
        let mut b = self;
        b.response_signal = Some(sig);
        b
    }

    /// Lets the coordinator take commands as well.
    pub fn with_command_handler(
        self,
        role_tag: [u8; 3],
        my_mac: [u8; 6],
        my_id: u8,
        src: CommandSource,
    ) -> (b: NotifierBuilder)
        ensures
            b == (NotifierBuilder {
                handler_config: Some(
                    ReceiverRecvConfig { role_tag, my_mac, my_id, src, frame_handler: false },
                ),
                ..self
            }),
    {
        let mut b = self;
        b.handler_config = Some(
            ReceiverRecvConfig { role_tag, my_mac, my_id, src, frame_handler: false },
        );
        b
    }

    /// Lets a coordinator that takes commands hear frames as well.
    pub fn with_frame_handler(self) -> (b: NotifierBuilder)
        requires
            self.handler_config is Some,
        ensures
            b == (NotifierBuilder {
                handler_config: Some(
                    ReceiverRecvConfig { frame_handler: true, ..self.handler_config->0 },
                ),
                ..self
            }),
    {
        let mut b = self;
        let mut cfg = b.handler_config.unwrap();
        cfg.frame_handler = true;
        b.handler_config = Some(cfg);
        b
    }

    /// Lets the coordinator hear responses other than reports.
    pub fn with_response_handler(self) -> (b: NotifierBuilder)
        ensures
            b == (NotifierBuilder { response_handler: true, ..self }),
    {
        let mut b = self;
        b.response_handler = true;
        b
    }

    /// Puts the coordinator together.
    pub fn build(self) -> (n: Notifier)
        requires
            self.is_complete(),
        ensures
            n.state.keyring == self.keyring->0,
            n.state.replay == self.replay->0,
            n.state.response_signal == self.response_signal->0,
            n.state.nonce.value == 0,
            n.state.drops == (DropMetrics { commands: 0, responses: 0 }),
            n.peers == self.peers->0,
            n.selector == self.selector,
            n.frame_signal == self.frame_signal->0,
            n.command_signal == self.command_signal->0,
            n.handler_config == self.handler_config,
            n.response_handler == self.response_handler,
    {
        Notifier {
            state: DispatchState {
                keyring: self.keyring.unwrap(),
                replay: self.replay.unwrap(),
                response_signal: self.response_signal.unwrap(),
                nonce: SessionNonce::new(),
                drops: DropMetrics::new(),
            },
            peers: self.peers.unwrap(),
            selector: self.selector,
            frame_signal: self.frame_signal.unwrap(),
            command_signal: self.command_signal.unwrap(),
            handler_config: self.handler_config,
            response_handler: self.response_handler,
        }
    }
}

impl Default for NotifierBuilder {
    fn default() -> (b: NotifierBuilder)
        ensures
            b.is_blank(),
    {
        NotifierBuilder::new()
    }
}

} // verus!
