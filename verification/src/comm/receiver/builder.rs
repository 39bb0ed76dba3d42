//! Putting an endpoint together.

use super::{CommandSource, Receiver, ReceiverRecvConfig};
use crate::comm::dispatch::DispatchState;
use crate::comm::keyring::Keyring;
use crate::comm::metrics::DropMetrics;
use crate::comm::notifier::signals::{CommandOutChannel, FrameSignal, ResponseChannel};
use crate::comm::replay::ReplayGuard;
use crate::protocol::SessionNonce;
use vstd::prelude::*;

verus! {

/// The parts of an endpoint, set one by one.
#[must_use]
pub struct ReceiverBuilder {
    pub keyring: Option<Keyring>,
    pub replay: Option<ReplayGuard>,
    pub response_signal: Option<ResponseChannel>,
    pub frame_signal: Option<FrameSignal>,
    pub command_signal: Option<CommandOutChannel>,
    pub role_tag: [u8; 3],
    pub my_mac: [u8; 6],
    pub my_id: Option<u8>,
    pub command_handler: bool,
    pub frame_handler: bool,
}

impl ReceiverBuilder {
    /// Nothing was set.
    pub open spec fn is_blank(self) -> bool {
        &&& self.keyring is None
        &&& self.replay is None
        &&& self.response_signal is None
        &&& self.frame_signal is None
        &&& self.command_signal is None
        &&& self.role_tag@ == seq![0u8, 0u8, 0u8]
        &&& self.my_mac@ == seq![0u8, 0u8, 0u8, 0u8, 0u8, 0u8]
        &&& self.my_id is None
        &&& !self.command_handler
        &&& !self.frame_handler
    }

    /// Everything that an endpoint needs was set.
    pub open spec fn is_complete(self) -> bool {
        &&& self.keyring is Some
        &&& self.replay is Some
        &&& self.response_signal is Some
        &&& self.frame_signal is Some
        &&& self.command_signal is Some
        &&& self.my_id is Some
        &&& self.command_handler
    }

    /// Nothing set yet.
    pub fn new() -> (b: ReceiverBuilder)
        ensures
            b.is_blank(),
    {
        let b = ReceiverBuilder {
            keyring: None,
            replay: None,
            response_signal: None,
            frame_signal: None,
            command_signal: None,
            role_tag: [0u8, 0u8, 0u8],
            my_mac: [0u8, 0u8, 0u8, 0u8, 0u8, 0u8],
            my_id: None,
            command_handler: false,
            frame_handler: false,
        };
        assert(b.role_tag@ =~= seq![0u8, 0u8, 0u8]);
        assert(b.my_mac@ =~= seq![0u8, 0u8, 0u8, 0u8, 0u8, 0u8]);
        b
    }

    /// Sets the keys.
    pub fn keyring(self, keyring: Keyring) -> (b: ReceiverBuilder)
        ensures
            b == (ReceiverBuilder { keyring: Some(keyring), ..self }),
    {
        let mut b = self;
        b.keyring = Some(keyring);
        b
    }

    /// Sets the replay windows.
    pub fn replay(self, replay: ReplayGuard) -> (b: ReceiverBuilder)
        ensures
            b == (ReceiverBuilder { replay: Some(replay), ..self }),
    {
        let mut b = self;
        b.replay = Some(replay);
        b
    }

    /// Sets the queue of responses.
    pub fn response_signal(self, sig: ResponseChannel) -> (b: ReceiverBuilder)
        ensures
            b == (ReceiverBuilder { response_signal: Some(sig), ..self }),
    {
        let mut b = self;
        b.response_signal = Some(sig);
        b
    }

    /// Sets the slot for frames.
    pub fn frame_signal(self, sig: FrameSignal) -> (b: ReceiverBuilder)
        ensures
            b == (ReceiverBuilder { frame_signal: Some(sig), ..self }),
    {
        let mut b = self;
        b.frame_signal = Some(sig);
        b
    }

    /// Sets the queue of commands.
    pub fn command_signal(self, sig: CommandOutChannel) -> (b: ReceiverBuilder)
        ensures
            b == (ReceiverBuilder { command_signal: Some(sig), ..self }),
    {
        let mut b = self;
        b.command_signal = Some(sig);
        b
    }

    /// Sets the role reported in answer to announcements.
    pub fn role_tag(self, tag: [u8; 3]) -> (b: ReceiverBuilder)
        ensures
            b == (ReceiverBuilder { role_tag: tag, ..self }),
    {
        let mut b = self;
        b.role_tag = tag;
        b
    }

    /// Sets the device's own address.
    pub fn mac(self, mac: [u8; 6]) -> (b: ReceiverBuilder)
        ensures
            b == (ReceiverBuilder { my_mac: mac, ..self }),
    {
        let mut b = self;
        b.my_mac = mac;
        b
    }

    /// Sets the id to start with: one kept from an earlier session, or
    /// `UNASSIGNED_ID`.
    pub fn my_id(self, id: u8) -> (b: ReceiverBuilder)
        ensures
            b == (ReceiverBuilder { my_id: Some(id), ..self }),
    {
        let mut b = self;
        b.my_id = Some(id);
        b
    }

    /// Declares that the device has a handler for commands.
    pub fn command_handler(self) -> (b: ReceiverBuilder)
        ensures
            b == (ReceiverBuilder { command_handler: true, ..self }),
    {
        let mut b = self;
        b.command_handler = true;
        b
    }

    /// Declares that the device has a handler for frames.
    pub fn frame_handler(self) -> (b: ReceiverBuilder)
        ensures
            b == (ReceiverBuilder { frame_handler: true, ..self }),
    {
        let mut b = self;
        b.frame_handler = true;
        b
    }

    /// Puts the endpoint together.
    pub fn build(self) -> (r: Receiver)
        requires
            self.is_complete(),
        ensures
            r.state.keyring == self.keyring->0,
            r.state.replay == self.replay->0,
            r.state.response_signal == self.response_signal->0,
            r.state.nonce.value == 0,
            r.state.drops == (DropMetrics { commands: 0, responses: 0 }),
            r.frame_signal == self.frame_signal->0,
            r.command_signal == self.command_signal->0,
            r.config == (ReceiverRecvConfig {
                role_tag: self.role_tag,
                my_mac: self.my_mac,
                my_id: self.my_id->0,
                src: CommandSource::EspNow,
                frame_handler: self.frame_handler,
            }),
    {
        Receiver {
            state: DispatchState {
                keyring: self.keyring.unwrap(),
                replay: self.replay.unwrap(),
                response_signal: self.response_signal.unwrap(),
                nonce: SessionNonce::new(),
                drops: DropMetrics::new(),
            },
            frame_signal: self.frame_signal.unwrap(),
            command_signal: self.command_signal.unwrap(),
            config: ReceiverRecvConfig {
                role_tag: self.role_tag,
                my_mac: self.my_mac,
                my_id: self.my_id.unwrap(),
                src: CommandSource::EspNow,
                frame_handler: self.frame_handler,
            },
        }
    }
}

impl Default for ReceiverBuilder {
    fn default() -> (b: ReceiverBuilder)
        ensures
            b.is_blank(),
    {
        ReceiverBuilder::new()
    }
}

} // verus!
