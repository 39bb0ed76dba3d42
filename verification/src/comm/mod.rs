//! The star network: one coordinator (`Notifier`) and up to 32 endpoints
//! (`Receiver`) that exchange frames, commands and responses over one link.

pub mod dispatch;
pub mod keyring;
pub mod link;
pub mod loopback;
pub mod metrics;
pub mod notifier;
pub mod peer_registry;
pub mod receiver;
pub mod replay;
pub mod selector;
