//! Small programs that show the protocol at work without any hardware.

pub mod hello;
pub mod host;
pub mod subscriber;
