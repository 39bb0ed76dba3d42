//! The gamepad: inputs, feedback, the target selector, commands from hosts, and
//! what goes on the air.

pub mod config;
pub mod hal;
pub mod input;
pub mod main_loop;
pub mod metrics;
pub mod relay;
pub mod transport;
pub mod ui;
