//! The browser dashboard: what it knows of the gamepad, and what it shows.

pub mod bluetooth;
pub mod command_panel;
pub mod event_log;
pub mod gamepad_visual;
pub mod receiver_panel;
pub mod state;
pub mod status_panel;
