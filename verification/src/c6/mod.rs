//! The LCD endpoint: shows what the gamepad reports on a 240x240 screen.

pub mod display;
pub mod link;
pub mod peer;
pub mod post;
pub mod radio;
pub mod sdcard;
pub mod self_test;
