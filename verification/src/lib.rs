//! Wireless game controller: protocol values, the star network between one
//! coordinator and up to 32 endpoints, the gamepad firmware's logic, the LCD
//! endpoint and the browser dashboard.
//!
//! Every rule and decision is stated here as a contract and proved. Radios,
//! pins, screens and browsers are driven by the programs around this library.

pub mod bits;
pub mod c6;
pub mod comm;
pub mod controller;
pub mod dashboard;
pub mod demo;
pub mod protocol;
pub mod text;
pub mod time;
