//! The gamepad's own screen.

pub mod layout;
pub mod selector;
pub mod toast;

pub use toast::Toast;
