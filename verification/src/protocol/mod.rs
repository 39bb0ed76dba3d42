//! Values that travel between gamepad, endpoints and hosts.

pub mod auth;
pub mod command;
pub mod frame;
pub mod replay;
pub mod response;

pub use auth::{InvalidKeyId, KeyId, SessionNonce, DEFAULT_KEY_ID, KEY_ID_MAX, KEY_SLOTS};
pub use command::{Command, CommandBody, CommandDecodeError, COMMAND_LEN, COMMAND_MAGIC};
pub use frame::{ButtonBits, Frame, FrameHeader, GamepadState, FRAME_LEN, FRAME_MAGIC};
pub use replay::{AntiReplayWindow, ReplayError, WINDOW_WIDTH};
pub use response::{CommandResponse, ErrorCode, ResponseBody, RESPONSE_LEN, RESPONSE_MAGIC};
