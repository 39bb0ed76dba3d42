//! The gamepad's parts. None of them knows what it is used for.

pub mod analog;
pub mod battery;
pub mod button;
pub mod joystick;
pub mod led;
pub mod led_effects;
pub mod post;

pub use analog::AnalogInput;
pub use button::{Button, ButtonState};
pub use joystick::{Joystick, JoystickReading};
pub use led::Led;
