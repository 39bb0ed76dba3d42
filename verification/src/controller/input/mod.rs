//! From the parts to one sample.

pub mod sampler;
pub mod sensitivity;

pub use sampler::{update_button_led_state, InputSampler, RawInputs, SampleOutput};
pub use sensitivity::apply_sensitivity;
