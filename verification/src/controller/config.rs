//! The gamepad's fixed numbers.

use vstd::prelude::*;

verus! {

// ---- Pins ----

pub const JOYSTICK_X: u8 = 32;

pub const JOYSTICK_Y: u8 = 33;

pub const JOYSTICK_BTN: u8 = 12;

pub const BUTTON_1: u8 = 27;

pub const BUTTON_2: u8 = 13;

pub const BUTTON_3: u8 = 25;

pub const BUTTON_4: u8 = 23;

pub const COLOR_LED: u8 = 15;

pub const KNOB_1: u8 = 36;

pub const KNOB_2: u8 = 39;

pub const VBAT_ADC: u8 = 34;

pub const LED_1: u8 = 5;

pub const LED_2: u8 = 18;

pub const I2C_SDA: u8 = 21;

pub const I2C_SCL: u8 = 22;

// ---- Analog inputs ----

/// Largest reading of the converter.
pub const ADC_MAX: u16 = 4095;

/// Reading of a centred stick.
pub const ADC_MID: u16 = 2048;

/// Readings this close to the centre count as centred.
pub const JOYSTICK_DEADZONE: u16 = 200;

/// Full scale of stick and knobs.
pub const AXIS_RANGE: i16 = 1000;

/// How many readings are averaged.
pub const ADC_FILTER_WINDOW: usize = 4;

/// How many readings a calibration takes.
pub const JOYSTICK_CALIBRATION_SAMPLES: usize = 32;

/// How far from the middle a calibrated centre may lie.
pub const JOYSTICK_CALIBRATION_MAX_OFFSET: u16 = 500;

// ---- Timing ----

/// How long a level must hold to count.
pub const DEBOUNCE_MS: u64 = 20;

/// Milliseconds between two samples.
pub const INPUT_SCAN_INTERVAL_MS: u64 = 10;

/// Milliseconds between two frames.
pub const TRANSMIT_INTERVAL_MS: u64 = 33;

// ---- Display ----

pub const OLED_ADDR: u8 = 0x3C;

pub const OLED_WIDTH: u16 = 128;

pub const OLED_HEIGHT: u16 = 64;

pub const I2C_FREQ_HZ: u32 = 400_000;

/// Milliseconds between two screens.
pub const REFRESH_INTERVAL_MS: u64 = 50;

/// Width of a character.
pub const FONT_W: i32 = 6;

/// Height of a character.
pub const FONT_H: i32 = 10;

/// Height of a line.
pub const LINE_H: i32 = 10;

/// Characters in a line.
pub const LINE_CHARS: usize = 21;

// ---- Battery ----

/// Milliseconds between two battery readings.
pub const SAMPLE_INTERVAL_MS: u64 = 5_000;

/// How many battery readings are averaged.
pub const FILTER_WINDOW: usize = 8;

/// Whether the battery level is simulated.
pub const SIMULATE: bool = true;

// ---- Flash ----

/// Whether settings are kept in flash.
pub const USE_NVS_STORAGE: bool = false;

pub const NVS_PARTITION_OFFSET: u32 = 0x9000;

pub const SLOT_SIZE: u32 = 4096;

pub const SLOT_A_OFFSET: u32 = NVS_PARTITION_OFFSET;

pub const SLOT_B_OFFSET: u32 = NVS_PARTITION_OFFSET + SLOT_SIZE;

} // verus!
