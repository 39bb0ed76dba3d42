//! The gamepad's power-on checks. None of them keeps it from starting.

use crate::controller::config::ADC_MAX;
use vstd::prelude::*;

verus! {

/// The display's address on the bus.
pub const OLED_I2C_ADDR: u8 = 0x3C;

/// The results of the checks.
#[derive(Debug, Clone, Copy, PartialEq, Eq, Structural)]
pub struct PostReport {
    pub protocol_ok: bool,
    pub radio_ok: bool,
    pub oled_present: bool,
    pub adc_ok: bool,
}

/// A reading at either end of its range: a floating or shorted pin, or a control
/// pushed all the way.
pub open spec fn at_rail(raw: u16) -> bool {
    raw == 0 || raw >= ADC_MAX
}

/// Whether no reading lies at an end of its range.
pub fn check_adc(channels: &[(&str, u16)]) -> (ok: bool)
    ensures
        ok == forall|i: int| 0 <= i < channels@.len() ==> !at_rail((#[trigger] channels@[i]).1),
{
    let mut all_ok = true;
    let mut i: usize = 0;
    while i < channels.len()
        invariant
            i <= channels@.len(),
            all_ok == forall|k: int| 0 <= k < i ==> !at_rail((#[trigger] channels@[k]).1),
        decreases channels@.len() - i,
    {
        let raw: u16 = channels[i].1;
        if raw == 0 || raw >= ADC_MAX {
            assert(at_rail(channels@[i as int].1));
            all_ok = false;
        }
        i = i + 1;
    }
    all_ok
}

/// A reading lies at an end of its range exactly if it is zero or at least 4095.
pub proof fn lemma_rails_are_the_ends(raw: u16)
    ensures
        at_rail(raw) <==> !(0 < raw < 4095),
{
}

} // verus!
