//! The battery level: how serious it is, and what happens when that changes.

use super::led_effects::{self, signal_led_effect, LedEffectSignal};
use crate::controller::ui::toast::Toast;
use vstd::prelude::*;

verus! {

/// How serious the battery level is.
#[derive(Debug, Clone, Copy, PartialEq, Eq, Structural)]
pub enum BatteryLevel {
    /// From 20 percent up.
    Normal,
    /// From 10 percent up.
    Low,
    /// From 5 percent up.
    Critical,
    /// Below 5 percent.
    Empty,
}

impl BatteryLevel {
    /// Whether the user has to be told.
    pub fn is_alert(self) -> (r: bool)
        ensures
            r == !(self is Normal),
    {
        match self {
            BatteryLevel::Normal => false,
            _ => true,
        }
    }

    /// The level as a byte.
    pub open spec fn byte(self) -> u8 {
        match self {
            BatteryLevel::Normal => 0,
            BatteryLevel::Low => 1,
            BatteryLevel::Critical => 2,
            BatteryLevel::Empty => 3,
        }
    }

    /// The level that a byte stands for.
    pub open spec fn of_byte(byte: u8) -> BatteryLevel {
        if byte == 1 {
            BatteryLevel::Low
        } else if byte == 2 {
            BatteryLevel::Critical
        } else if byte == 3 {
            BatteryLevel::Empty
        } else {
            BatteryLevel::Normal
        }
    }

    /// The level as a byte.
    pub fn as_u8(self) -> (b: u8)
        ensures
            b == self.byte(),
    {
        match self {
            BatteryLevel::Normal => 0,
            BatteryLevel::Low => 1,
            BatteryLevel::Critical => 2,
            BatteryLevel::Empty => 3,
        }
    }

    /// The level that a byte stands for; an unknown byte raises no alarm.
    pub fn from_u8(byte: u8) -> (level: BatteryLevel)
        ensures
            level == BatteryLevel::of_byte(byte),
    {
        match byte {
            1 => BatteryLevel::Low,
            2 => BatteryLevel::Critical,
            3 => BatteryLevel::Empty,
            _ => BatteryLevel::Normal,
        }
    }
}

/// How serious a percentage is.
pub open spec fn classified(percent: u8) -> BatteryLevel {
    if percent < 5 {
        BatteryLevel::Empty
    } else if percent < 10 {
        BatteryLevel::Critical
    } else if percent < 20 {
        BatteryLevel::Low
    } else {
        BatteryLevel::Normal
    }
}

/// How serious a percentage is.
pub fn classify_battery(percent: u8) -> (level: BatteryLevel)
    ensures
        level == classified(percent),
{
    if percent < 5 {
        BatteryLevel::Empty
    } else if percent < 10 {
        BatteryLevel::Critical
    } else if percent < 20 {
        BatteryLevel::Low
    } else {
        BatteryLevel::Normal
    }
}

/// What is shown of the battery: its percentage and how serious that is.
#[derive(Debug, Clone, Copy, PartialEq, Eq, Structural)]
pub struct BatteryStatus {
    pub percent: u8,
    pub level_byte: u8,
}

impl BatteryStatus {
    /// A full battery.
    pub fn new() -> (s: BatteryStatus)
        ensures
            s == (BatteryStatus { percent: 100, level_byte: BatteryLevel::Normal.byte() }),
    {
        BatteryStatus { percent: 100, level_byte: BatteryLevel::Normal.as_u8() }
    }
}

impl Default for BatteryStatus {
    fn default() -> (s: BatteryStatus)
        ensures
            s == (BatteryStatus { percent: 100, level_byte: BatteryLevel::Normal.byte() }),
    {
        BatteryStatus::new()
    }
}

/// How serious the battery level is now.
pub fn battery_level_state(status: &BatteryStatus) -> (level: BatteryLevel)
    ensures
        level == BatteryLevel::of_byte(status.level_byte),
{
    BatteryLevel::from_u8(status.level_byte)
}

/// Records how serious the battery level is; hands it back if that is news.
pub fn update_battery_level_state(status: &mut BatteryStatus, new_level: BatteryLevel) -> (changed: Option<
    BatteryLevel,
>)
    ensures
        *final(status) == (BatteryStatus { level_byte: new_level.byte(), ..*old(status) }),
        changed == (if old(status).level_byte == new_level.byte() {
            None
        } else {
            Some(new_level)
        }),
{
    let old_byte: u8 = status.level_byte;
    status.level_byte = new_level.as_u8();
    if old_byte == status.level_byte {
        None
    } else {
        Some(new_level)
    }
}

/// Records the percentage that is shown.
pub fn set_battery_level_relaxed(status: &mut BatteryStatus, percent: u8)
    ensures
        *final(status) == (BatteryStatus { percent, ..*old(status) }),
{
    status.percent = percent;
}

/// A source of battery percentages.
pub trait BatteryMonitor {
    /// Takes a sample.
    fn sample(&mut self) -> (percent: u8)
        ensures
            percent <= 100,
    ;
}

/// A battery that loses a percent with every sample, and starts over when empty.
#[derive(Debug, Clone, Copy)]
pub struct SimulatedBatteryMonitor {
    level: u8,
}

impl SimulatedBatteryMonitor {
    #[verifier::type_invariant]
    spec fn inv(self) -> bool {
        self.level <= 100
    }

    /// The percentage of the next sample.
    pub closed spec fn next(self) -> int {
        self.level as int
    }

    /// A full battery.
    pub fn new() -> (m: SimulatedBatteryMonitor)
        ensures
            m.next() == 100,
    {
        SimulatedBatteryMonitor { level: 100 }
    }

    /// Takes a sample: the percentage now, one less the next time, and full again
    /// after zero.
    pub fn step(&mut self) -> (percent: u8)
        ensures
            percent == old(self).next(),
            percent <= 100,
            final(self).next() == (if percent == 0 {
                100
            } else {
                percent - 1
            }),
    {
        proof {
            use_type_invariant(&*self);
        }
        let current: u8 = self.level;
        self.level = if current == 0 {
            100
        } else {
            current - 1
        };
        current
    }
}

impl Default for SimulatedBatteryMonitor {
    fn default() -> (m: SimulatedBatteryMonitor)
        ensures
            m.next() == 100,
    {
        SimulatedBatteryMonitor::new()
    }
}

impl BatteryMonitor for SimulatedBatteryMonitor {
    fn sample(&mut self) -> (percent: u8)
        ensures
            percent == old(self).next(),
            final(self).next() == (if percent == 0 {
                100
            } else {
                percent - 1
            }),
    {
        self.step()
    }
}

/// The words of an alert.
pub open spec fn alert_text(level: BatteryLevel) -> Seq<u8> {
    match level {
        BatteryLevel::Normal => seq![0x42u8, 0x41u8, 0x54u8, 0x2Bu8],
        BatteryLevel::Low => seq![0x4Cu8, 0x4Fu8, 0x57u8],
        BatteryLevel::Critical => seq![0x43u8, 0x52u8, 0x49u8, 0x54u8],
        BatteryLevel::Empty => seq![0x44u8, 0x45u8, 0x41u8, 0x44u8],
    }
}

/// The blinking sequence that is left waiting after an alert.
pub open spec fn alert_effect(level: BatteryLevel, before: Option<led_effects::LedEffect>) -> Option<
    led_effects::LedEffect,
> {
    match level {
        BatteryLevel::Normal => before,
        BatteryLevel::Low => Some(led_effects::playable(1, 2, 500)),
        BatteryLevel::Critical => Some(led_effects::playable(1, 4, 300)),
        BatteryLevel::Empty => Some(led_effects::playable(1, 6, 200)),
    }
}

/// Tells the user that the battery level became more or less serious: a short text,
/// and blinking unless all is well again. Returns the text.
pub fn fire_low_battery_alert(level: BatteryLevel, effects: &mut LedEffectSignal) -> (toast: Toast)
    ensures
        toast@ == alert_text(level),
        final(effects)@ == alert_effect(level, old(effects)@),
{
    match level {
        BatteryLevel::Normal => {
            // "BAT+"
            Toast::new(&[0x42u8, 0x41u8, 0x54u8, 0x2Bu8])
        },
        BatteryLevel::Low => {
            signal_led_effect(effects, 1, 2, 500);
            // "LOW"
            Toast::new(&[0x4Cu8, 0x4Fu8, 0x57u8])
        },
        BatteryLevel::Critical => {
            signal_led_effect(effects, 1, 4, 300);
            // "CRIT"
            Toast::new(&[0x43u8, 0x52u8, 0x49u8, 0x54u8])
        },
        BatteryLevel::Empty => {
            signal_led_effect(effects, 0, 6, 200);
            signal_led_effect(effects, 1, 6, 200);
            // "DEAD"
            Toast::new(&[0x44u8, 0x45u8, 0x41u8, 0x44u8])
        },
    }
}

/// Takes a battery sample into the status. An alert goes out only when the level
/// became more or less serious.
pub fn on_battery_sample(status: &mut BatteryStatus, percent: u8, effects: &mut LedEffectSignal) -> (alert: Option<
    Toast,
>)
    ensures
        *final(status) == (BatteryStatus { percent, level_byte: classified(percent).byte() }),
        old(status).level_byte == classified(percent).byte() ==> alert is None && final(effects)@ == old(
            effects,
        )@,
        old(status).level_byte != classified(percent).byte() ==> {
            &&& alert is Some
            &&& alert->0@ == alert_text(classified(percent))
            &&& final(effects)@ == alert_effect(classified(percent), old(effects)@)
        },
{
    set_battery_level_relaxed(status, percent);
    match update_battery_level_state(status, classify_battery(percent)) {
        Some(changed) => Some(fire_low_battery_alert(changed, effects)),
        None => None,
    }
}

// ---- Laws ----

/// A level survives the way through a byte.
pub proof fn lemma_level_byte_round_trip(level: BatteryLevel)
    ensures
        BatteryLevel::of_byte(level.byte()) == level,
{
}

/// Less charge is never less serious.
pub proof fn lemma_less_charge_is_more_serious(a: u8, b: u8)
    requires
        a <= b,
    ensures
        classified(a).byte() >= classified(b).byte(),
{
}

/// How serious a percentage is: nothing from 20 percent up, low from 10, critical from 5,
/// and empty below.
pub proof fn lemma_levels_change_at_twenty_ten_and_five(percent: u8)
    ensures
        percent >= 20 <==> classified(percent) is Normal,
        10 <= percent < 20 <==> classified(percent) is Low,
        5 <= percent < 10 <==> classified(percent) is Critical,
        percent < 5 <==> classified(percent) is Empty,
{
}

/// Two percentages count as the same exactly if none of 20, 10 and 5 lies between them:
/// only a sample that crosses one of these is worth an alert.
pub proof fn lemma_alerts_mark_the_crossings(a: u8, b: u8)
    ensures
        classified(a).byte() == classified(b).byte() <==> ((a >= 20) == (b >= 20) && (a >= 10) == (b >= 10) && (a
            >= 5) == (b >= 5)),
{
}

/// An alert blinks the second light, the longer and faster the less charge is left; when
/// all is well again nothing new blinks.
pub proof fn lemma_alerts_blink_the_second_light(level: BatteryLevel, before: Option<led_effects::LedEffect>)
    ensures
        ({
            let after = alert_effect(level, before);
            &&& level is Normal ==> after == before
            &&& !(level is Normal) ==> after is Some && after->0.led_idx == 1
            &&& level is Low ==> after->0.count == 2 && after->0.period_ms == 500
            &&& level is Critical ==> after->0.count == 4 && after->0.period_ms == 300
            &&& level is Empty ==> after->0.count == 6 && after->0.period_ms == 200
        }),
{
}

/// Each level has its own words, short enough to be shown whole.
pub proof fn lemma_levels_have_their_own_words(a: BatteryLevel, b: BatteryLevel)
    ensures
        1 <= alert_text(a).len() <= 5,
        alert_text(a) == alert_text(b) ==> a == b,
        alert_text(BatteryLevel::Normal) == seq![0x42u8, 0x41u8, 0x54u8, 0x2Bu8],
        alert_text(BatteryLevel::Low) == seq![0x4Cu8, 0x4Fu8, 0x57u8],
        alert_text(BatteryLevel::Critical) == seq![0x43u8, 0x52u8, 0x49u8, 0x54u8],
        alert_text(BatteryLevel::Empty) == seq![0x44u8, 0x45u8, 0x41u8, 0x44u8],
{
    let (n, l, c, e) = (
        alert_text(BatteryLevel::Normal),
        alert_text(BatteryLevel::Low),
        alert_text(BatteryLevel::Critical),
        alert_text(BatteryLevel::Empty),
    );
    assert(n[0] == 0x42 && c[0] == 0x43 && e[0] == 0x44 && l[0] == 0x4C);
}

/// The bytes of the levels.
pub proof fn lemma_levels_have_their_bytes(byte: u8)
    ensures
        BatteryLevel::Normal.byte() == 0,
        BatteryLevel::Low.byte() == 1,
        BatteryLevel::Critical.byte() == 2,
        BatteryLevel::Empty.byte() == 3,
        byte > 3 ==> BatteryLevel::of_byte(byte) is Normal,
{
}

} // verus!
