//! Knobs and stick axes: readings of the converter, averaged and scaled.

use crate::controller::config::{
    ADC_FILTER_WINDOW, ADC_MAX, ADC_MID, AXIS_RANGE, JOYSTICK_CALIBRATION_MAX_OFFSET,
    JOYSTICK_CALIBRATION_SAMPLES,
};
use vstd::prelude::*;

verus! {

/// What a conversion reads: one that failed counts as the middle.
pub open spec fn reading(conversion: Option<u16>) -> u16 {
    match conversion {
        Some(v) => v,
        None => ADC_MID,
    }
}

/// What a series of conversions reads.
pub open spec fn readings(conversions: Seq<Option<u16>>) -> Seq<u16> {
    conversions.map_values(|c: Option<u16>| reading(c))
}

/// The sum of readings.
pub open spec fn total(readings: Seq<u16>) -> nat
    decreases readings.len(),
{
    if readings.len() == 0 {
        0
    } else {
        total(readings.drop_last()) + readings.last() as nat
    }
}

/// The last readings, oldest first, after one more: at most `ADC_FILTER_WINDOW`
/// are kept.
pub open spec fn remembered(recent: Seq<u16>, reading: u16) -> Seq<u16> {
    if recent.len() < ADC_FILTER_WINDOW {
        recent.push(reading)
    } else {
        recent.subrange(1, recent.len() as int).push(reading)
    }
}

/// The average of readings, rounded down.
pub open spec fn average(recent: Seq<u16>) -> int {
    total(recent) as int / recent.len() as int
}

/// The readings kept after a series of readings.
pub open spec fn after_all(recent: Seq<u16>, readings: Seq<u16>) -> Seq<u16>
    decreases readings.len(),
{
    if readings.len() == 0 {
        recent
    } else {
        remembered(after_all(recent, readings.drop_last()), readings.last())
    }
}

/// The sum of the averages that a series of readings gives one after another.
pub open spec fn averages(recent: Seq<u16>, readings: Seq<u16>) -> int
    decreases readings.len(),
{
    if readings.len() == 0 {
        0
    } else {
        averages(recent, readings.drop_last()) + average(after_all(recent, readings))
    }
}

/// A reading scaled to the range from zero to full scale.
pub open spec fn normalized(raw: int) -> int {
    let scaled = raw * AXIS_RANGE / ADC_MAX as int;
    if scaled > AXIS_RANGE {
        AXIS_RANGE as int
    } else {
        scaled
    }
}

/// How far a reading can lie from the centre on the side with less room, without
/// the dead zone.
pub open spec fn reach(zero: int, deadzone: int) -> int {
    let usable = if zero < ADC_MAX - zero {
        zero
    } else {
        ADC_MAX - zero
    };
    if usable - deadzone < 1 {
        1
    } else {
        usable - deadzone
    }
}

/// A deflection beyond the dead zone, scaled so that full scale is reached on both
/// sides.
pub open spec fn deflection(size: int, zero: int, deadzone: int) -> int {
    let scaled = (size - deadzone) * AXIS_RANGE / reach(zero, deadzone);
    if scaled > AXIS_RANGE {
        AXIS_RANGE as int
    } else {
        scaled
    }
}

/// A reading as a deflection from the centre, zero within the dead zone.
pub open spec fn centered(raw: int, zero: int, deadzone: int) -> int {
    let delta = raw - zero;
    if -deadzone <= delta <= deadzone {
        0
    } else if delta > 0 {
        deflection(delta, zero, deadzone)
    } else {
        -deflection(-delta, zero, deadzone)
    }
}

/// The centre that a calibration settles on: the measured one, or the middle if the
/// stick was not at rest.
pub open spec fn settled(mean: int) -> int {
    if -JOYSTICK_CALIBRATION_MAX_OFFSET <= mean - ADC_MID <= JOYSTICK_CALIBRATION_MAX_OFFSET {
        mean
    } else {
        ADC_MID as int
    }
}

/// An analog input.
#[derive(Debug, Clone, Copy)]
pub struct AnalogInput {
    filter_buf: [u16; ADC_FILTER_WINDOW],
    filter_idx: usize,
    filter_filled: bool,
    deadzone: u16,
    zero_offset: u16,
}

impl AnalogInput {
    /// The ring buffer's index is within the buffer.
    pub closed spec fn wf(self) -> bool {
        self.filter_idx < ADC_FILTER_WINDOW
    }

    /// The readings that are averaged, oldest first.
    pub closed spec fn recent(self) -> Seq<u16> {
        if self.filter_filled {
            self.filter_buf@.subrange(self.filter_idx as int, ADC_FILTER_WINDOW as int)
                + self.filter_buf@.subrange(0, self.filter_idx as int)
        } else {
            self.filter_buf@.subrange(0, self.filter_idx as int)
        }
    }

    /// Readings this close to the centre count as centred.
    pub closed spec fn dead(self) -> int {
        self.deadzone as int
    }

    /// The centre.
    pub closed spec fn center(self) -> int {
        self.zero_offset as int
    }

    /// An input without readings, centred on the middle.
    pub fn new(deadzone: u16) -> (a: AnalogInput)
        ensures
            a.wf(),
            a.recent() == Seq::<u16>::empty(),
            a.dead() == deadzone,
            a.center() == ADC_MID,
    {
        let a = AnalogInput {
            filter_buf: [ADC_MID, ADC_MID, ADC_MID, ADC_MID],
            filter_idx: 0,
            filter_filled: false,
            deadzone,
            zero_offset: ADC_MID,
        };
        assert(a.recent() =~= Seq::<u16>::empty());
        a
    }

    /// Takes a reading of the converter and gives the average of the last ones.
    pub fn read_raw(&mut self, conversion: Option<u16>) -> (raw: u16)
        requires
            old(self).wf(),
        ensures
            final(self).wf(),
            final(self).recent() == remembered(old(self).recent(), reading(conversion)),
            raw == average(final(self).recent()),
            final(self).dead() == old(self).dead(),
            final(self).center() == old(self).center(),
    {
        let sample: u16 = match conversion {
            Some(v) => v,
            None => ADC_MID,
        };
        let ghost before = self.recent();
        self.filter_buf[self.filter_idx] = sample;
        self.filter_idx = (self.filter_idx + 1) % ADC_FILTER_WINDOW;
        if self.filter_idx == 0 {
            self.filter_filled = true;
        }
        proof {
            assert(self.recent() =~= remembered(before, sample));
        }
        let n: usize = if self.filter_filled {
            ADC_FILTER_WINDOW
        } else if self.filter_idx > 0 {
            self.filter_idx
        } else {
            1
        };
        let mut sum: u32 = 0;
        let mut i: usize = 0;
        while i < n
            invariant
                i <= n <= ADC_FILTER_WINDOW,
                sum == total(self.filter_buf@.subrange(0, i as int)),
                sum <= i * 65535,
            decreases n - i,
        {
            sum = sum + self.filter_buf[i] as u32;
            i = i + 1;
            assert(self.filter_buf@.subrange(0, i as int).drop_last() =~= self.filter_buf@.subrange(
                0,
                i - 1,
            ));
        }
        proof {
            let r = self.recent();
            assert(r.len() == n);
            if self.filter_filled {
                assert(self.filter_buf@.subrange(0, 4) =~= self.filter_buf@);
                lemma_rotation_keeps_total(self.filter_buf@, self.filter_idx as int);
            } else {
                assert(r =~= self.filter_buf@.subrange(0, n as int));
            }
            assert(sum == total(r));
            assert(0 <= sum as int / n as int <= 65535) by (nonlinear_arith)
                requires
                    0 <= sum <= n * 65535,
                    n > 0,
            ;
        }
        (sum / n as u32) as u16
    }

    /// Takes a series of readings of a stick at rest and settles on its centre.
    pub fn calibrate(&mut self, conversions: &[Option<u16>; JOYSTICK_CALIBRATION_SAMPLES]) -> (zero: u16)
        requires
            old(self).wf(),
        ensures
            final(self).wf(),
            final(self).recent() == after_all(old(self).recent(), readings(conversions@)),
            zero == settled(
                averages(old(self).recent(), readings(conversions@)) / JOYSTICK_CALIBRATION_SAMPLES as int,
            ),
            final(self).center() == zero,
            final(self).dead() == old(self).dead(),
    {
        let ghost start = self.recent();
        let ghost all = readings(conversions@);
        let mut sum: u32 = 0;
        let mut i: usize = 0;
        assert(all.subrange(0, 0) =~= Seq::<u16>::empty());
        while i < JOYSTICK_CALIBRATION_SAMPLES
            invariant
                i <= JOYSTICK_CALIBRATION_SAMPLES,
                self.wf(),
                all == readings(conversions@),
                self.recent() == after_all(start, all.subrange(0, i as int)),
                sum == averages(start, all.subrange(0, i as int)),
                sum <= i * 65535,
                self.dead() == old(self).dead(),
            decreases JOYSTICK_CALIBRATION_SAMPLES - i,
        {
            let ghost done = all.subrange(0, i as int);
            let raw: u16 = self.read_raw(conversions[i]);
            sum = sum.saturating_add(raw as u32);
            i = i + 1;
            proof {
                let now = all.subrange(0, i as int);
                assert(now.drop_last() =~= done);
                assert(now.last() == reading(conversions@[i - 1]));
            }
        }
        assert(all.subrange(0, 32) =~= all);
        let mean: u16 = (sum / 32) as u16;
        let deviation: u16 = if mean >= ADC_MID {
            mean - ADC_MID
        } else {
            ADC_MID - mean
        };
        let ghost kept = self.recent();
        self.zero_offset = if deviation > JOYSTICK_CALIBRATION_MAX_OFFSET {
            ADC_MID
        } else {
            mean
        };
        assert(self.recent() =~= kept);
        self.zero_offset
    }

    /// The centre.
    pub fn zero_offset(&self) -> (zero: u16)
        ensures
            zero == self.center(),
    {
        self.zero_offset
    }

    /// Takes a reading of a knob: from zero to full scale.
    pub fn read_normalized(&mut self, conversion: Option<u16>) -> (v: u16)
        requires
            old(self).wf(),
        ensures
            final(self).wf(),
            final(self).recent() == remembered(old(self).recent(), reading(conversion)),
            v == normalized(average(final(self).recent())),
            average(final(self).recent()) <= 4095 ==> v * 4095 <= average(final(self).recent()) * 1000 < (v + 1) * 4095,
            average(final(self).recent()) >= 4095 ==> v == 1000,
            v <= AXIS_RANGE,
            final(self).dead() == old(self).dead(),
            final(self).center() == old(self).center(),
    {
        let raw: u16 = self.read_raw(conversion);
        let scaled: u32 = raw as u32 * 1000 / 4095;
        if scaled > 1000 {
            1000
        } else {
            scaled as u16
        }
    }

    /// Takes a reading of a stick axis: its deflection from the centre.
    pub fn read_centered(&mut self, conversion: Option<u16>) -> (v: i16)
        requires
            old(self).wf(),
        ensures
            final(self).wf(),
            final(self).recent() == remembered(old(self).recent(), reading(conversion)),
            v == centered(average(final(self).recent()), old(self).center(), old(self).dead()),
            ({
                let raw = average(final(self).recent());
                let zero = old(self).center();
                let dead = old(self).dead();
                let r = if zero <= 4095 - zero {
                    zero - dead
                } else {
                    4095 - zero - dead
                };
                &&& -dead <= raw - zero <= dead ==> v == 0
                &&& 0 < raw - zero - dead <= r ==> v >= 0 && v * r <= (raw - zero - dead) * 1000 < (v + 1) * r
                &&& 0 < zero - raw - dead <= r ==> v <= 0 && -v * r <= (zero - raw - dead) * 1000 < (-v + 1) * r
                &&& raw - zero > dead && raw - zero - dead >= r ==> v == 1000
                &&& zero - raw > dead && zero - raw - dead >= r ==> v == -1000
            }),
            -AXIS_RANGE <= v <= AXIS_RANGE,
            final(self).dead() == old(self).dead(),
            final(self).center() == old(self).center(),
    {
        let raw: i32 = self.read_raw(conversion) as i32;
        let zero: i32 = self.zero_offset as i32;
        let dead: i32 = self.deadzone as i32;
        proof {
            lemma_axis_is_linear(raw as int, zero as int, dead as int);
        }
        let delta: i32 = raw - zero;
        let size: i32 = if delta < 0 {
            -delta
        } else {
            delta
        };
        if size <= dead {
            return 0;
        }
        let pos_range: i32 = 4095 - zero;
        let usable: i32 = if zero < pos_range {
            zero
        } else {
            pos_range
        };
        let denom: u32 = if usable - dead < 1 {
            1
        } else {
            (usable - dead) as u32
        };
        let effective: u32 = (size - dead) as u32;
        let product: u32 = effective * 1000;
        let scaled: u32 = product / denom;
        assert(denom == reach(zero as int, dead as int));
        assert(product as int / denom as int == (size - dead) * AXIS_RANGE / reach(zero as int, dead as int));
        proof {
            assert(product as int / denom as int >= 0) by (nonlinear_arith)
                requires
                    product >= 0,
                    denom >= 1,
            ;
        }
        let capped: i16 = if scaled > 1000 {
            1000
        } else {
            scaled as i16
        };
        if delta > 0 {
            capped
        } else {
            -capped
        }
    }
}

/// A ring buffer's contents have the same sum wherever its start lies.
proof fn lemma_rotation_keeps_total(buf: Seq<u16>, at: int)
    requires
        buf.len() == 4,
        0 <= at < 4,
    ensures
        total(buf.subrange(at, 4) + buf.subrange(0, at)) == total(buf),
{
    let r = buf.subrange(at, 4) + buf.subrange(0, at);
    lemma_total_of_four(buf);
    lemma_total_of_four(r);
}

proof fn lemma_total_of_four(s: Seq<u16>)
    requires
        s.len() == 4,
    ensures
        total(s) == s[0] + s[1] + s[2] + s[3],
{
    let s3 = s.drop_last();
    let s2 = s3.drop_last();
    let s1 = s2.drop_last();
    let s0 = s1.drop_last();
    assert(total(s0) == 0);
    assert(total(s1) == s[0]);
    assert(total(s2) == s[0] + s[1]);
    assert(total(s3) == s[0] + s[1] + s[2]);
}

// ---- Laws ----

/// Between the dead zone and the end of the side with less room an axis is linear:
/// the value is the part of the way that the stick was pushed, in thousandths, rounded
/// down. It has the sign of the push, is zero in the dead zone and full scale from
/// that end on.
pub proof fn lemma_axis_is_linear(raw: int, zero: int, deadzone: int)
    requires
        deadzone >= 0,
    ensures
        ({
            let v = centered(raw, zero, deadzone);
            let r = if zero <= 4095 - zero {
                zero - deadzone
            } else {
                4095 - zero - deadzone
            };
            &&& -deadzone <= raw - zero <= deadzone ==> v == 0
            &&& 0 < raw - zero - deadzone <= r ==> v >= 0 && v * r <= (raw - zero - deadzone) * 1000 < (v + 1) * r
            &&& 0 < zero - raw - deadzone <= r ==> v <= 0 && -v * r <= (zero - raw - deadzone) * 1000 < (-v + 1) * r
            &&& raw - zero > deadzone && raw - zero - deadzone >= r ==> v == 1000
            &&& zero - raw > deadzone && zero - raw - deadzone >= r ==> v == -1000
        }),
{
    let r = reach(zero, deadzone);
    let size = if raw < zero {
        zero - raw
    } else {
        raw - zero
    };
    if size > deadzone {
        let d = size - deadzone;
        let q = d * 1000 / r;
        lemma_quotient(d * 1000, r);
        assert(q >= 0 && (d <= r ==> q <= 1000) && (d >= r ==> q >= 1000)) by (nonlinear_arith)
            requires
                d > 0,
                r >= 1,
                q * r <= d * 1000 < (q + 1) * r,
        ;
        if r == 1 {
            assert(q >= 1000) by (nonlinear_arith)
                requires
                    d > 0,
                    r == 1,
                    q * r <= d * 1000 < (q + 1) * r,
            ;
        }
    }
}

/// A quotient rounds down.
proof fn lemma_quotient(a: int, b: int)
    requires
        b >= 1,
    ensures
        (a / b) * b <= a < (a / b + 1) * b,
{
    assert((a / b) * b <= a < (a / b + 1) * b) by (nonlinear_arith)
        requires
            b >= 1,
    ;
}

/// A knob is linear from end to end: the value is the part of the way that it was
/// turned, in thousandths, rounded down, and full scale past the end.
pub proof fn lemma_knob_is_linear(raw: int)
    requires
        raw >= 0,
    ensures
        raw <= 4095 ==> normalized(raw) * 4095 <= raw * 1000 < (normalized(raw) + 1) * 4095,
        raw >= 4095 ==> normalized(raw) == 1000,
{
}

/// What is averaged are the last readings, the newest at the end: a reading joins
/// them, and once four are kept it pushes out the oldest. A conversion that failed
/// counts as the middle.
pub proof fn lemma_window_holds_the_last_four(recent: Seq<u16>, conversion: Option<u16>)
    requires
        recent.len() <= 4,
    ensures
        ({
            let next = remembered(recent, reading(conversion));
            let lost = recent.len() + 1 - next.len();
            &&& next.len() == (if recent.len() < 4 {
                recent.len() + 1
            } else {
                4
            })
            &&& next.last() == (match conversion {
                Some(v) => v,
                None => 2048,
            })
            &&& forall|i: int| 0 <= i < next.len() - 1 ==> #[trigger] next[i] == recent[i + lost]
        }),
{
}

/// The average is the sum of the readings over their number, rounded down.
pub proof fn lemma_average_of_the_window(r: Seq<u16>)
    requires
        1 <= r.len() <= 4,
    ensures
        r.len() == 1 ==> average(r) == r[0],
        r.len() == 2 ==> 2 * average(r) <= r[0] + r[1] <= 2 * average(r) + 1,
        r.len() == 3 ==> 3 * average(r) <= r[0] + r[1] + r[2] <= 3 * average(r) + 2,
        r.len() == 4 ==> 4 * average(r) <= r[0] + r[1] + r[2] + r[3] <= 4 * average(r) + 3,
{
    reveal_with_fuel(total, 5);
    if r.len() == 4 {
        lemma_total_of_four(r);
    }
}

/// A steady input reads as it is: any number of equal readings average to that
/// reading, and a calibration on them measures it.
pub proof fn lemma_steady_input_reads_as_it_is(c: u16, n: nat)
    requires
        n >= 1,
    ensures
        average(after_all(Seq::empty(), Seq::new(n, |i: int| c))) == c,
        averages(Seq::empty(), Seq::new(n, |i: int| c)) == n * c,
        averages(Seq::empty(), Seq::new(n, |i: int| c)) / n as int == c,
    decreases n,
{
    let same = Seq::new(n, |i: int| c);
    let less = Seq::new((n - 1) as nat, |i: int| c);
    assert(same.drop_last() =~= less);
    let kept = after_all(Seq::<u16>::empty(), same);
    lemma_steady_window(c, n);
    let m = kept.len();
    assert(kept =~= Seq::new(m, |i: int| c));
    lemma_steady_total(c, m);
    assert(average(kept) == c) by (nonlinear_arith)
        requires
            average(kept) == (m * c) as int / m as int,
            m >= 1,
    ;
    if n > 1 {
        lemma_steady_input_reads_as_it_is(c, (n - 1) as nat);
    } else {
        assert(less =~= Seq::<u16>::empty());
        assert(averages(Seq::<u16>::empty(), less) == 0);
        assert((n - 1) * c == 0) by (nonlinear_arith)
            requires
                n == 1,
        ;
    }
    assert(averages(Seq::<u16>::empty(), less) == (n - 1) * c);
    assert(averages(Seq::<u16>::empty(), same) == averages(Seq::<u16>::empty(), less) + average(kept));
    assert(n * c == (n - 1) * c + c) by (nonlinear_arith);
    assert((n * c) as int / n as int == c) by (nonlinear_arith)
        requires
            n >= 1,
    ;
}

proof fn lemma_steady_window(c: u16, n: nat)
    ensures
        ({
            let kept = after_all(Seq::empty(), Seq::new(n, |i: int| c));
            &&& kept.len() == (if n < 4 {
                n
            } else {
                4
            })
            &&& forall|i: int| 0 <= i < kept.len() ==> #[trigger] kept[i] == c
        }),
    decreases n,
{
    let same = Seq::new(n, |i: int| c);
    if n > 0 {
        assert(same.drop_last() =~= Seq::new((n - 1) as nat, |i: int| c));
        lemma_steady_window(c, (n - 1) as nat);
    }
}

proof fn lemma_steady_total(c: u16, n: nat)
    ensures
        total(Seq::new(n, |i: int| c)) == n * c,
    decreases n,
{
    let same = Seq::new(n, |i: int| c);
    if n > 0 {
        assert(same.drop_last() =~= Seq::new((n - 1) as nat, |i: int| c));
        lemma_steady_total(c, (n - 1) as nat);
        assert(n * c == (n - 1) * c + c) by (nonlinear_arith);
    } else {
        assert(0 * c == 0);
    }
}

/// A calibration keeps what it measured if that lies near the middle, and takes the
/// middle otherwise.
pub proof fn lemma_calibration_stays_near_the_middle(mean: int)
    ensures
        1548 <= mean <= 2548 ==> settled(mean) == mean,
        mean < 1548 || mean > 2548 ==> settled(mean) == 2048,
{
}

/// A stick at rest reads zero, whatever its centre.
pub proof fn lemma_rest_reads_zero(zero: int, deadzone: int)
    requires
        deadzone >= 0,
    ensures
        centered(zero, zero, deadzone) == 0,
{
}

/// Both ends of a stick reach full scale, wherever its centre lies, as long as the
/// dead zone leaves room on both sides.
pub proof fn lemma_both_ends_reach_full_scale(zero: int, deadzone: int)
    requires
        0 <= deadzone < zero,
        zero + deadzone < ADC_MAX,
    ensures
        centered(ADC_MAX as int, zero, deadzone) == AXIS_RANGE,
        centered(0, zero, deadzone) == -AXIS_RANGE,
{
    let r = reach(zero, deadzone);
    let up = ADC_MAX - zero - deadzone;
    let down = zero - deadzone;
    assert(up * 1000 / r >= 1000) by (nonlinear_arith)
        requires
            up >= r,
            r >= 1,
    ;
    assert(down * 1000 / r >= 1000) by (nonlinear_arith)
        requires
            down >= r,
            r >= 1,
    ;
}

/// Pushing the stick further never reads less.
pub proof fn lemma_deflection_is_monotone(a: int, b: int, zero: int, deadzone: int)
    requires
        a <= b,
        deadzone >= 0,
    ensures
        centered(a, zero, deadzone) <= centered(b, zero, deadzone),
{
    let r = reach(zero, deadzone);
    if a > zero + deadzone {
        let x = a - zero - deadzone;
        let y = b - zero - deadzone;
        assert(x * 1000 / r <= y * 1000 / r) by (nonlinear_arith)
            requires
                x <= y,
                r >= 1,
        ;
    } else if b < zero - deadzone {
        let x = zero - b - deadzone;
        let y = zero - a - deadzone;
        assert(x * 1000 / r <= y * 1000 / r) by (nonlinear_arith)
            requires
                x <= y,
                r >= 1,
        ;
    } else {
        if b > zero + deadzone {
            let y = b - zero - deadzone;
            assert(y * 1000 / r >= 0) by (nonlinear_arith)
                requires
                    y >= 0,
                    r >= 1,
            ;
        }
        if a < zero - deadzone {
            let y = zero - a - deadzone;
            assert(y * 1000 / r >= 0) by (nonlinear_arith)
                requires
                    y >= 0,
                    r >= 1,
            ;
        }
    }
}

} // verus!
