//! The speed to duty cycle transform.
use vstd::arithmetic::div_mod::lemma_div_is_ordered;
use vstd::prelude::*;

verus! {

/// At or below this speed only the first LED glows, at its floor level.
pub const MIN_SPEED: u64 = 1;

/// At or above this speed every LED is fully on.
pub const MAX_SPEED: u64 = 10;

/// Level of the first LED at `MIN_SPEED`.
pub const LED1_FLOOR: u32 = 10;

/// Upper bound of every duty cycle, in percent.
pub const FULL_DUTY: u32 = 100;

/// Width of the interpolated speed range, `MAX_SPEED - MIN_SPEED`.
pub open spec fn speed_range() -> int {
    MAX_SPEED - MIN_SPEED
}

/// Largest integer strictly below the positive ratio `num / den`.
///
/// The ramps of the second and third LEDs start at 0.33 and 0.66 of the range.
/// As binary floating point numbers both constants lie just above those
/// decimals, so a ramp whose exact rational value is a whole number truncates
/// to the integer below it (the third LED at speed 7 gives 1, not 2). Where the
/// exact value is not whole, this is the plain floor.
pub open spec fn floor_below(num: int, den: int) -> int {
    (num - 1) / den
}

/// First LED inside the range: `10 + floor(90 * position / range)`.
pub open spec fn led1_ramp(position: int) -> int {
    10 + (90 * position) / speed_range()
}

/// Second LED inside the range: zero up to 0.33 of the range, then
/// `floor((position / range - 0.33) * 150)`, capped at 100.
pub open spec fn led2_ramp(position: int) -> int {
    if 100 * position > 33 * speed_range() {
        let v = floor_below(150 * (100 * position - 33 * speed_range()), 100 * speed_range());
        if v > 100 { 100 } else { v }
    } else {
        0
    }
}

/// Third LED inside the range: zero up to 0.66 of the range, then
/// `floor((position / range - 0.66) * 300)`, capped at 100.
pub open spec fn led3_ramp(position: int) -> int {
    if 100 * position > 66 * speed_range() {
        let v = floor_below(300 * (100 * position - 66 * speed_range()), 100 * speed_range());
        if v > 100 { 100 } else { v }
    } else {
        0
    }
}

/// The duty cycle triple, in percent, for a speed sample.
pub open spec fn duty_cycles(speed: int) -> (int, int, int) {
    if speed <= MIN_SPEED {
        (10, 0, 0)
    } else if speed >= MAX_SPEED {
        (100, 100, 100)
    } else {
        let position = speed - MIN_SPEED;
        (led1_ramp(position), led2_ramp(position), led3_ramp(position))
    }
}

/// Every channel of a triple lies in `[0, 100]`.
pub open spec fn within_duty_bounds(d: (int, int, int)) -> bool {
    &&& 0 <= d.0 <= 100
    &&& 0 <= d.1 <= 100
    &&& 0 <= d.2 <= 100
}

/// Maps a button press speed to the duty cycles of the three LEDs.
pub fn map_speed_to_duty_cycles(speed: u64) -> (r: (u32, u32, u32))
    ensures
        (r.0 as int, r.1 as int, r.2 as int) == duty_cycles(speed as int),
        within_duty_bounds((r.0 as int, r.1 as int, r.2 as int)),
        speed <= MIN_SPEED ==> r == (10u32, 0u32, 0u32),
        speed >= MAX_SPEED ==> r == (100u32, 100u32, 100u32),
{
    if speed <= MIN_SPEED {
        (LED1_FLOOR, 0, 0)
    } else if speed >= MAX_SPEED {
        (FULL_DUTY, FULL_DUTY, FULL_DUTY)
    } else {
        let range: u64 = MAX_SPEED - MIN_SPEED;
        let position: u64 = speed - MIN_SPEED;
        let led1: u64 = 10 + (90 * position) / range;
        let led2: u64 = if 100 * position > 33 * range {
            (150 * (100 * position - 33 * range) - 1) / (100 * range)
        } else {
            0
        };
        let led3: u64 = if 100 * position > 66 * range {
            (300 * (100 * position - 66 * range) - 1) / (100 * range)
        } else {
            0
        };
        let led2: u64 = if led2 > 100 { 100 } else { led2 };
        let led3: u64 = if led3 > 100 { 100 } else { led3 };
        proof {
            assert(1 <= position < 9);
            lemma_ramps_in_bounds(position as int);
        }
        (led1 as u32, led2 as u32, led3 as u32)
    }
}

/// Each ramp stays in `[0, 100]` over the interpolated range.
proof fn lemma_ramps_in_bounds(position: int)
    requires
        0 < position < speed_range(),
    ensures
        10 <= led1_ramp(position) <= 100,
        0 <= led2_ramp(position) <= 100,
        0 <= led3_ramp(position) <= 100,
{
    assert(0 <= (90 * position) / 9 <= 90) by (nonlinear_arith)
        requires 0 < position < 9;
}

/// No LED dims as the speed rises: over the whole `u64` range each channel
/// of the triple is monotone in the speed.
pub proof fn lemma_duty_cycles_monotone(s1: u64, s2: u64)
    requires
        s1 <= s2,
    ensures
        duty_cycles(s1 as int).0 <= duty_cycles(s2 as int).0,
        duty_cycles(s1 as int).1 <= duty_cycles(s2 as int).1,
        duty_cycles(s1 as int).2 <= duty_cycles(s2 as int).2,
{
    let p1 = s1 - MIN_SPEED;
    let p2 = s2 - MIN_SPEED;
    if MIN_SPEED < s1 && s2 < MAX_SPEED {
        lemma_ramps_monotone(p1, p2);
    } else if MIN_SPEED < s1 && s1 < MAX_SPEED {
        lemma_ramps_in_bounds(p1);
    } else if MIN_SPEED < s2 && s2 < MAX_SPEED {
        lemma_ramps_in_bounds(p2);
    }
}

/// Inside the interpolated range the first LED never dims as the speed rises.
pub proof fn lemma_led1_monotone(s1: u64, s2: u64)
    requires
        MIN_SPEED < s1 < s2 < MAX_SPEED,
    ensures
        duty_cycles(s1 as int).0 <= duty_cycles(s2 as int).0,
{
    lemma_duty_cycles_monotone(s1, s2);
}

/// Each ramp is monotone in the position.
proof fn lemma_ramps_monotone(p1: int, p2: int)
    requires
        0 < p1 <= p2 < speed_range(),
    ensures
        led1_ramp(p1) <= led1_ramp(p2),
        led2_ramp(p1) <= led2_ramp(p2),
        led3_ramp(p1) <= led3_ramp(p2),
{
    lemma_div_is_ordered(90 * p1, 90 * p2, 9);
    lemma_div_is_ordered(150 * (100 * p1 - 297) - 1, 150 * (100 * p2 - 297) - 1, 900);
    lemma_div_is_ordered(300 * (100 * p1 - 594) - 1, 300 * (100 * p2 - 594) - 1, 900);
    lemma_ramps_in_bounds(p1);
    lemma_ramps_in_bounds(p2);
}

} // verus!
