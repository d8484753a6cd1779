use vstd::prelude::*;
use crate::mapping::{get_velocity_scale, scale_of, MidiMap};

verus! {

/// The exact rescaled value before rounding is `num / 127`, where `num` is
/// `min * 127 + input * (max - min)`.
pub open spec fn scale_numerator(input: int, min: int, max: int) -> int {
    min * 127 + input * (max - min)
}

/// `min + input * (max - min) / 127`, rounded to the nearest integer.
///
/// Because 127 is odd the exact value is never halfway between two integers,
/// so half-up and half-to-even rounding agree.
pub open spec fn scaled(input: int, min: int, max: int) -> int {
    (2 * scale_numerator(input, min, max) + 127) / 254
}

/// `x` brought into the byte range `[0, 255]`.
pub open spec fn clamp_byte(x: int) -> int {
    if x < 0 {
        0
    } else if x > 255 {
        255
    } else {
        x
    }
}

/// Maps `input` linearly from the domain `[0, 127]` onto `[min, max]` (a
/// descending range when `max < min`), rounding to the nearest integer.
/// Inputs above 127 extend the line past the range; the result saturates at
/// the ends of the byte range.
pub fn scale_value(input: u8, min: u8, max: u8) -> (r: u8)
    ensures
        r as int == clamp_byte(scaled(input as int, min as int, max as int)),
{
    let span: i32 = max as i32 - min as i32;
    assert(-255 * 255 <= input as i32 * span <= 255 * 255) by (nonlinear_arith)
        requires
            0 <= input <= 255,
            -255 <= span <= 255,
    ;
    let num: i32 = min as i32 * 127 + input as i32 * span;
    let twice: i32 = 2 * num + 127;
    if twice < 0 {
        return 0;
    }
    let rounded: i32 = twice / 254;
    if rounded > 255 {
        255
    } else {
        rounded as u8
    }
}

/// The velocity handed to a rule's command: the raw one when the rule has no
/// scale, else the raw one rescaled (none when there is no raw velocity).
pub open spec fn computed_velocity(velocity: Option<u8>, m: MidiMap) -> Option<u8> {
    match scale_of(m) {
        None => velocity,
        Some(s) => match velocity {
            None => None,
            Some(v) => Some(clamp_byte(scaled(v as int, s.min as int, s.max as int)) as u8),
        },
    }
}

/// Computes the velocity for a rule's command from the event's raw velocity.
pub fn get_computed_velocity(velocity: Option<u8>, mapping: &MidiMap) -> (r: Option<u8>)
    ensures
        r == computed_velocity(velocity, *mapping),
{
    match get_velocity_scale(mapping) {
        None => velocity,
        Some(scale) => match velocity {
            None => None,
            Some(v) => Some(scale_value(v, scale.min, scale.max)),
        },
    }
}

/// Within the MIDI domain `[0, 127]` the rescaled value stays between the
/// ends of the scale, so the saturation never applies there.
pub proof fn lemma_scale_in_range(input: u8, min: u8, max: u8)
    requires
        input <= 127,
    ensures
        0 <= scaled(input as int, min as int, max as int) <= 255,
        clamp_byte(scaled(input as int, min as int, max as int)) == scaled(
            input as int,
            min as int,
            max as int,
        ),
{
    let n = scale_numerator(input as int, min as int, max as int);
    assert(0 <= n <= 255 * 127) by (nonlinear_arith)
        requires
            0 <= input <= 127,
            0 <= min <= 255,
            0 <= max <= 255,
            n == min * 127 + input * (max - min),
    ;
}

/// The rescaled velocity of raw 0 is the bottom of the scale, and that of raw
/// 127 its top, for ascending and descending scales alike.
pub proof fn lemma_scale_endpoints(min: u8, max: u8)
    ensures
        scaled(0, min as int, max as int) == min as int,
        scaled(127, min as int, max as int) == max as int,
        clamp_byte(scaled(0, min as int, max as int)) == min as int,
        clamp_byte(scaled(127, min as int, max as int)) == max as int,
{
    let lo = min as int;
    let hi = max as int;
    assert(2 * scale_numerator(0, lo, hi) + 127 == 254 * lo + 127);
    assert(2 * scale_numerator(127, lo, hi) + 127 == 254 * hi + 127) by (nonlinear_arith);
    assert((254 * lo + 127) / 254 == lo) by (nonlinear_arith);
    assert((254 * hi + 127) / 254 == hi) by (nonlinear_arith);
}

/// On an ascending scale a larger raw velocity never yields a smaller
/// rescaled one.
pub proof fn lemma_scale_monotonic(a: u8, b: u8, min: u8, max: u8)
    requires
        a <= b,
        min <= max,
    ensures
        scaled(a as int, min as int, max as int) <= scaled(b as int, min as int, max as int),
        clamp_byte(scaled(a as int, min as int, max as int)) <= clamp_byte(
            scaled(b as int, min as int, max as int),
        ),
{
    let d = max as int - min as int;
    assert(a as int * d <= b as int * d) by (nonlinear_arith)
        requires
            a <= b,
            d >= 0,
    ;
    vstd::arithmetic::div_mod::lemma_div_is_ordered(
        2 * scale_numerator(a as int, min as int, max as int) + 127,
        2 * scale_numerator(b as int, min as int, max as int) + 127,
        254,
    );
}

} // verus!
