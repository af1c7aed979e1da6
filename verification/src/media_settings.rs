//! The numbers an encoder is configured with and media timestamps are read
//! in: frame durations, keyframe spacing, packed size and rate pairs, and
//! rational timestamps turned into nanoseconds.
use vstd::prelude::*;
use crate::encoding::{bitrate_bps, bitrate_spec};

verus! {

/// 100 ns units in a second.
pub const HUNDRED_NS_PER_SEC: i64 = 10_000_000;

/// How long one frame lasts at `fps` frames a second, in 100 ns units; a rate
/// of zero counts as one frame a second.
pub fn frame_duration_100ns(fps: u32) -> (r: i64)
    ensures
        r == (HUNDRED_NS_PER_SEC as int) / (if fps == 0 {
            1
        } else {
            fps as int
        }),
{
    let rate: i64 = if fps == 0 {
        1
    } else {
        fps as i64
    };
    HUNDRED_NS_PER_SEC / rate
}

/// The most frames between keyframes: half a second of frames, and at least
/// one, so that a fragment never waits long for a keyframe.
pub fn keyframe_spacing(fps: u32) -> (r: u32)
    ensures
        r == (if fps / 2 >= 1 {
            fps / 2
        } else {
            1
        }),
{
    let half = fps / 2;
    if half >= 1 {
        half
    } else {
        1
    }
}

/// Two 32-bit values packed into one 64-bit attribute, `high` in the upper
/// half: how a frame size (width, height) or frame rate (numerator,
/// denominator) is described to the encoder.
pub fn packed_pair(high: u32, low: u32) -> (r: u64)
    ensures
        r == high * 0x1_0000_0000 + low,
{
    let h = high as u64;
    let l = low as u64;
    assert((h << 32u64) | l == h * 0x1_0000_0000 + l) by (bit_vector)
        requires
            h <= 0xffff_ffff,
            l <= 0xffff_ffff,
    ;
    (h << 32u64) | l
}

/// The average bitrate handed to an encoder that takes an unsigned 32-bit
/// value: the bitrate of `bitrate_bps`, which always fits.
pub fn average_bitrate_u32(width: u32, height: u32, fps: u32) -> (r: u32)
    ensures
        r == bitrate_spec(width, height, fps),
{
    let bitrate = bitrate_bps(width, height, fps);
    bitrate as u32
}

/// Integer division rounding toward zero, for a positive divisor.
pub open spec fn div_toward_zero(a: int, b: int) -> int {
    if a >= 0 {
        a / b
    } else {
        -((-a) / b)
    }
}

/// A rational media time `value / scale` seconds in nanoseconds (rounded
/// toward zero), or nothing when the time is not valid, its scale is not
/// positive, or the result does not fit in an `i64`.
pub open spec fn time_to_ns_spec(value: i64, scale: i32, valid: bool) -> Option<i64> {
    if scale <= 0 || !valid {
        None
    } else {
        let ns = div_toward_zero(value * 1_000_000_000, scale as int);
        if i64::MIN <= ns <= i64::MAX {
            Some(ns as i64)
        } else {
            None
        }
    }
}

/// A media time in nanoseconds (see `time_to_ns_spec`).
pub fn time_to_ns(value: i64, scale: i32, valid: bool) -> (r: Option<i64>)
    ensures
        r == time_to_ns_spec(value, scale, valid),
{
    if scale <= 0 || !valid {
        return None;
    }
    let magnitude: u128 = if value >= 0 {
        value as u128
    } else {
        (-(value as i128)) as u128
    };
    assert(magnitude * 1_000_000_000 <= 0x8000_0000_0000_0000 * 1_000_000_000) by (nonlinear_arith)
        requires
            magnitude <= 0x8000_0000_0000_0000,
    ;
    let quotient: u128 = magnitude * 1_000_000_000 / (scale as u128);
    proof {
        if value >= 0 {
            assert(value * 1_000_000_000 == magnitude * 1_000_000_000);
        } else {
            assert(-(value * 1_000_000_000) == magnitude * 1_000_000_000);
        }
    }
    if value >= 0 {
        if quotient > i64::MAX as u128 {
            None
        } else {
            Some(quotient as i64)
        }
    } else {
        if quotient > 0x8000_0000_0000_0000u128 {
            None
        } else if quotient == 0x8000_0000_0000_0000u128 {
            Some(i64::MIN)
        } else {
            Some(-(quotient as i64))
        }
    }
}

/// The length of a finished recording in whole milliseconds: its last
/// frame's timestamp, rounded down; none, or a negative timestamp, reads as
/// zero.
pub fn recorded_duration_ms(last_appended_ns: Option<i64>) -> (r: u64)
    ensures
        r == match last_appended_ns {
            Some(end) => if end >= 0 {
                end / 1_000_000
            } else {
                0
            },
            None => 0,
        },
{
    match last_appended_ns {
        Some(end) => if end >= 0 {
            (end / 1_000_000) as u64
        } else {
            0
        },
        None => 0,
    }
}

} // verus!
