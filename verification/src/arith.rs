use vstd::prelude::*;

verus! {

/// `x` clamped into the range of an `i64`: what a saturating operation
/// produces from the exact result.
pub open spec fn clamp_i64(x: int) -> int {
    if x > i64::MAX {
        i64::MAX as int
    } else if x < i64::MIN {
        i64::MIN as int
    } else {
        x
    }
}

/// The larger of two integers.
pub open spec fn max_int(a: int, b: int) -> int {
    if a >= b {
        a
    } else {
        b
    }
}

/// Adds without overflowing, sticking at the bounds of `i64`.
pub fn sat_add(a: i64, b: i64) -> (r: i64)
    ensures
        r == clamp_i64(a + b),
{
    if b > 0 && a > i64::MAX - b {
        i64::MAX
    } else if b < 0 && a < i64::MIN - b {
        i64::MIN
    } else {
        a + b
    }
}

/// Subtracts without overflowing, sticking at the bounds of `i64`.
pub fn sat_sub(a: i64, b: i64) -> (r: i64)
    ensures
        r == clamp_i64(a - b),
{
    if b < 0 && a > i64::MAX + b {
        i64::MAX
    } else if b > 0 && a < i64::MIN + b {
        i64::MIN
    } else {
        a - b
    }
}

/// Multiplies by one hundred without overflowing, sticking at the bounds of
/// `i64`: what turns a count of 100 ns ticks into nanoseconds.
pub fn sat_mul_100(a: i64) -> (r: i64)
    ensures
        r == clamp_i64(a * 100),
{
    if a > 92_233_720_368_547_758 {
        i64::MAX
    } else if a < -92_233_720_368_547_758 {
        i64::MIN
    } else {
        a * 100
    }
}

/// The nanoseconds from `earlier` to `later` on the monotonic clock as a
/// signed count: zero when `later` is not after `earlier`, and no more than
/// `i64::MAX`.
pub open spec fn elapsed_i64(earlier: u64, later: u64) -> int {
    if later <= earlier {
        0
    } else if later - earlier > i64::MAX {
        i64::MAX as int
    } else {
        later - earlier
    }
}

/// The nanoseconds from `earlier` to `later`, as the writers measure them.
pub fn elapsed_ns(earlier: u64, later: u64) -> (r: i64)
    ensures
        r == elapsed_i64(earlier, later),
{
    let span = later.saturating_sub(earlier);
    if span > i64::MAX as u64 {
        i64::MAX
    } else {
        span as i64
    }
}

} // verus!
