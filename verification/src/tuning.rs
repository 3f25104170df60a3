//! Moving a frequency by a signed number of hertz.

use vstd::prelude::*;

verus! {

/// A frequency as a signed 64-bit number; the upper half of the range wraps to negative values.
pub open spec fn as_signed(hz: u64) -> int {
    if hz <= i64::MAX {
        hz as int
    } else {
        hz - 0x1_0000_0000_0000_0000
    }
}

/// Whether `hz` can be moved by `delta` within the signed range.
pub open spec fn can_move(hz: u64, delta: int) -> bool {
    i64::MIN <= as_signed(hz) + delta <= i64::MAX
}

/// `hz` moved by `delta`, never below 1 Hz.
pub open spec fn moved(hz: u64, delta: int) -> u64 {
    if as_signed(hz) + delta < 1 {
        1
    } else {
        (as_signed(hz) + delta) as u64
    }
}

pub fn to_signed(hz: u64) -> (r: i64)
    ensures
        r == as_signed(hz),
{
    if hz <= 0x7fff_ffff_ffff_ffff {
        hz as i64
    } else {
        (hz as i128 - 0x1_0000_0000_0000_0000) as i64
    }
}

/// Moves `hz` by `delta`; 1 Hz is the lowest frequency.
pub fn move_by(hz: u64, delta: i64) -> (r: u64)
    requires
        can_move(hz, delta as int),
    ensures
        r == moved(hz, delta as int),
        r >= 1,
{
    let raw: i64 = to_signed(hz) + delta;
    if raw < 1 {
        1
    } else {
        raw as u64
    }
}

/// Moving up and back down again ends at the starting frequency, and so does the other order
/// where the first move stays above the lowest frequency.
pub proof fn law_move_back(hz: u64, step: int)
    requires
        1 <= hz,
        0 <= step,
        hz + step <= i64::MAX,
    ensures
        moved(moved(hz, step), -step) == hz,
        hz > step ==> moved(moved(hz, -step), step) == hz,
{
}

/// No move ends below 1 Hz, and a move up from the lower half of the range ends above its start.
pub proof fn law_never_below_one(hz: u64, delta: int)
    requires
        can_move(hz, delta),
    ensures
        moved(hz, delta) >= 1,
        delta > 0 && hz <= i64::MAX ==> moved(hz, delta) > hz,
{
}

/// Read as a signed number a frequency keeps its value in the lower half of the range and lies `2^64`
/// below it in the upper half, so that every one fits 64 bits and no two become equal.
pub proof fn law_signed_reading(a: u64, b: u64)
    ensures
        i64::MIN <= as_signed(a) <= i64::MAX,
        a <= i64::MAX ==> as_signed(a) == a,
        a > i64::MAX ==> as_signed(a) == a - 0x1_0000_0000_0000_0000,
        as_signed(a) == as_signed(b) ==> a == b,
{
}

} // verus!
