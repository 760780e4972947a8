//! Saturating arithmetic on token counts.

use vstd::prelude::*;

verus! {

/// The 64-bit integer nearest to a number.
pub open spec fn clamped(value: int) -> int {
    if value > i64::MAX {
        i64::MAX as int
    } else if value < i64::MIN {
        i64::MIN as int
    } else {
        value
    }
}

pub open spec fn sat_sum(a: i64, b: i64) -> i64 {
    clamped(a + b) as i64
}

pub fn sat_add(a: i64, b: i64) -> (out: i64)
    ensures
        out == sat_sum(a, b),
        out == clamped(a + b),
{
    let sum: i128 = a as i128 + b as i128;
    if sum > i64::MAX as i128 {
        i64::MAX
    } else if sum < i64::MIN as i128 {
        i64::MIN
    } else {
        sum as i64
    }
}

pub fn sat_sub(a: i64, b: i64) -> (out: i64)
    ensures
        out == clamped(a - b),
{
    let difference: i128 = a as i128 - b as i128;
    if difference > i64::MAX as i128 {
        i64::MAX
    } else if difference < i64::MIN as i128 {
        i64::MIN
    } else {
        difference as i64
    }
}

/// A count that may not be negative.
pub open spec fn floored(value: i64) -> i64 {
    if value < 0 {
        0
    } else {
        value
    }
}

pub fn floor_at_zero(value: i64) -> (out: i64)
    ensures
        out == floored(value),
{
    if value < 0 {
        0
    } else {
        value
    }
}

/// One more, up to the largest count that a machine word holds.
pub fn count_up(count: usize) -> (out: usize)
    ensures
        out == if count < usize::MAX {
            count + 1
        } else {
            usize::MAX as int
        },
{
    if count < usize::MAX {
        count + 1
    } else {
        count
    }
}

/// The counts summed from zero in their order, within 64 bits.
pub open spec fn count_total(counts: Seq<i64>) -> i64
    decreases counts.len(),
{
    if counts.len() == 0 {
        0
    } else if count_total(counts.drop_last()) + counts.last() > i64::MAX {
        i64::MAX
    } else if count_total(counts.drop_last()) + counts.last() < i64::MIN {
        i64::MIN
    } else {
        (count_total(counts.drop_last()) + counts.last()) as i64
    }
}

} // verus!
