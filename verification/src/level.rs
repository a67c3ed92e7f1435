//! LevelMapper: converts a scalar brightness count into a discrete, bounded
//! level index by integer division and clamping.

use vstd::prelude::*;
use vstd::arithmetic::div_mod::lemma_div_is_ordered;

verus! {

/// The level a brightness count maps to: the count divided by `divisor`,
/// clamped to the valid pin index range `[0, pin_count - 1]`.
pub open spec fn level_spec(count: nat, divisor: nat, pin_count: nat) -> nat
    recommends
        divisor > 0,
        pin_count > 0,
{
    if count / divisor < pin_count {
        count / divisor
    } else {
        (pin_count - 1) as nat
    }
}

/// Maps a brightness count to a discrete pin-activation level: total over all
/// counts, clamping (never wrapping) for large counts.
pub fn level_for(count: usize, divisor: usize, pin_count: usize) -> (level: usize)
    requires
        divisor > 0,
        pin_count > 0,
    ensures
        level == level_spec(count as nat, divisor as nat, pin_count as nat),
{
    let raw = count / divisor;
    if raw < pin_count {
        raw
    } else {
        pin_count - 1
    }
}

/// Every level is a valid pin index: `0 <= level < pin_count`.
pub proof fn lemma_level_in_range(count: nat, divisor: nat, pin_count: nat)
    requires
        divisor > 0,
        pin_count > 0,
    ensures
        level_spec(count, divisor, pin_count) < pin_count,
{
}

/// The level mapping is non-decreasing in the brightness count.
pub proof fn lemma_level_monotone(c1: nat, c2: nat, divisor: nat, pin_count: nat)
    requires
        divisor > 0,
        pin_count > 0,
        c1 <= c2,
    ensures
        level_spec(c1, divisor, pin_count) <= level_spec(c2, divisor, pin_count),
{
    lemma_div_is_ordered(c1 as int, c2 as int, divisor as int);
}

} // verus!
