//! Sample clock arithmetic.
//!
//! Timestamps count samples and wrap around, so two of them are compared by their signed
//! distance and never by their numerical order.

use vstd::prelude::*;

verus! {

/// A timestamp in samples. It wraps around at the top of its range.
pub type Clock = usize;

/// A signed distance between two timestamps.
pub type ClockDiff = isize;

/// One audio sample.
pub type Sample = i32;

/// How many different timestamps there are.
pub open spec fn clock_range() -> int {
    usize::MAX + 1
}

/// The distance from `b` to `a` the short way round the wrapping clock: the only number in the
/// range of `ClockDiff` that differs from `a - b` by a whole number of turns.
pub open spec fn clock_distance(a: Clock, b: Clock) -> int {
    if a - b > isize::MAX {
        a - b - clock_range()
    } else if a - b < isize::MIN {
        a - b + clock_range()
    } else {
        a - b
    }
}

/// The signed distance from `b` to `a`.
pub fn wrapped_diff(a: Clock, b: Clock) -> (d: ClockDiff)
    ensures
        d == clock_distance(a, b),
{
    let forward: usize = a.wrapping_sub(b);
    if forward <= isize::MAX as usize {
        forward as isize
    } else {
        -((usize::MAX - forward) as isize) - 1
    }
}

/// Stepping a timestamp forward by `n` puts it at distance `n` from where it was, for every step
/// of less than half a turn.
pub proof fn law_distance_of_step(a: Clock, n: usize)
    requires
        n <= isize::MAX,
    ensures
        clock_distance(a.wrapping_add(n), a) == n,
{
}

/// Stepping back by `n` undoes stepping forward by `n`.
pub proof fn law_steps_cancel(a: Clock, n: usize)
    ensures
        a.wrapping_add(n).wrapping_sub(n) == a,
        a.wrapping_sub(n).wrapping_add(n) == a,
{
}

/// Stepping a timestamp back by `n` puts it at distance `-n` from where it was, for every step of
/// at most half a turn.
pub proof fn law_distance_of_step_back(a: Clock, n: usize)
    requires
        n <= isize::MAX + 1,
    ensures
        clock_distance(a.wrapping_sub(n), a) == -n,
{
}

/// The distance of any two timestamps is at most half a turn, and differs from their numerical
/// difference by whole turns. Stepping by it leads from one to the other.
pub proof fn law_distance_leads_back(a: Clock, b: Clock)
    ensures
        isize::MIN <= clock_distance(a, b) <= isize::MAX,
        (a - b - clock_distance(a, b)) % (usize::MAX + 1) == 0,
        clock_distance(a, b) >= 0 ==> b.wrapping_add(clock_distance(a, b) as usize) == a,
        clock_distance(a, b) < 0 ==> b.wrapping_sub((-clock_distance(a, b)) as usize) == a,
{
    let d = a - b - clock_distance(a, b);
    assert(d == 0 || d == usize::MAX + 1 || d == -(usize::MAX + 1));
    assert(d % (usize::MAX + 1) == 0) by (nonlinear_arith)
        requires
            d == 0 || d == usize::MAX + 1 || d == -(usize::MAX + 1),
    ;
}

} // verus!
