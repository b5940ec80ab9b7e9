//! The waits between consecutive probes.

use rand::Rng;
use vstd::prelude::*;

verus! {

/// Relies on rand's `thread_rng().gen_range(low..=high)`: a uniformly drawn
/// value of the inclusive range; it panics on an empty range.
#[verifier::external_body]
fn random_between(low: u64, high: u64) -> (r: u64)
    requires
        low <= high,
    ensures
        low <= r <= high,
{
    rand::thread_rng().gen_range(low..=high)
}

/// `r` is what the generator may give for `count` waits between
/// `min_interval` and `max_interval` milliseconds.
pub open spec fn intervals_fit(r: Seq<u64>, count: nat, min_interval: u64, max_interval: u64) -> bool {
    &&& (min_interval > max_interval ==> r.len() == 0)
    &&& (min_interval == 0 && max_interval == 0 ==> r.len() == 0)
    &&& (min_interval == max_interval && min_interval != 0 ==> r == Seq::new(
        count,
        |i: int| min_interval,
    ))
    &&& (min_interval < max_interval ==> r.len() == count && forall|i: int|
        0 <= i < r.len() ==> min_interval <= #[trigger] r[i] <= max_interval)
}

/// Produces `count` waits in milliseconds, each one in `[min_interval, max_interval]`:
/// none when the bounds are swapped or both zero, `count` copies of a fixed
/// bound, or `count` independent draws when `min_interval < max_interval`.
pub fn generate_intervals(count: u8, min_interval: u64, max_interval: u64) -> (r: Vec<u64>)
    ensures
        intervals_fit(r@, count as nat, min_interval, max_interval),
{
    if min_interval > max_interval {
        return Vec::new();
    }
    if max_interval == 0 && min_interval == 0 {
        return Vec::new();
    }
    let mut intervals: Vec<u64> = Vec::new();
    if max_interval == min_interval {
        let mut i: u8 = 0;
        while i < count
            invariant
                i <= count,
                intervals@ =~= Seq::new(i as nat, |j: int| min_interval),
            decreases count - i,
        {
            intervals.push(min_interval);
            i = i + 1;
        }
        return intervals;
    }
    let mut i: u8 = 0;
    while i < count
        invariant
            i <= count,
            min_interval < max_interval,
            intervals@.len() == i,
            forall|j: int| 0 <= j < i ==> min_interval <= #[trigger] intervals@[j] <= max_interval,
        decreases count - i,
    {
        let interval = random_between(min_interval, max_interval);
        intervals.push(interval);
        i = i + 1;
    }
    intervals
}

} // verus!
