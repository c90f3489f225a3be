use vstd::prelude::*;

use crate::spending::PROB_ONE;

verus! {

/// Going from duration `prev` to duration `cur` cuts the duration by less
/// than the fraction `min_change` of `prev` (counted in `PROB_ONE` units).
pub open spec fn slow_change(prev: int, cur: int, min_change: int) -> bool {
    (prev - cur) * PROB_ONE < min_change * prev
}

/// Step `k` (from the `k`-th size to the next) is the first slow one.
pub open spec fn first_slow_step(durations: Seq<u64>, min_change: int, k: int) -> bool {
    &&& 0 <= k
    &&& k + 1 < durations.len()
    &&& slow_change(durations[k] as int, durations[k + 1] as int, min_change)
    &&& forall|j: int|
        0 <= j < k ==> !slow_change(
            durations[j] as int,
            #[trigger] durations[j + 1] as int,
            min_change,
        )
}

/// Whether the duration falls from `prev` to `cur` by less than the
/// fraction `min_change` (in `PROB_ONE` units) of `prev`.
pub fn is_slow_change(prev: u64, cur: u64, min_change: u64) -> (r: bool)
    ensures
        r == slow_change(prev as int, cur as int, min_change as int),
{
    assert(min_change * prev <= 0xffff_ffff_ffff_ffff * 0xffff_ffff_ffff_ffff) by (nonlinear_arith)
        requires
            min_change <= 0xffff_ffff_ffff_ffff,
            prev <= 0xffff_ffff_ffff_ffff,
    ;
    let allowed: u128 = min_change as u128 * prev as u128;
    if cur > prev {
        assert((prev - cur) * PROB_ONE < 0) by (nonlinear_arith)
            requires
                cur > prev,
        ;
        assert(0 <= min_change * prev) by (nonlinear_arith);
        true
    } else {
        let cut: u128 = (prev - cur) as u128 * PROB_ONE as u128;
        cut < allowed
    }
}

/// The sample-size range at which further patients stop paying off.
///
/// `durations[k]` is the trial duration with `start + k * delta` patients.
/// The range starts at the size before the first step whose duration cut
/// falls below `min_change` and ends at the size after it, where the slowdown
/// is seen. Without such a step among the durations there is no range yet.
pub fn diminishing_range(start: u64, delta: u64, durations: &Vec<u64>, min_change: u64) -> (r:
    Option<(u64, u64)>)
    requires
        start + durations@.len() * delta <= u64::MAX,
    ensures
        r is Some <==> exists|k: int|
            0 <= k && k + 1 < durations@.len() && slow_change(
                durations@[k] as int,
                #[trigger] durations@[k + 1] as int,
                min_change as int,
            ),
        r matches Some((lo, hi)) ==> exists|k: int|
            first_slow_step(durations@, min_change as int, k) && lo == start + k * delta && hi
                == lo + delta,
        r matches Some((lo, hi)) ==> lo <= hi,
{
    let n = durations.len();
    if n < 2 {
        return None;
    }
    let mut k: usize = 0;
    while k < n - 1
        invariant
            n >= 2,
            n == durations@.len(),
            forall|j: int|
                0 <= j < k && j + 1 < n ==> !slow_change(
                    durations@[j] as int,
                    #[trigger] durations@[j + 1] as int,
                    min_change as int,
                ),
            k <= n,
            start + n * delta <= u64::MAX,
        decreases n - k,
    {
        if is_slow_change(durations[k], durations[k + 1], min_change) {
            assert(first_slow_step(durations@, min_change as int, k as int));
            assert(k * delta + delta <= n * delta) by (nonlinear_arith)
                requires
                    k + 1 < n,
            ;
            let lo: u64 = start + k as u64 * delta;
            return Some((lo, lo + delta));
        }
        k = k + 1;
    }
    None
}

/// The range is never reversed, and the duration changes between its two
/// ends by less than the threshold.
pub proof fn law_range_is_slow(
    start: int,
    delta: int,
    durations: Seq<u64>,
    min_change: int,
    k: int,
)
    requires
        first_slow_step(durations, min_change, k),
        0 <= delta,
    ensures
        start + k * delta <= start + k * delta + delta,
        slow_change(durations[k] as int, durations[k + 1] as int, min_change),
{
}

} // verus!
