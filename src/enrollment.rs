use vstd::prelude::*;

use crate::error::DesignError;

verus! {

/// The smaller of two integers.
pub open spec fn min_int(a: int, b: int) -> int {
    if a < b {
        a
    } else {
        b
    }
}

/// A schedule is valid when every segment has a rate, the start times are
/// non-negative and strictly increasing, and no rate is negative.
pub open spec fn valid_schedule(times: Seq<i64>, rates: Seq<i64>) -> bool {
    &&& times.len() == rates.len()
    &&& forall|i: int| 0 <= i < times.len() ==> 0 <= #[trigger] times[i]
    &&& forall|i: int| 0 <= i < rates.len() ==> 0 <= #[trigger] rates[i]
    &&& forall|i: int, j: int| 0 <= i < j < times.len() ==> times[i] < times[j]
}

/// Where segment `i`, seen up to time `t`, begins.
pub open spec fn seg_lo(times: Seq<i64>, i: int, t: int) -> int {
    min_int(t, times[i] as int)
}

/// Where segment `i`, seen up to time `t`, ends: the next start time, or `t`
/// itself for the last segment, which runs on without end.
pub open spec fn seg_hi(times: Seq<i64>, i: int, t: int) -> int {
    if i + 1 < times.len() {
        min_int(t, times[i + 1] as int)
    } else {
        t
    }
}

/// Patients enrolled during segment `i` by time `t`.
pub open spec fn enrolled_in(times: Seq<i64>, rates: Seq<i64>, i: int, t: int) -> int {
    rates[i] * (seg_hi(times, i, t) - seg_lo(times, i, t))
}

/// Patients enrolled by time `t` during the first `k` segments.
pub open spec fn enrolled_upto(times: Seq<i64>, rates: Seq<i64>, k: int, t: int) -> int
    decreases k,
{
    if k <= 0 {
        0
    } else {
        enrolled_upto(times, rates, k - 1, t) + enrolled_in(times, rates, k - 1, t)
    }
}

/// Patients enrolled by time `t`: the integral of the step rate function.
pub open spec fn cumulative(times: Seq<i64>, rates: Seq<i64>, t: int) -> int {
    enrolled_upto(times, rates, times.len() as int, t)
}

/// Index of the last of the first `k` segments that has started by time `t`,
/// or -1 when none has.
pub open spec fn last_started(times: Seq<i64>, k: int, t: int) -> int
    decreases k,
{
    if k <= 0 {
        -1
    } else if times[k - 1] <= t {
        k - 1
    } else {
        last_started(times, k - 1, t)
    }
}

/// The enrollment rate in force at time `t` (zero before the first segment).
pub open spec fn rate_at(times: Seq<i64>, rates: Seq<i64>, t: int) -> int {
    let i = last_started(times, times.len() as int, t);
    if i < 0 {
        0
    } else {
        rates[i] as int
    }
}

/// `t` is the first whole time at which at least `n` patients have enrolled.
pub open spec fn first_reached(times: Seq<i64>, rates: Seq<i64>, n: int, t: int) -> bool {
    &&& 0 <= t
    &&& n <= cumulative(times, rates, t)
    &&& (t == 0 || cumulative(times, rates, t - 1) < n)
}

/// A piecewise-constant enrollment schedule: from `times[i]` on, patients
/// enroll at `rates[i]` per time unit, until the next start time.
///
/// Times are whole time units and rates are patient units per time unit; the
/// caller picks both units (a fine unit gives a fine resolution).
pub struct EnrollmentModel {
    times: Vec<i64>,
    rates: Vec<i64>,
}

impl EnrollmentModel {
    /// The segments' start times.
    pub closed spec fn times(&self) -> Seq<i64> {
        self.times@
    }

    /// The segments' rates.
    pub closed spec fn rates(&self) -> Seq<i64> {
        self.rates@
    }

    pub open spec fn wf(&self) -> bool {
        valid_schedule(self.times(), self.rates())
    }

    /// Patients enrolled by time `t`, as a mathematical value.
    pub open spec fn cumulative_spec(&self, t: int) -> int {
        cumulative(self.times(), self.rates(), t)
    }

    /// Builds a model from start times and rates, refusing a malformed one.
    pub fn new(times: Vec<i64>, rates: Vec<i64>) -> (r: Result<EnrollmentModel, DesignError>)
        ensures
            r is Ok <==> valid_schedule(times@, rates@),
            r matches Ok(m) ==> m.times() == times@ && m.rates() == rates@ && m.wf(),
            r matches Err(e) ==> e == DesignError::InvalidEnrollmentModel,
    {
        if times.len() != rates.len() {
            return Err(DesignError::InvalidEnrollmentModel);
        }
        let n = times.len();
        let mut i: usize = 0;
        while i < n
            invariant
                n == times.len(),
                n == rates.len(),
                i <= n,
                forall|j: int| 0 <= j < i ==> 0 <= #[trigger] times@[j],
                forall|j: int| 0 <= j < i ==> 0 <= #[trigger] rates@[j],
                forall|j: int, k: int| 0 <= j < k < i ==> times@[j] < times@[k],
            decreases n - i,
        {
            if times[i] < 0 || rates[i] < 0 {
                return Err(DesignError::InvalidEnrollmentModel);
            }
            if i > 0 && times[i - 1] >= times[i] {
                return Err(DesignError::InvalidEnrollmentModel);
            }
            i = i + 1;
        }
        Ok(EnrollmentModel { times, rates })
    }

    /// Patients enrolled by time `t`.
    pub fn cumulative_patients(&self, t: i64) -> (r: i128)
        requires
            self.wf(),
        ensures
            r == self.cumulative_spec(t as int),
    {
        let n = self.times.len();
        if n == 0 {
            return 0;
        }
        let big: i128 = i64::MAX as i128;
        let ghost start: int = min_int(t as int, self.times@[0] as int);
        let mut acc: i128 = 0;
        let mut i: usize = 0;
        while i < n
            invariant
                self.wf(),
                n == self.times@.len(),
                n == self.rates@.len(),
                n > 0,
                big == i64::MAX,
                start == min_int(t as int, self.times@[0] as int),
                i <= n,
                acc == enrolled_upto(self.times@, self.rates@, i as int, t as int),
                0 <= acc,
                i < n ==> acc <= big * (seg_lo(self.times@, i as int, t as int) - start),
                i == n ==> acc <= big * (t - start),
                i < n ==> start <= seg_lo(self.times@, i as int, t as int),
            decreases n - i,
        {
            let ti = self.times[i];
            let lo: i64 = if t < ti {
                t
            } else {
                ti
            };
            let hi: i64 = if i + 1 < n {
                let tn = self.times[i + 1];
                if t < tn {
                    t
                } else {
                    tn
                }
            } else {
                t
            };
            let rate = self.rates[i];
            if i + 1 < n {
                assert(self.times@[i as int] < self.times@[i + 1]);
            }
            assert(lo <= hi);
            assert(0 <= rate <= big);
            let width: i128 = hi as i128 - lo as i128;
            assert(0 <= width <= big * 2 + 1);
            let ghost before: int = acc as int;
            assert(0 <= rate * width <= big * width) by (nonlinear_arith)
                requires
                    0 <= rate <= big,
                    0 <= width,
            ;
            assert(big * width <= big * (big * 2 + 1)) by (nonlinear_arith)
                requires
                    0 <= width <= big * 2 + 1,
                    0 <= big,
            ;
            assert(big * (big * 2 + 1) < 0x7fff_ffff_ffff_ffff_ffff_ffff_ffff_ffffi128)
                by (nonlinear_arith)
                requires
                    big == 0x7fff_ffff_ffff_ffff,
            ;
            let add: i128 = rate as i128 * width;
            assert(hi - start <= big + big + 1);
            assert(before + add <= big * (hi - start)) by (nonlinear_arith)
                requires
                    before <= big * (lo - start),
                    add <= big * (hi - lo),
                    0 <= big,
            ;
            assert(big * (hi - start) <= big * (big + big + 1)) by (nonlinear_arith)
                requires
                    hi - start <= big + big + 1,
                    0 <= big,
            ;
            assert(big * (big + big + 1) < 0x7fff_ffff_ffff_ffff_ffff_ffff_ffff_ffffi128)
                by (nonlinear_arith)
                requires
                    big == 0x7fff_ffff_ffff_ffff,
            ;
            acc = acc + add;
            i = i + 1;
        }
        acc
    }

    /// The first whole time by which `n` patients have enrolled, or
    /// `Unreachable` when that does not happen by the largest time there is.
    pub fn time_for_patients(&self, n: i128) -> (r: Result<i64, DesignError>)
        requires
            self.wf(),
        ensures
            r is Ok <==> n <= self.cumulative_spec(i64::MAX as int),
            r matches Ok(t) ==> first_reached(self.times(), self.rates(), n as int, t as int),
            r matches Err(e) ==> e == DesignError::Unreachable,
    {
        if self.cumulative_patients(i64::MAX) < n {
            return Err(DesignError::Unreachable);
        }
        if n <= self.cumulative_patients(0) {
            return Ok(0);
        }
        let mut lo: i64 = 0;
        let mut hi: i64 = i64::MAX;
        while hi - lo > 1
            invariant
                self.wf(),
                0 <= lo < hi,
                self.cumulative_spec(lo as int) < n,
                n <= self.cumulative_spec(hi as int),
            decreases hi - lo,
        {
            let mid: i64 = lo + (hi - lo) / 2;
            if n <= self.cumulative_patients(mid) {
                hi = mid;
            } else {
                lo = mid;
            }
        }
        Ok(hi)
    }
}

/// Nobody has enrolled before any segment has started.
proof fn lemma_enrolled_before_start(times: Seq<i64>, rates: Seq<i64>, k: int, t: int)
    requires
        valid_schedule(times, rates),
        0 <= k <= times.len(),
        forall|i: int| 0 <= i < times.len() ==> t <= #[trigger] times[i],
    ensures
        enrolled_upto(times, rates, k, t) == 0,
    decreases k,
{
    if k > 0 {
        lemma_enrolled_before_start(times, rates, k - 1, t);
        let i = k - 1;
        assert(t <= times[i]);
        if i + 1 < times.len() {
            assert(t <= times[i + 1]);
        }
        assert(seg_hi(times, i, t) - seg_lo(times, i, t) == 0);
        assert(enrolled_in(times, rates, i, t) == 0);
    }
}

/// What the first `k` segments add over one time step: the rate of the
/// segment in force at `t`, counted only while that segment is among them.
spec fn step_upto(times: Seq<i64>, rates: Seq<i64>, k: int, t: int) -> int {
    if k < times.len() {
        let i = last_started(times, k, t);
        if i >= 0 && t < times[k] {
            rates[i] as int
        } else {
            0
        }
    } else {
        rate_at(times, rates, t)
    }
}

proof fn lemma_last_started_bounds(times: Seq<i64>, k: int, t: int)
    requires
        0 <= k <= times.len(),
    ensures
        -1 <= last_started(times, k, t) < k,
        last_started(times, k, t) >= 0 ==> times[last_started(times, k, t)] <= t,
    decreases k,
{
    if k > 0 {
        lemma_last_started_bounds(times, k - 1, t);
    }
}

proof fn lemma_enrolled_step(times: Seq<i64>, rates: Seq<i64>, k: int, t: int)
    requires
        valid_schedule(times, rates),
        0 <= k <= times.len(),
    ensures
        enrolled_upto(times, rates, k, t + 1) == enrolled_upto(times, rates, k, t) + step_upto(
            times,
            rates,
            k,
            t,
        ),
    decreases k,
{
    if k > 0 {
        let i = k - 1;
        lemma_enrolled_step(times, rates, i, t);
        lemma_last_started_bounds(times, i, t);
        let w0 = seg_hi(times, i, t) - seg_lo(times, i, t);
        let w1 = seg_hi(times, i, t + 1) - seg_lo(times, i, t + 1);
        let d: int = if i + 1 < times.len() {
            if times[i] <= t && t < times[i + 1] {
                1
            } else {
                0
            }
        } else if times[i] <= t {
            1
        } else {
            0
        };
        if i + 1 < times.len() {
            assert(times[i] < times[i + 1]);
        }
        assert(w1 == w0 + d);
        let r = rates[i] as int;
        assert(r * w1 == r * w0 + r * d) by (nonlinear_arith)
            requires
                w1 == w0 + d,
        ;
        assert(enrolled_in(times, rates, i, t + 1) == enrolled_in(times, rates, i, t) + r * d);
        if i > 0 {
            let j = last_started(times, i, t);
            if j >= 0 {
                assert(times[j] < times[i]);
            }
        }
    }
}

/// Before any time at all nobody has enrolled: the count at time 0 is 0.
pub proof fn law_cumulative_starts_at_zero(m: &EnrollmentModel, t: int)
    requires
        m.wf(),
        t <= 0,
    ensures
        m.cumulative_spec(t) == 0,
{
    lemma_enrolled_before_start(m.times(), m.rates(), m.times().len() as int, t);
}

proof fn lemma_enrolled_monotone(times: Seq<i64>, rates: Seq<i64>, k: int, s: int, t: int)
    requires
        valid_schedule(times, rates),
        0 <= k <= times.len(),
        s <= t,
    ensures
        enrolled_upto(times, rates, k, s) <= enrolled_upto(times, rates, k, t),
    decreases k,
{
    if k > 0 {
        let i = k - 1;
        lemma_enrolled_monotone(times, rates, i, s, t);
        if i + 1 < times.len() {
            assert(times[i] < times[i + 1]);
        }
        let ws = seg_hi(times, i, s) - seg_lo(times, i, s);
        let wt = seg_hi(times, i, t) - seg_lo(times, i, t);
        assert(ws <= wt);
        let r = rates[i] as int;
        assert(0 <= r);
        assert(r * ws <= r * wt) by (nonlinear_arith)
            requires
                ws <= wt,
                0 <= r,
        ;
    }
}

/// The number of patients enrolled never decreases with time.
pub proof fn law_cumulative_monotone(m: &EnrollmentModel, s: int, t: int)
    requires
        m.wf(),
        s <= t,
    ensures
        m.cumulative_spec(s) <= m.cumulative_spec(t),
{
    lemma_enrolled_monotone(m.times(), m.rates(), m.times().len() as int, s, t);
}

/// Over one time step the count grows by exactly the rate in force, so it
/// is continuous and piecewise linear: it never jumps by more than a rate.
pub proof fn law_cumulative_step(m: &EnrollmentModel, t: int)
    requires
        m.wf(),
    ensures
        m.cumulative_spec(t + 1) == m.cumulative_spec(t) + rate_at(m.times(), m.rates(), t),
        0 <= rate_at(m.times(), m.rates(), t) <= i64::MAX,
{
    lemma_enrolled_step(m.times(), m.rates(), m.times().len() as int, t);
    lemma_last_started_bounds(m.times(), m.times().len() as int, t);
}

/// At most one time is the first at which a given count is reached, so the
/// result of `time_for_patients` is determined by its count.
pub proof fn law_first_reached_unique(m: &EnrollmentModel, n: int, u: int, v: int)
    requires
        m.wf(),
        first_reached(m.times(), m.rates(), n, u),
        first_reached(m.times(), m.rates(), n, v),
    ensures
        u == v,
{
    if u < v {
        law_cumulative_monotone(m, u, v - 1);
    } else if v < u {
        law_cumulative_monotone(m, v, u - 1);
    }
}

/// Wherever the rate in force just before `t` is positive, the count
/// enrolled by `t` is first reached at `t`: `time_for_patients` applied to
/// `cumulative_patients(t)` succeeds and gives back `t`.
pub proof fn law_time_for_patients_round_trip(m: &EnrollmentModel, t: int)
    requires
        m.wf(),
        0 <= t <= i64::MAX,
        t == 0 || rate_at(m.times(), m.rates(), t - 1) > 0,
    ensures
        m.cumulative_spec(t) <= m.cumulative_spec(i64::MAX as int),
        forall|u: int|
            first_reached(m.times(), m.rates(), m.cumulative_spec(t), u) <==> u == t,
{
    law_cumulative_monotone(m, t, i64::MAX as int);
    if t > 0 {
        law_cumulative_step(m, t - 1);
    }
    assert(first_reached(m.times(), m.rates(), m.cumulative_spec(t), t));
    assert forall|u: int|
        first_reached(m.times(), m.rates(), m.cumulative_spec(t), u) implies u == t by {
        law_first_reached_unique(m, m.cumulative_spec(t), u, t);
    }
}

} // verus!
