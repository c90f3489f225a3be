use vstd::prelude::*;

use crate::error::DesignError;

verus! {

/// The unit in which probabilities and information fractions are counted:
/// this value stands for 1, so `25_000_000` is 0.025.
pub const PROB_ONE: u64 = 1_000_000_000;

/// Information fractions of the looks: each in (0, 1], strictly increasing,
/// and the last one exactly 1 (the final analysis).
pub open spec fn valid_looks(fractions: Seq<u64>) -> bool {
    &&& fractions.len() > 0
    &&& forall|i: int| 0 <= i < fractions.len() ==> 0 < #[trigger] fractions[i] <= PROB_ONE
    &&& forall|i: int, j: int| 0 <= i < j < fractions.len() ==> fractions[i] < fractions[j]
    &&& fractions.last() == PROB_ONE
}

/// A cumulative alpha schedule: one value per look, non-decreasing, ending
/// at the overall alpha.
pub open spec fn valid_spend(spend: Seq<u64>, n_looks: int, alpha: int) -> bool {
    &&& spend.len() == n_looks
    &&& n_looks > 0
    &&& forall|i: int, j: int| 0 <= i <= j < spend.len() ==> spend[i] <= spend[j]
    &&& spend.last() == alpha
}

/// The looks of a group-sequential trial, as information fractions.
pub struct LookSchedule {
    fractions: Vec<u64>,
}

impl LookSchedule {
    pub closed spec fn fractions(&self) -> Seq<u64> {
        self.fractions@
    }

    pub open spec fn wf(&self) -> bool {
        valid_looks(self.fractions())
    }

    /// A schedule from explicit fractions, refusing a malformed one.
    pub fn new(fractions: Vec<u64>) -> (r: Result<LookSchedule, DesignError>)
        ensures
            r is Ok <==> valid_looks(fractions@),
            r matches Ok(s) ==> s.fractions() == fractions@ && s.wf(),
            r matches Err(e) ==> e == DesignError::InvalidParameterRange,
    {
        let n = fractions.len();
        if n == 0 || fractions[n - 1] != PROB_ONE {
            return Err(DesignError::InvalidParameterRange);
        }
        let mut i: usize = 0;
        while i < n
            invariant
                n == fractions.len(),
                i <= n,
                forall|j: int| 0 <= j < i ==> 0 < #[trigger] fractions@[j] <= PROB_ONE,
                forall|j: int, k: int| 0 <= j < k < i ==> fractions@[j] < fractions@[k],
            decreases n - i,
        {
            if fractions[i] == 0 || fractions[i] > PROB_ONE {
                return Err(DesignError::InvalidParameterRange);
            }
            if i > 0 && fractions[i - 1] >= fractions[i] {
                return Err(DesignError::InvalidParameterRange);
            }
            i = i + 1;
        }
        Ok(LookSchedule { fractions })
    }

    /// The default schedule: one final analysis and no interim look.
    pub fn single_final() -> (r: LookSchedule)
        ensures
            r.fractions() == seq![PROB_ONE],
            r.wf(),
    {
        let r = LookSchedule { fractions: vec![PROB_ONE] };
        assert(r.fractions() =~= seq![PROB_ONE]);
        r
    }

    /// Number of looks.
    pub fn num_looks(&self) -> (r: usize)
        ensures
            r == self.fractions().len(),
    {
        self.fractions.len()
    }

    /// The information fraction of look `i`.
    pub fn fraction(&self, i: usize) -> (r: u64)
        requires
            i < self.fractions().len(),
        ensures
            r == self.fractions()[i as int],
    {
        self.fractions[i]
    }

    /// A copy of the fractions.
    pub fn to_vec(&self) -> (r: Vec<u64>)
        ensures
            r@ == self.fractions(),
    {
        self.fractions.clone()
    }
}

/// An alpha-spending boundary.
pub enum SpendingBoundary {
    /// The O'Brien-Fleming-type family, spending `alpha` in all.
    Parametric { alpha: u64 },
    /// A caller's schedule: `cumulative_spend[i]` is spent by `fractions[i]`.
    Custom { fractions: Vec<u64>, cumulative_spend: Vec<u64> },
}

/// `i` is the first look, among the first `n`, at fraction `t`.
pub open spec fn first_look_at(fractions: Seq<u64>, n: int, t: int, i: int) -> bool {
    &&& 0 <= i < n
    &&& i < fractions.len()
    &&& fractions[i] == t
    &&& forall|j: int| 0 <= j < i ==> fractions[j] != t
}

/// The first of the first `n` looks that stands at fraction `t`.
fn first_look(fractions: &Vec<u64>, n: usize, t: u64) -> (r: Option<usize>)
    ensures
        r matches Some(i) ==> first_look_at(fractions@, n as int, t as int, i as int),
        r is None ==> !exists|i: int| first_look_at(fractions@, n as int, t as int, i),
{
    let mut i: usize = 0;
    while i < n && i < fractions.len()
        invariant
            i <= n,
            forall|j: int| 0 <= j < i ==> fractions@[j] != t,
        decreases n - i,
    {
        if fractions[i] == t {
            return Some(i);
        }
        i = i + 1;
    }
    None
}

impl SpendingBoundary {
    /// The boundary is well formed for overall alpha `alpha`.
    pub open spec fn wf(&self, alpha: int) -> bool {
        match self {
            SpendingBoundary::Parametric { alpha: a } => *a == alpha && 0 < alpha < PROB_ONE,
            SpendingBoundary::Custom { fractions, cumulative_spend } => {
                &&& valid_looks(fractions@)
                &&& valid_spend(cumulative_spend@, fractions@.len() as int, alpha)
            },
        }
    }

    /// The cumulative alpha spent by information fraction `t`, where it is
    /// known exactly: at every supplied look of a custom schedule, and at
    /// full information for the parametric family.
    pub open spec fn value_spec(&self, t: int) -> Option<u64> {
        match self {
            SpendingBoundary::Parametric { alpha } => if t == PROB_ONE {
                Some(*alpha)
            } else {
                None
            },
            SpendingBoundary::Custom { fractions, cumulative_spend } => {
                let n = cumulative_spend@.len() as int;
                if exists|i: int| first_look_at(fractions@, n, t, i) {
                    let i = choose|i: int| first_look_at(fractions@, n, t, i);
                    Some(cumulative_spend@[i])
                } else {
                    None
                }
            },
        }
    }

    /// The cumulative alpha spent by information fraction `t`, where it is
    /// known exactly (see `value_spec`); no value is interpolated between
    /// looks.
    pub fn boundary_value(&self, t: u64) -> (r: Option<u64>)
        ensures
            r == self.value_spec(t as int),
    {
        match self {
            SpendingBoundary::Parametric { alpha } => {
                if t == PROB_ONE {
                    Some(*alpha)
                } else {
                    None
                }
            },
            SpendingBoundary::Custom { fractions, cumulative_spend } => {
                let n = cumulative_spend.len();
                match first_look(fractions, n, t) {
                    Some(i) => {
                        let ghost c = choose|c: int|
                            first_look_at(fractions@, n as int, t as int, c);
                        assert(c == i) by {
                            if c < i {
                                assert(fractions@[c] != t);
                            } else if c > i {
                                assert(fractions@[i as int] != t);
                            }
                        }
                        Some(cumulative_spend[i])
                    },
                    None => None,
                }
            },
        }
    }
}

/// A well-formed custom boundary gives exactly the supplied cumulative value
/// at each supplied look, and the overall alpha at full information; so does
/// the parametric family at full information.
pub proof fn law_boundary_values_at_looks(b: &SpendingBoundary, alpha: int, i: int)
    requires
        b.wf(alpha),
    ensures
        b.value_spec(PROB_ONE as int) == Some(alpha as u64),
        b matches SpendingBoundary::Custom { fractions, cumulative_spend } ==> (0 <= i
            < fractions@.len() ==> b.value_spec(fractions@[i] as int) == Some(
            cumulative_spend@[i],
        )),
{
    if let SpendingBoundary::Custom { fractions, cumulative_spend } = b {
        let n = cumulative_spend@.len() as int;
        let last = fractions@.len() - 1;
        assert(first_look_at(fractions@, n, PROB_ONE as int, last)) by {
            assert forall|j: int| 0 <= j < last implies fractions@[j] != PROB_ONE by {
                assert(fractions@[j] < fractions@[last]);
            }
        }
        let c = choose|c: int| first_look_at(fractions@, n, PROB_ONE as int, c);
        assert(c == last) by {
            if c < last {
                assert(fractions@[c] < fractions@[last]);
            }
        }
        if 0 <= i < fractions@.len() {
            let t = fractions@[i] as int;
            assert(first_look_at(fractions@, n, t, i)) by {
                assert forall|j: int| 0 <= j < i implies fractions@[j] != t by {
                    assert(fractions@[j] < fractions@[i]);
                }
            }
            let d = choose|d: int| first_look_at(fractions@, n, t, d);
            assert(d == i) by {
                if d < i {
                    assert(fractions@[d] < fractions@[i]);
                }
            }
        }
    }
}

/// A custom schedule never decreases from one look to a later one.
pub proof fn law_custom_boundary_monotone(b: &SpendingBoundary, alpha: int, i: int, j: int)
    requires
        b.wf(alpha),
        b matches SpendingBoundary::Custom { .. },
    ensures
        b matches SpendingBoundary::Custom { fractions, cumulative_spend } ==> (0 <= i <= j
            < fractions@.len() ==> cumulative_spend@[i] <= cumulative_spend@[j]),
{
}

/// The characters of a selector, if there is one.
pub open spec fn selector_view(selector: Option<&str>) -> Option<Seq<char>> {
    match selector {
        Some(s) => Some(s@),
        None => None,
    }
}

/// The error that resolving a boundary selector gives, if any.
pub open spec fn selector_error(
    selector: Option<Seq<char>>,
    alpha: int,
    custom_spend: Option<Seq<u64>>,
    n_looks: int,
) -> Option<DesignError> {
    match selector {
        None => None,
        Some(s) => if s == "LDOF"@ {
            if 0 < alpha < PROB_ONE {
                None
            } else {
                Some(DesignError::InvalidParameterRange)
            }
        } else if s == "custom"@ {
            match custom_spend {
                None => Some(DesignError::MissingCustomSpend),
                Some(c) => if c.len() != n_looks {
                    Some(DesignError::MissingCustomSpend)
                } else if !valid_spend(c, n_looks, alpha) {
                    Some(DesignError::InvalidParameterRange)
                } else {
                    None
                },
            }
        } else {
            Some(DesignError::InvalidSpendingFunction)
        },
    }
}

/// The supplied spend schedule, if there is one.
pub open spec fn spend_view(custom_spend: Option<&Vec<u64>>) -> Option<Seq<u64>> {
    match custom_spend {
        Some(c) => Some(c@),
        None => None,
    }
}

/// `s` and `t` hold the same characters.
fn str_equals(s: &str, t: &str) -> (r: bool)
    ensures
        r == (s@ == t@),
{
    let n = s.unicode_len();
    if n != t.unicode_len() {
        return false;
    }
    let mut i: usize = 0;
    while i < n
        invariant
            n == s@.len(),
            n == t@.len(),
            i <= n,
            forall|j: int| 0 <= j < i ==> s@[j] == t@[j],
        decreases n - i,
    {
        if s.get_char(i) != t.get_char(i) {
            return false;
        }
        i = i + 1;
    }
    assert(s@ =~= t@);
    true
}

/// Checks a custom schedule against the looks and the overall alpha.
fn check_spend(spend: &Vec<u64>, n_looks: usize, alpha: u64) -> (r: bool)
    ensures
        r == valid_spend(spend@, n_looks as int, alpha as int),
{
    let n = spend.len();
    if n != n_looks || n == 0 || spend[n - 1] != alpha {
        return false;
    }
    let mut i: usize = 1;
    while i < n
        invariant
            n == spend@.len(),
            1 <= i <= n,
            forall|j: int, k: int| 0 <= j <= k < i ==> spend@[j] <= spend@[k],
        decreases n - i,
    {
        if spend[i - 1] > spend[i] {
            assert(!(spend@[i - 1] <= spend@[i as int]));
            return false;
        }
        i = i + 1;
    }
    true
}

/// Turns a boundary selector into a boundary: no selector gives no
/// boundary, `"LDOF"` the parametric family, and `"custom"` the supplied
/// cumulative schedule, which must have one value per look.
pub fn spending_boundary(
    selector: Option<&str>,
    alpha: u64,
    custom_spend: Option<&Vec<u64>>,
    looks: &LookSchedule,
) -> (r: Result<Option<SpendingBoundary>, DesignError>)
    requires
        looks.wf(),
    ensures
        selector is None ==> r == Ok::<Option<SpendingBoundary>, DesignError>(None),
        selector matches Some(s) ==> {
            if s@ == "LDOF"@ {
                if 0 < alpha < PROB_ONE {
                    r == Ok::<Option<SpendingBoundary>, DesignError>(
                        Some(SpendingBoundary::Parametric { alpha }),
                    )
                } else {
                    r == Err::<Option<SpendingBoundary>, DesignError>(
                        DesignError::InvalidParameterRange,
                    )
                }
            } else if s@ == "custom"@ {
                match custom_spend {
                    None => r == Err::<Option<SpendingBoundary>, DesignError>(
                        DesignError::MissingCustomSpend,
                    ),
                    Some(c) => if c@.len() != looks.fractions().len() {
                        r == Err::<Option<SpendingBoundary>, DesignError>(
                            DesignError::MissingCustomSpend,
                        )
                    } else if !valid_spend(c@, c@.len() as int, alpha as int) {
                        r == Err::<Option<SpendingBoundary>, DesignError>(
                            DesignError::InvalidParameterRange,
                        )
                    } else {
                        r matches Ok(Some(SpendingBoundary::Custom { fractions, cumulative_spend }))
                            && fractions@ == looks.fractions() && cumulative_spend@ == c@
                    },
                }
            } else {
                r == Err::<Option<SpendingBoundary>, DesignError>(
                    DesignError::InvalidSpendingFunction,
                )
            }
        },
        r matches Ok(Some(b)) ==> b.wf(alpha as int),
        r is Err <==> selector_error(
            selector_view(selector),
            alpha as int,
            spend_view(custom_spend),
            looks.fractions().len() as int,
        ) is Some,
        r matches Err(e) ==> selector_error(
            selector_view(selector),
            alpha as int,
            spend_view(custom_spend),
            looks.fractions().len() as int,
        ) == Some(e),
        r matches Ok(b) ==> (b is None <==> selector is None),
{
    match selector {
        None => Ok(None),
        Some(s) => {
            if str_equals(s, "LDOF") {
                if 0 < alpha && alpha < PROB_ONE {
                    Ok(Some(SpendingBoundary::Parametric { alpha }))
                } else {
                    Err(DesignError::InvalidParameterRange)
                }
            } else if str_equals(s, "custom") {
                match custom_spend {
                    None => Err(DesignError::MissingCustomSpend),
                    Some(c) => {
                        if c.len() != looks.num_looks() {
                            Err(DesignError::MissingCustomSpend)
                        } else if !check_spend(c, c.len(), alpha) {
                            Err(DesignError::InvalidParameterRange)
                        } else {
                            Ok(
                                Some(
                                    SpendingBoundary::Custom {
                                        fractions: looks.to_vec(),
                                        cumulative_spend: c.clone(),
                                    },
                                ),
                            )
                        }
                    },
                }
            } else {
                Err(DesignError::InvalidSpendingFunction)
            }
        },
    }
}

} // verus!
