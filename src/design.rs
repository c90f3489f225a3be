use vstd::prelude::*;

use crate::enrollment::{valid_schedule, EnrollmentModel};
use crate::error::DesignError;
use crate::inputs::{admissible_inputs, check_design_inputs};
use crate::spending::{
    selector_error,
    selector_view,
    spend_view,
    spending_boundary,
    valid_looks,
    LookSchedule,
    SpendingBoundary,
    PROB_ONE,
};

verus! {

/// The look fractions in force: the supplied ones, or one final look.
pub open spec fn looks_in_force(look_fractions: Option<Seq<u64>>) -> Seq<u64> {
    match look_fractions {
        Some(f) => f,
        None => seq![PROB_ONE],
    }
}

/// The supplied look fractions, if there are any.
pub open spec fn fractions_view(look_fractions: Option<Vec<u64>>) -> Option<Seq<u64>> {
    match look_fractions {
        Some(f) => Some(f@),
        None => None,
    }
}

/// The first error that preparing a design meets, if any: input ranges,
/// then the look schedule, the lower and the upper boundary, and last the
/// enrollment model.
pub open spec fn design_error(
    alpha: int,
    power: int,
    lower: Option<Seq<char>>,
    upper: Option<Seq<char>>,
    look_fractions: Option<Seq<u64>>,
    prop_treated: int,
    hazard_trt: int,
    hazard_ctrl: int,
    enrollment_rates: Seq<i64>,
    enrollment_times: Seq<i64>,
    custom_spend: Option<Seq<u64>>,
    grid: int,
) -> Option<DesignError> {
    let looks = looks_in_force(look_fractions);
    if !admissible_inputs(alpha, power, prop_treated, hazard_trt, hazard_ctrl, grid) {
        Some(DesignError::InvalidParameterRange)
    } else if !valid_looks(looks) {
        Some(DesignError::InvalidParameterRange)
    } else if selector_error(lower, alpha, custom_spend, looks.len() as int) is Some {
        selector_error(lower, alpha, custom_spend, looks.len() as int)
    } else if selector_error(upper, alpha, custom_spend, looks.len() as int) is Some {
        selector_error(upper, alpha, custom_spend, looks.len() as int)
    } else if !valid_schedule(enrollment_times, enrollment_rates) {
        Some(DesignError::InvalidEnrollmentModel)
    } else {
        None
    }
}

/// Everything a design computation works from, checked and resolved.
pub struct DesignSetup {
    pub looks: LookSchedule,
    pub lower: Option<SpendingBoundary>,
    pub upper: Option<SpendingBoundary>,
    pub enrollment: EnrollmentModel,
}

/// Checks the inputs of a design computation and resolves them: the look
/// schedule (one final look when none is given), the lower and the upper
/// boundary from their selectors, and the enrollment model. Probabilities
/// and fractions are in `PROB_ONE` units.
pub fn prepare_design(
    alpha: u64,
    power: u64,
    lower: Option<&str>,
    upper: Option<&str>,
    look_fractions: Option<Vec<u64>>,
    prop_treated: u64,
    hazard_trt: u64,
    hazard_ctrl: u64,
    enrollment_rates: Vec<i64>,
    enrollment_times: Vec<i64>,
    custom_spend: Option<&Vec<u64>>,
    grid: usize,
) -> (r: Result<DesignSetup, DesignError>)
    ensures
        r is Ok <==> design_error(
            alpha as int,
            power as int,
            selector_view(lower),
            selector_view(upper),
            fractions_view(look_fractions),
            prop_treated as int,
            hazard_trt as int,
            hazard_ctrl as int,
            enrollment_rates@,
            enrollment_times@,
            spend_view(custom_spend),
            grid as int,
        ) is None,
        r matches Err(e) ==> design_error(
            alpha as int,
            power as int,
            selector_view(lower),
            selector_view(upper),
            fractions_view(look_fractions),
            prop_treated as int,
            hazard_trt as int,
            hazard_ctrl as int,
            enrollment_rates@,
            enrollment_times@,
            spend_view(custom_spend),
            grid as int,
        ) == Some(e),
        r matches Ok(d) ==> {
            &&& d.looks.wf()
            &&& d.looks.fractions() == looks_in_force(fractions_view(look_fractions))
            &&& (d.lower is None <==> lower is None)
            &&& (d.upper is None <==> upper is None)
            &&& (d.lower matches Some(b) ==> b.wf(alpha as int))
            &&& (d.upper matches Some(b) ==> b.wf(alpha as int))
            &&& d.enrollment.wf()
            &&& d.enrollment.times() == enrollment_times@
            &&& d.enrollment.rates() == enrollment_rates@
        },
{
    if check_design_inputs(alpha, power, prop_treated, hazard_trt, hazard_ctrl, grid).is_err() {
        return Err(DesignError::InvalidParameterRange);
    }
    let looks = match look_fractions {
        Some(f) => LookSchedule::new(f)?,
        None => LookSchedule::single_final(),
    };
    let lower_boundary = spending_boundary(lower, alpha, custom_spend, &looks)?;
    let upper_boundary = spending_boundary(upper, alpha, custom_spend, &looks)?;
    let enrollment = EnrollmentModel::new(enrollment_times, enrollment_rates)?;
    Ok(DesignSetup { looks, lower: lower_boundary, upper: upper_boundary, enrollment })
}

} // verus!
