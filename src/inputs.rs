use vstd::prelude::*;

use crate::error::DesignError;
use crate::spending::PROB_ONE;

verus! {

/// A probability strictly between 0 and 1, in `PROB_ONE` units.
pub open spec fn open_unit(p: int) -> bool {
    0 < p < PROB_ONE
}

/// The design inputs lie in their admissible ranges: alpha, power and the
/// treated proportion in (0, 1), both event hazards positive, and a grid of
/// at least one point per look.
pub open spec fn admissible_inputs(
    alpha: int,
    power: int,
    prop_treated: int,
    hazard_trt: int,
    hazard_ctrl: int,
    grid: int,
) -> bool {
    &&& open_unit(alpha)
    &&& open_unit(power)
    &&& open_unit(prop_treated)
    &&& hazard_trt > 0
    &&& hazard_ctrl > 0
    &&& grid > 0
}

/// Checks the numeric inputs of a design computation. Probabilities are in
/// `PROB_ONE` units and hazards in events per `PROB_ONE` time units.
pub fn check_design_inputs(
    alpha: u64,
    power: u64,
    prop_treated: u64,
    hazard_trt: u64,
    hazard_ctrl: u64,
    grid: usize,
) -> (r: Result<(), DesignError>)
    ensures
        r is Ok <==> admissible_inputs(
            alpha as int,
            power as int,
            prop_treated as int,
            hazard_trt as int,
            hazard_ctrl as int,
            grid as int,
        ),
        r matches Err(e) ==> e == DesignError::InvalidParameterRange,
{
    if !is_open_unit(alpha) || !is_open_unit(power) || !is_open_unit(prop_treated) {
        return Err(DesignError::InvalidParameterRange);
    }
    if hazard_trt == 0 || hazard_ctrl == 0 || grid == 0 {
        return Err(DesignError::InvalidParameterRange);
    }
    Ok(())
}

/// Whether `p` lies strictly between 0 and 1.
pub fn is_open_unit(p: u64) -> (r: bool)
    ensures
        r == open_unit(p as int),
{
    0 < p && p < PROB_ONE
}

} // verus!
