use vstd::prelude::*;

verus! {

/// The ways a design computation can fail.
#[derive(Clone, Copy, Debug, PartialEq, Eq, Structural)]
pub enum DesignError {
    /// Malformed enrollment times or rates.
    InvalidEnrollmentModel,
    /// A boundary selector that names no known spending family.
    InvalidSpendingFunction,
    /// A custom boundary without a matching cumulative-spend sequence.
    MissingCustomSpend,
    /// A numeric input outside its admissible range.
    InvalidParameterRange,
    /// The enrollment model never reaches the requested patient count.
    Unreachable,
    /// An iterative search ran out of its budget.
    NonConvergence,
}

impl DesignError {
    /// A short description of the failure, as shown to a user.
    pub fn message(&self) -> (r: String) {
        match self {
            DesignError::InvalidEnrollmentModel => String::from_str("invalid enrollment model"),
            DesignError::InvalidSpendingFunction => String::from_str("invalid spending function"),
            DesignError::MissingCustomSpend => String::from_str(
                "a custom spending function needs one cumulative alpha per look",
            ),
            DesignError::InvalidParameterRange => String::from_str("parameter out of range"),
            DesignError::Unreachable => String::from_str(
                "the enrollment model never reaches the requested patient count",
            ),
            DesignError::NonConvergence => String::from_str("the search did not converge"),
        }
    }
}

} // verus!
