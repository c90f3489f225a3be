//! Design computations for event-driven, group-sequential clinical trials,
//! carried out in exact integer units.

pub mod design;
pub mod enrollment;
pub mod error;
pub mod inputs;
pub mod search;
pub mod spending;
