//! The migration engine: unit names, the plan of a run, and the run itself.

pub mod engine;
pub mod ledger;
pub mod name;
pub mod plan;
