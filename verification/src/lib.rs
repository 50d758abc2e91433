//! Generational snapshot retention: a policy parser, a per-dataset
//! retention decision engine, and a fleet-wide aggregator.

use vstd::prelude::*;

pub mod aggregate;
pub mod date;
pub mod engine;
pub mod laws;
pub mod policy;
pub mod zfs;

pub use date::DateTime;
pub use engine::AgeCheckResult;
pub use policy::RetentionPolicy;

verus! {

/// The per-dataset property whose value is a policy specification string,
/// or the sentinel `-` for an untracked dataset.
pub const PROPERTY_SNAPKEEP: &'static str = "at.rollc.at:snapkeep";

} // verus!
