//! A small property-based testing engine.
//!
//! A type that implements [`Arbitrary`] can produce random instances of
//! itself, report a size for any instance, and render an instance as text.
//! A [`Testable`] bundles a predicate with the generation of its arguments.
//! The runner executes a fixed number of trials, tallies the outcomes,
//! ranks the collected failures by size, and emits a bounded report.
//!
//! No shrinking is performed: the engine only ranks the failures it happened
//! to sample, so the smallest reported counterexample is the smallest one
//! drawn, not a minimised one.

use vstd::prelude::*;

pub mod arbitrary;
pub mod outcome;
pub mod rank;
pub mod runner;
pub mod testable;
pub mod text;

pub use arbitrary::{Arbitrary, size_idempotent};
pub use outcome::{Outcome, result_str};
pub use rank::rank_indices;
pub use runner::{quick_check, quick_check2, quick_check_silent, report_lines, run_trials, verdict_of};
pub use testable::{Prop1, Prop2, Testable};

verus! {

/// Number of trials one run executes.
pub const NUM_TRIALS: usize = 100;

/// At most this many counterexamples are shown in a report.
pub const SHOW_LIMIT: usize = 5;

} // verus!
