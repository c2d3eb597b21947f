//! PTConductor: typed, versioned workflows of AI prompt steps, with validated inputs,
//! secret redaction, deterministic run records and reports.
use vstd::prelude::*;

pub mod text;
pub mod clock;
pub mod values;
pub mod domain;
pub mod error;
pub mod validation;
pub mod resolver;
pub mod engine;
pub mod bytes;
pub mod urls;
pub mod json;
pub mod providers;
pub mod ids;
pub mod hashing;
pub mod persistence;
pub mod reporting;
pub mod cli;
pub mod desktop;
pub mod laws;

verus! {

} // verus!
