//! Verified core of the Strata workbench: exact byte ranges, session intent,
//! projection parameters, and local project locators.

use vstd::prelude::*;

pub mod branches;
pub mod changes;
pub mod cli;
pub mod cohort;
pub mod coordinates;
pub mod discovery;
pub mod drops;
pub mod hilbert;
pub mod labels;
pub mod projection;
pub mod ranges;
pub mod sampling;
pub mod session;
pub mod inspection;
pub mod journal;
pub mod session_support;
pub mod snapshot;
pub mod stored_ids;
pub mod text;
pub mod tiles;
pub mod workbench;
pub mod ordered;
pub mod preview;
pub mod paths;
pub mod project_models;

verus! {

} // verus!
