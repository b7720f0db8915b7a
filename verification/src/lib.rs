//! Verified core of a hunter for expiring domains on Polish aftermarket sites:
//! listing extraction, enrichment rules, scoring rules and the search pipeline's decisions.
use vstd::prelude::*;

pub mod commands;
pub mod enrichers;
pub mod ext;
pub mod model;
pub mod pipeline;
pub mod scoring;
pub mod scrapers;
pub mod storage;
pub mod text;

verus! {
} // verus!
