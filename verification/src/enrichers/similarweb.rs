//! Similarweb traffic estimates.
use vstd::prelude::*;

verus! {

/// Global rank and latest monthly visits, when Similarweb knows them.
#[derive(Clone, Copy, Debug, PartialEq, Eq, Structural)]
pub struct SimilarwebInfo {
    pub global_rank: Option<u64>,
    pub monthly_visits: Option<u64>,
}

} // verus!
