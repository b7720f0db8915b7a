//! dropped.pl: not searched yet; it is listed so that it can be switched on and off.
use vstd::prelude::*;

verus! {

/// dropped.pl.
pub struct DroppedPl;

impl DroppedPl {
    /// Marketplace id, also the rate-limit key.
    pub fn id(&self) -> (r: &'static str)
        ensures
            r@ == "dropped_pl"@,
    {
        "dropped_pl"
    }

    /// Human-readable name.
    pub fn label(&self) -> (r: &'static str)
        ensures
            r@ == "dropped.pl"@,
    {
        "dropped.pl"
    }

    /// Requests per second allowed against this marketplace.
    pub fn rps(&self) -> (r: u32)
        ensures
            r == 1,
    {
        1
    }
}

} // verus!
