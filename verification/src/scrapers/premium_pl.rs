//! premium.pl: not searched yet; it is listed so that it can be switched on and off.
use vstd::prelude::*;

verus! {

/// premium.pl.
pub struct PremiumPl;

impl PremiumPl {
    /// Marketplace id, also the rate-limit key.
    pub fn id(&self) -> (r: &'static str)
        ensures
            r@ == "premium_pl"@,
    {
        "premium_pl"
    }

    /// Human-readable name.
    pub fn label(&self) -> (r: &'static str)
        ensures
            r@ == "premium.pl"@,
    {
        "premium.pl"
    }

    /// Requests per second allowed against this marketplace.
    pub fn rps(&self) -> (r: u32)
        ensures
            r == 1,
    {
        1
    }
}

} // verus!
