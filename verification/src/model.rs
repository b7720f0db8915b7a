//! Domain types shared by the scrapers, the enrichers, the scoring rules and the pipeline.
use vstd::prelude::*;

verus! {

/// Seconds since the Unix epoch and the sub-second nanoseconds of a UTC instant.
#[derive(Clone, Copy, Debug, PartialEq, Eq, Structural)]
pub struct Timestamp {
    pub secs: i64,
    pub nanos: u32,
}

/// Recommendation profile to score against.
#[derive(Clone, Copy, Debug, PartialEq, Eq, Structural)]
pub enum ScoringProfile {
    /// SEO Hunter: heavy weight on age and archive history.
    SeoHunter,
    /// Brand Builder: favours short, brandable names regardless of history.
    BrandBuilder,
    /// Bargain: value for money first.
    Bargain,
}

impl Default for ScoringProfile {
    fn default() -> (r: Self)
        ensures
            r == ScoringProfile::SeoHunter,
    {
        ScoringProfile::SeoHunter
    }
}

/// How a listing is sold.
#[derive(Clone, Copy, Debug, PartialEq, Eq, Structural)]
pub enum AuctionType {
    Auction,
    BuyNow,
    Both,
    Unknown,
}

/// Band of a total score.
#[derive(Clone, Copy, Debug, PartialEq, Eq, Structural)]
pub enum ScoreTier {
    /// 80 and above.
    Excellent,
    /// 60 to 79.
    Good,
    /// 40 to 59.
    Fair,
    /// Below 40.
    Poor,
}

/// The tier of a total whose whole part is `points`.
pub open spec fn tier_of(points: int) -> ScoreTier {
    if points >= 80 {
        ScoreTier::Excellent
    } else if points >= 60 {
        ScoreTier::Good
    } else if points >= 40 {
        ScoreTier::Fair
    } else {
        ScoreTier::Poor
    }
}

/// Rank of a tier, from `Poor` (0) to `Excellent` (3).
pub open spec fn tier_rank(t: ScoreTier) -> int {
    match t {
        ScoreTier::Poor => 0,
        ScoreTier::Fair => 1,
        ScoreTier::Good => 2,
        ScoreTier::Excellent => 3,
    }
}

impl ScoreTier {
    /// The tier of a total score, given as its whole part rounded down (the thresholds
    /// are whole numbers, so a total reaches a threshold exactly when its floor does).
    pub fn from_total(points: i64) -> (r: ScoreTier)
        ensures
            r == tier_of(points as int),
    {
        if points >= 80 {
            ScoreTier::Excellent
        } else if points >= 60 {
            ScoreTier::Good
        } else if points >= 40 {
            ScoreTier::Fair
        } else {
            ScoreTier::Poor
        }
    }
}

/// A higher total never falls into a lower tier.
pub proof fn lemma_tier_monotone(a: int, b: int)
    requires
        a <= b,
    ensures
        tier_rank(tier_of(a)) <= tier_rank(tier_of(b)),
{
}

/// Progress event reported while a search runs.
#[derive(Clone, Debug)]
pub struct SearchProgress {
    pub phase: String,
    pub detail: String,
    pub current: u32,
    pub total: Option<u32>,
    pub marketplace: Option<String>,
}

/// A listing as read from a marketplace page. Prices are kept as the plain decimal
/// text that was read (digits, at most one point); the caller turns them into numbers.
#[derive(Clone, Debug)]
pub struct Listing {
    /// Stable id "{marketplace}:{external_id|domain}".
    pub id: String,
    pub marketplace: String,
    pub domain: String,
    pub tld: String,
    pub current_price: Option<String>,
    pub buy_now_price: Option<String>,
    pub currency: String,
    pub auction_type: AuctionType,
    pub ends_at: Option<Timestamp>,
    pub url: String,
    pub fetched_at: Timestamp,
}

} // verus!
