//! Freshness of cached enrichment, and whether a domain must be enriched again.
use vstd::prelude::*;

use crate::ext::{parse_rfc3339, rfc3339};
use crate::model::Timestamp;

verus! {

/// Nanoseconds in a second.
pub const NANOS_PER_SEC: i128 = 1000000000;

/// Nanoseconds from `from` to `to` (negative when `to` is earlier).
pub open spec fn nanos_between(from: Timestamp, to: Timestamp) -> int {
    (to.secs - from.secs) * 1000000000 + (to.nanos - from.nanos)
}

/// `a / b` rounded toward zero, for `b > 0`.
pub open spec fn div_toward_zero(a: int, b: int) -> int {
    if a >= 0 { a / b } else { -((-a) / b) }
}

/// Whole hours from `from` to `to`, rounded toward zero, the way a time span's whole
/// hours are counted (whole seconds first, then whole hours).
pub open spec fn whole_hours_between(from: Timestamp, to: Timestamp) -> int {
    div_toward_zero(div_toward_zero(nanos_between(from, to), 1000000000), 3600)
}

/// Whether cached enrichment fetched at `fetched` is still fresh at `now`: fewer than
/// `max_age_hours` whole hours have passed. A fetch time that could not be read counts
/// as fetched just now.
pub fn is_fresh(fetched: Option<Timestamp>, now: Timestamp, max_age_hours: i64) -> (r: bool)
    ensures
        r == (whole_hours_between(
            match fetched {
                Some(f) => f,
                None => now,
            },
            now,
        ) < max_age_hours),
{
    let f = match fetched {
        Some(f) => f,
        None => now,
    };
    let ns: i128 = (now.secs as i128 - f.secs as i128) * NANOS_PER_SEC + (now.nanos as i128
        - f.nanos as i128);
    let secs: i128 = if ns >= 0 { ns / NANOS_PER_SEC } else { -((-ns) / NANOS_PER_SEC) };
    let hours: i128 = if secs >= 0 { secs / 3600 } else { -((-secs) / 3600) };
    hours < max_age_hours as i128
}

/// The fetch time stored as RFC 3339 text, read as an instant; text that does not parse
/// counts as fetched at `now`.
pub open spec fn stored_fetch_time(text: Seq<char>, now: Timestamp) -> Timestamp {
    match rfc3339(text) {
        Some(t) => t,
        None => now,
    }
}

/// The fetch time of a cached enrichment, stored as RFC 3339 text, when the entry is
/// still fresh at `now` (fewer than `max_age_hours` whole hours old); `None` when it is
/// stale. Text that does not parse counts as fetched at `now`.
pub fn fresh_fetch_time(fetched_at: &str, now: Timestamp, max_age_hours: i64) -> (r: Option<Timestamp>)
    ensures
        r == (if whole_hours_between(stored_fetch_time(fetched_at@, now), now) < max_age_hours {
            Some(stored_fetch_time(fetched_at@, now))
        } else {
            None
        }),
{
    let fetched = match parse_rfc3339(fetched_at) {
        Some(t) => t,
        None => now,
    };
    if is_fresh(Some(fetched), now, max_age_hours) {
        Some(fetched)
    } else {
        None
    }
}

/// Hours that cached enrichment of a domain stays fresh, so that the domain is not
/// polled again within them.
pub const ENRICHMENT_MAX_AGE_HOURS: i64 = 24;

/// Whether a domain must be enriched afresh, given the fetch time of its cached
/// enrichment (stored as RFC 3339 text; `None` when nothing is cached): when nothing is
/// cached, or the cached entry is `max_age_hours` whole hours old or more at `now`.
pub fn needs_enrichment(cached_fetched_at: &Option<String>, now: Timestamp, max_age_hours: i64) -> (r: bool)
    ensures
        r == match cached_fetched_at {
            None => true,
            Some(t) => whole_hours_between(stored_fetch_time(t@, now), now) >= max_age_hours,
        },
{
    match cached_fetched_at {
        None => true,
        Some(t) => fresh_fetch_time(t.as_str(), now, max_age_hours).is_none(),
    }
}

/// Law: an entry stays fresh for exactly `max_age_hours` hours after it was fetched:
/// fresh while less time has passed (and while its fetch time lies ahead), stale from
/// then on.
pub proof fn lemma_fresh_window(fetched: Timestamp, now: Timestamp, max_age_hours: int)
    requires
        max_age_hours >= 1,
    ensures
        nanos_between(fetched, now) < max_age_hours * 3600 * 1000000000 ==> whole_hours_between(
            fetched,
            now,
        ) < max_age_hours,
        nanos_between(fetched, now) >= max_age_hours * 3600 * 1000000000 ==> whole_hours_between(
            fetched,
            now,
        ) >= max_age_hours,
{
    let n = nanos_between(fetched, now);
    if n < 0 {
        let s = (-n) / 1000000000;
        assert(s >= 0) by (nonlinear_arith)
            requires s == (-n) / 1000000000, -n > 0;
        let h = s / 3600;
        assert(h >= 0) by (nonlinear_arith)
            requires h == s / 3600, s >= 0;
        assert(div_toward_zero(n, 1000000000) == -s);
        if s == 0 {
            assert(div_toward_zero(-s, 3600) == 0);
        } else {
            assert(div_toward_zero(-s, 3600) == -h);
        }
    } else {
        let s = n / 1000000000;
        assert(s * 1000000000 <= n < (s + 1) * 1000000000) by (nonlinear_arith)
            requires s == n / 1000000000, n >= 0;
        let h = s / 3600;
        assert(h * 3600 <= s < (h + 1) * 3600) by (nonlinear_arith)
            requires h == s / 3600, s >= 0;
        assert(s >= 0) by (nonlinear_arith)
            requires s == n / 1000000000, n >= 0;
        if n < max_age_hours * 3600 * 1000000000 {
            assert(h < max_age_hours) by (nonlinear_arith)
                requires h * 3600 <= s, s * 1000000000 <= n, n < max_age_hours * 3600 * 1000000000;
        } else {
            assert(h >= max_age_hours) by (nonlinear_arith)
                requires s < (h + 1) * 3600, n < (s + 1) * 1000000000, n >= max_age_hours * 3600 * 1000000000;
        }
    }
}

} // verus!
