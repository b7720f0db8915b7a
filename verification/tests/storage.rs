use aftermarket_hunter::model::Timestamp;
use aftermarket_hunter::storage::{fresh_fetch_time, is_fresh, needs_enrichment, ENRICHMENT_MAX_AGE_HOURS};

const JAN_1_2024: i64 = 1_704_067_200;

fn at(secs: i64, nanos: u32) -> Timestamp {
    Timestamp { secs, nanos }
}

#[test]
fn cache_stays_fresh_for_whole_hours() {
    let fetched = at(JAN_1_2024, 0);
    assert!(is_fresh(Some(fetched), at(JAN_1_2024 + 23 * 3600 + 3599, 999_999_999), 24));
    assert!(!is_fresh(Some(fetched), at(JAN_1_2024 + 24 * 3600, 0), 24));
    assert!(!is_fresh(Some(fetched), at(JAN_1_2024 + 1, 0), 0));
    // A fetch time in the future counts as no time passed.
    assert!(is_fresh(Some(at(JAN_1_2024 + 7200, 0)), fetched, 1));
    // An unknown fetch time counts as just fetched.
    assert!(is_fresh(None, fetched, 1));
    assert!(!is_fresh(None, fetched, 0));
}

#[test]
fn cached_fetch_time_is_read_from_rfc3339() {
    let now = at(JAN_1_2024 + 3 * 3600, 0);
    let got = fresh_fetch_time("2024-01-01T00:00:00Z", now, 24).unwrap();
    assert_eq!((got.secs, got.nanos), (JAN_1_2024, 0));
    let got = fresh_fetch_time("2024-01-01T02:00:00+02:00", now, 24).unwrap();
    assert_eq!(got.secs, JAN_1_2024);
    assert!(fresh_fetch_time("2024-01-01T00:00:00Z", now, 3).is_none());
    let got = fresh_fetch_time("not a date", now, 1).unwrap();
    assert_eq!((got.secs, got.nanos), (now.secs, now.nanos));
}

#[test]
fn domain_enriched_within_a_day_is_not_polled_again() {
    assert_eq!(ENRICHMENT_MAX_AGE_HOURS, 24);
    let cached = Some("2024-01-01T00:00:00Z".to_string());
    let h = ENRICHMENT_MAX_AGE_HOURS;
    assert!(!needs_enrichment(&cached, at(JAN_1_2024 + 23 * 3600, 0), h));
    assert!(needs_enrichment(&cached, at(JAN_1_2024 + 24 * 3600, 0), h));
    assert!(needs_enrichment(&None, at(JAN_1_2024, 0), h));
    // A fetch time that does not parse counts as just fetched.
    assert!(!needs_enrichment(&Some("garbled".to_string()), at(JAN_1_2024, 0), h));
}
