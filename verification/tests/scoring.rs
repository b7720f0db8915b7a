use aftermarket_hunter::commands::csv_escape;
use aftermarket_hunter::model::{ScoreTier, ScoringProfile};
use aftermarket_hunter::pipeline::{first_occurrences, meets_min_snapshots, tld_allowed, Pipeline};
use aftermarket_hunter::scoring::{
    dns_quality_score, dns_signal_label, dns_worth_bonus, relevance_terms, risk_subscore, weights,
};

#[test]
fn profile_weights() {
    for p in [ScoringProfile::SeoHunter, ScoringProfile::BrandBuilder, ScoringProfile::Bargain] {
        let w = weights(p);
        assert_eq!(w.seo + w.relevance + w.value, 100);
    }
    let w = weights(ScoringProfile::default());
    assert_eq!((w.seo, w.relevance, w.value), (55, 15, 30));
    let w = weights(ScoringProfile::Bargain);
    assert_eq!((w.seo, w.relevance, w.value), (30, 10, 60));
}

#[test]
fn tiers() {
    assert_eq!(ScoreTier::from_total(80), ScoreTier::Excellent);
    assert_eq!(ScoreTier::from_total(79), ScoreTier::Good);
    assert_eq!(ScoreTier::from_total(60), ScoreTier::Good);
    assert_eq!(ScoreTier::from_total(59), ScoreTier::Fair);
    assert_eq!(ScoreTier::from_total(40), ScoreTier::Fair);
    assert_eq!(ScoreTier::from_total(39), ScoreTier::Poor);
    assert_eq!(ScoreTier::from_total(-5), ScoreTier::Poor);
}

#[test]
fn dns_signals() {
    assert_eq!(dns_quality_score(true, true, true), 100);
    assert_eq!(dns_quality_score(true, false, false), 40);
    assert_eq!(dns_quality_score(false, false, false), 0);
    assert_eq!(dns_signal_label(true, false, true), "MX+DMARC");
    assert_eq!(dns_signal_label(false, true, false), "SPF");
    assert_eq!(dns_signal_label(false, false, false), "");
    assert_eq!(dns_worth_bonus(true, true, true), 100);
    assert_eq!(dns_worth_bonus(false, true, false), 30);
}

#[test]
fn risk_penalties() {
    // Two blacklist hits, a trademark warning and a hyphen: 35 + 30 + 5, capped at 60.
    let r = risk_subscore(2, &Some("amazon".to_string()), true, 13);
    assert_eq!(r.penalty, 60);
    assert_eq!(r.notes, vec!["⚠ Blacklist hits: 2".to_string(), "⚠ amazon".to_string()]);
    let r = risk_subscore(0, &None, true, 19);
    assert_eq!(r.penalty, 15);
    assert_eq!(r.notes, vec!["⚠ Very long name".to_string()]);
    let r = risk_subscore(1, &None, false, 4);
    assert_eq!(r.penalty, 25);
    assert_eq!(risk_subscore(u32::MAX, &None, false, 0).penalty, 60);
    assert_eq!(risk_subscore(0, &None, false, 18).penalty, 0);
}

#[test]
fn relevance_name_terms() {
    let t = relevance_terms("Kawa.pl", "  KAWA ");
    assert_eq!(t.name, "kawa");
    assert_eq!(t.phrase, "kawa");
    assert!(t.phrase_in_name);
    let t = relevance_terms("rowertour.pl", "tour");
    assert!(t.phrase_in_name);
    let t = relevance_terms("rowertour.pl", "bike");
    assert!(!t.phrase_in_name);
}

#[test]
fn pipeline_filters() {
    let _p = Pipeline::new();
    let tlds = vec!["pl".to_string()];
    assert!(tld_allowed(&tlds, &"pl".to_string()));
    assert!(!tld_allowed(&tlds, &"com".to_string()));
    assert!(tld_allowed(&vec![], &"com".to_string()));
    assert!(meets_min_snapshots(None, None));
    assert!(meets_min_snapshots(Some(10), Some(10)));
    assert!(!meets_min_snapshots(Some(10), Some(9)));
    assert!(!meets_min_snapshots(Some(10), None));
}

#[test]
fn dedupe_keeps_first_listing_per_domain() {
    let ds: Vec<String> = ["a.pl", "b.pl", "a.pl", "c.pl", "b.pl"].iter().map(|s| s.to_string()).collect();
    assert_eq!(first_occurrences(&ds), vec![true, true, false, true, false]);
    assert!(first_occurrences(&vec![]).is_empty());
}

#[test]
fn csv_fields() {
    assert_eq!(csv_escape("kawa.pl"), "kawa.pl");
    assert_eq!(csv_escape("a,b"), "\"a,b\"");
    assert_eq!(csv_escape("say \"hi\""), "\"say \"\"hi\"\"\"");
    assert_eq!(csv_escape("line\nbreak"), "\"line\nbreak\"");
}
