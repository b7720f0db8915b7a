use aftermarket_hunter::enrichers::blacklist::query_hosts;
use aftermarket_hunter::enrichers::dns_quality::{dmarc_host, mx_probe_target, DnsQuality};
use aftermarket_hunter::enrichers::linguistic::{analyze_counts, length_score};
use aftermarket_hunter::enrichers::tld_value::score;
use aftermarket_hunter::enrichers::trademark::check;
use aftermarket_hunter::enrichers::wayback::summarize;
use aftermarket_hunter::enrichers::whois::{parse_created, parse_date, pick_server, referral};

#[test]
fn default_is_all_false() {
    let d = DnsQuality::default();
    assert!(!d.has_mx);
    assert!(!d.has_spf);
    assert!(!d.has_dmarc);
}

#[test]
fn flags_known_brand() {
    assert!(check("amazon-shop.pl").is_some());
    assert!(check("kawa-z-mleka.pl").is_none());
}

#[test]
fn trademark_warning_names_first_brand() {
    assert_eq!(
        check("Google-Amazon.pl"),
        Some("Potential trademark conflict: 'google'".to_string())
    );
    // Hyphens are removed before matching.
    assert_eq!(
        check("coca-cola-fan.pl"),
        Some("Potential trademark conflict: 'cocacola'".to_string())
    );
    // Only the first label is checked.
    assert!(check("kawa.google.pl").is_none());
}

#[test]
fn parses_dns_pl() {
    let raw = "DOMAIN NAME:           example.pl\ncreated:               2010.05.01 12:00:00\n";
    let created = parse_created(raw);
    assert!(created.is_some());
    let now = chrono::Utc::now().timestamp();
    let age_years = (now - created.unwrap().secs) as f32 / (365.25 * 86_400.0);
    assert!(age_years > 10.0);
}

#[test]
fn whois_creation_date_value() {
    let raw = "created:               2010.05.01 12:00:00\n";
    let t = parse_created(raw).unwrap();
    assert_eq!(t.secs, 1272672000); // 2010-05-01 00:00:00 UTC
    assert_eq!(t.nanos, 0);
    // Other keys, any case, CRLF line ends; the first dated line wins.
    let raw2 = "Registrar: X\r\nCreation Date: 2001-02-03T04:05:06Z\r\ncreated: 1999-01-01\r\n";
    assert_eq!(parse_created(raw2).unwrap().secs, 981173106);
    // A keyed line whose date does not parse is passed over.
    let raw3 = "created: soon\nregistered on: 31/12/1999\n";
    assert_eq!(parse_created(raw3).unwrap().secs, 946598400);
    assert!(parse_created("no dates here\n").is_none());
}

#[test]
fn whois_date_formats() {
    assert_eq!(parse_date("2020-01-02").unwrap().secs, 1577923200);
    assert_eq!(parse_date(" 02.01.2020 ").unwrap().secs, 1577923200);
    assert_eq!(parse_date("2020-01-02T00:00:00+01:00").unwrap().secs, 1577919600);
    assert!(parse_date("2020-1-2").is_none());
    assert!(parse_date("tomorrow").is_none());
}

#[test]
fn whois_servers() {
    assert_eq!(pick_server("kawa.pl"), "whois.dns.pl");
    assert_eq!(pick_server("kawa.com.pl"), "whois.dns.pl");
    assert_eq!(pick_server("kawa.com"), "whois.iana.org");
    assert_eq!(pick_server("kawa.io"), "whois.iana.org");
    assert_eq!(pick_server("kawa.de"), "whois.iana.org");
    assert_eq!(pick_server("kawa.plx"), "whois.iana.org");
}

#[test]
fn iana_referral_is_followed_once() {
    let iana = "% IANA WHOIS server\r\n\r\ndomain:       COM\r\n\r\norganisation: VeriSign\r\nrefer:        whois.verisign-grs.com\r\n";
    assert_eq!(referral("whois.iana.org", iana), Some("whois.verisign-grs.com".to_string()));
    // Only an answer from IANA is read for a referral.
    assert_eq!(referral("whois.verisign-grs.com", iana), None);
    assert_eq!(referral("whois.dns.pl", iana), None);
    // No referral line, or an empty one.
    assert_eq!(referral("whois.iana.org", "domain: XYZ\n"), None);
    assert_eq!(referral("whois.iana.org", "refer:   \nrefer: whois.nic.io\n"), Some("whois.nic.io".to_string()));
    assert_eq!(referral("whois.iana.org", "  refer:whois.nic.io"), Some("whois.nic.io".to_string()));
}

#[test]
fn tld_table() {
    assert_eq!(score("pl"), 100);
    assert_eq!(score("PL"), 100);
    assert_eq!(score("com.pl"), 80);
    assert_eq!(score("shop"), 50);
    assert_eq!(score("xyz"), 25);
}

#[test]
fn linguistic_counts() {
    let c = analyze_counts("Kawa.pl");
    assert_eq!(c.length, 4);
    assert!(!c.has_hyphen && !c.has_digit);
    assert_eq!(c.vowels, 2);
    assert_eq!(c.consonants, 2);
    assert_eq!(c.syllables, 2);
    let c = analyze_counts("seo-1234-pro.pl");
    assert!(c.has_hyphen && c.has_digit);
    assert_eq!(c.length, 12);
    assert_eq!(c.vowels, 3);
    assert_eq!(c.consonants, 3);
    assert_eq!(c.syllables, 2);
    let c = analyze_counts("żółw.pl");
    assert_eq!(c.vowels, 1);
    assert_eq!(c.consonants, 3);
}

#[test]
fn length_bands() {
    assert_eq!(length_score(0), 70);
    assert_eq!(length_score(3), 70);
    assert_eq!(length_score(4), 85);
    assert_eq!(length_score(5), 100);
    assert_eq!(length_score(8), 100);
    assert_eq!(length_score(9), 100);
    assert_eq!(length_score(10), 60);
    assert_eq!(length_score(12), 60);
    assert_eq!(length_score(15), 35);
    assert_eq!(length_score(16), 15);
    for n in 0..30 {
        assert!(length_score(n) <= length_score(7));
    }
}

#[test]
fn wayback_history() {
    let rows = vec![
        Some("timestamp".to_string()),
        Some("20100101000000".to_string()),
        None,
        Some("20200101000000".to_string()),
    ];
    let w = summarize(&rows);
    assert_eq!(w.snapshots, 2);
    assert_eq!(w.first.unwrap().secs, 1262304000);
    assert_eq!(w.last.unwrap().secs, 1577836800);
    let empty = summarize(&vec![Some("timestamp".to_string())]);
    assert_eq!(empty.snapshots, 0);
    assert!(empty.first.is_none() && empty.last.is_none());
    assert_eq!(summarize(&vec![]).snapshots, 0);
}

#[test]
fn dns_and_blacklist_names() {
    assert_eq!(mx_probe_target("kawa.pl"), "kawa.pl:25");
    assert_eq!(dmarc_host("kawa.pl"), "_dmarc.kawa.pl");
    let q = DnsQuality::from_lookups(true, "\"v=spf1 -all\"", "nothing");
    assert!(q.has_mx && q.has_spf && !q.has_dmarc);
    assert_eq!(
        query_hosts("kawa.pl"),
        vec!["kawa.pl.dbl.spamhaus.org", "kawa.pl.multi.surbl.org", "kawa.pl.uribl.com"]
    );
}
