use aftermarket_hunter::model::AuctionType;
use aftermarket_hunter::scrapers::aftermarket_pl::{
    absolutize, extract_id_from_url, listing_from_row, normalize_currency, normalize_price,
    parse_datetime, parse_listings, parse_total, parse_u32, AftermarketPl, Pagination, RowFields,
};
use aftermarket_hunter::model::Timestamp;
use aftermarket_hunter::scrapers::{registry, registry_for};

#[test]
fn parses_total_count() {
    // Plain text
    assert_eq!(parse_total("z 98 obiektów"), Some(98));
    // With <strong> tags (actual aftermarket.pl HTML)
    assert_eq!(parse_total("z <strong>98</strong> obiektów"), Some(98));
    assert_eq!(parse_total("<div>no pagination</div>"), None);
}

#[test]
fn normalizes_polish_price() {
    assert_eq!(normalize_price("1 234,56").as_deref(), Some("1234.56"));
    assert_eq!(normalize_price("319.00").as_deref(), Some("319.00"));
    assert_eq!(normalize_price("12 000").as_deref(), Some("12000"));
    assert_eq!(normalize_price("250000.00").as_deref(), Some("250000.00"));
    assert_eq!(normalize_price(""), None);
    // The last separator is the decimal point when both appear.
    assert_eq!(normalize_price("1.234,5").as_deref(), Some("1234.5"));
    assert_eq!(normalize_price("1,234.56").as_deref(), Some("1234.56"));
    // Three digits after the last point: the points group thousands.
    assert_eq!(normalize_price("1.234.567").as_deref(), Some("1234567"));
    assert_eq!(normalize_price(" . "), None);
    for (text, value) in [("1 234,56", 1234.56), ("319.00", 319.0), ("12 000", 12000.0)] {
        let parsed: f64 = normalize_price(text).unwrap().parse().unwrap();
        assert_eq!(parsed, value);
    }
}

/// The number a price reads as: its plain decimal text, parsed.
fn price_value(s: &str) -> Option<f64> {
    normalize_price(s).and_then(|t| t.parse::<f64>().ok())
}

#[test]
fn parses_polish_price() {
    assert_eq!(price_value("1 234,56"), Some(1234.56));
    assert_eq!(price_value("319.00"), Some(319.0));
    assert_eq!(price_value("12 000"), Some(12000.0));
    assert_eq!(price_value("250000.00"), Some(250000.0));
    assert_eq!(price_value(""), None);
}

#[test]
fn parses_u32_like_std() {
    assert_eq!(parse_u32("98"), Some(98));
    assert_eq!(parse_u32("+7"), Some(7));
    assert_eq!(parse_u32("4294967295"), Some(4294967295));
    assert_eq!(parse_u32("4294967296"), None);
    assert_eq!(parse_u32(""), None);
    assert_eq!(parse_u32("+"), None);
    assert_eq!(parse_u32("1a"), None);
    for s in ["0", "12", "+3", "-1", "", "99999999999"] {
        assert_eq!(parse_u32(s), s.parse::<u32>().ok());
    }
}

#[test]
fn currencies_and_links() {
    assert_eq!(normalize_currency(" zł "), "PLN");
    assert_eq!(normalize_currency("ZL"), "PLN");
    assert_eq!(normalize_currency("eur"), "EUR");
    assert_eq!(absolutize("https://x.pl/a"), "https://x.pl/a");
    assert_eq!(absolutize("//cdn.pl/a"), "https://cdn.pl/a");
    assert_eq!(absolutize("/redir.php?id=5"), "https://www.aftermarket.pl/redir.php?id=5");
    assert_eq!(absolutize("redir.php"), "https://www.aftermarket.pl/redir.php");
    assert_eq!(
        extract_id_from_url("https://www.aftermarket.pl/redir.php?a=1&id=2677763&id=2677763"),
        Some("2677763".to_string())
    );
    assert_eq!(extract_id_from_url("https://www.aftermarket.pl/?domain=x.pl"), None);
}

#[test]
fn parses_page_datetimes() {
    assert_eq!(parse_datetime("2026-04-09 20:00:00").unwrap().secs, 1775764800);
    assert_eq!(parse_datetime("2026-04-09T20:00").unwrap().secs, 1775764800);
    assert!(parse_datetime("2026-13-09 20:00").is_none());
}

fn row(domain: Option<&str>, href: Option<&str>, strongs: &[&str], gavel: bool) -> RowFields {
    RowFields {
        domain_text: domain.map(|d| d.to_string()),
        data_id: Some("fallback.pl".to_string()),
        href: href.map(|h| h.to_string()),
        strong_texts: strongs.iter().map(|s| s.to_string()).collect(),
        has_gavel: gavel,
    }
}

#[test]
fn reads_listing_rows() {
    let now = Timestamp { secs: 1, nanos: 0 };
    let l = listing_from_row(
        &row(
            Some("  rowertour.pl "),
            Some("/redir.php?x=1&id=2677763"),
            &["8", "319.00 PLN", "2026-04-09 20:00:00"],
            true,
        ),
        now,
    )
    .unwrap();
    assert_eq!(l.domain, "rowertour.pl");
    assert_eq!(l.tld, "pl");
    assert_eq!(l.current_price.as_deref(), Some("319.00"));
    assert_eq!(l.currency, "PLN");
    assert!(matches!(l.auction_type, AuctionType::Auction));
    assert!(l.ends_at.is_some());
    assert_eq!(l.id, "aftermarket_pl:2677763");
    assert_eq!(l.url, "https://www.aftermarket.pl/redir.php?x=1&id=2677763");
    assert_eq!(l.marketplace, "aftermarket_pl");

    let l = listing_from_row(&row(Some("rower.com.pl"), None, &["250 000,00 EUR"], false), now).unwrap();
    assert_eq!(l.tld, "com.pl");
    assert_eq!(l.current_price.as_deref(), Some("250000.00"));
    assert_eq!(l.currency, "EUR");
    assert!(matches!(l.auction_type, AuctionType::BuyNow));
    assert_eq!(l.id, "aftermarket_pl:rower.com.pl");
    assert_eq!(l.url, "https://www.aftermarket.pl/?domain=rower.com.pl");
    assert!(l.ends_at.is_none());

    // The data-id stands in for a missing domain cell; rows without a dotted domain go.
    let l = listing_from_row(&row(None, None, &[], false), now).unwrap();
    assert_eq!(l.domain, "fallback.pl");
    assert_eq!(l.current_price, None);
    assert!(listing_from_row(&row(Some("nodot"), None, &[], false), now).is_none());
    assert!(listing_from_row(&row(Some("   "), None, &[], false), now).is_none());
}

#[test]
fn parses_documented_table_shape() {
    let html = r#"<html><body><table class="standardTable table toggle-item">
<tbody class="data" data-id="rowertour.pl">
<tr class="data featured" data-id="rowertour.pl">
<td><a class="table-link" href="https://www.aftermarket.pl/redir.php?a=b&id=2677763"><div class="text ellipsis"><span class="domain">rowertour.pl</span></div></a></td>
<td></td><td>8</td><td>325</td>
<td><strong>319.00 PLN</strong></td>
<td><i class="fa-gavel"></i></td>
<td><strong>2026-04-09 20:00:00</strong></td>
<td></td>
</tr>
<tr class="mobile-extra-row mobile"><td><span class="domain">rowertour.pl</span></td></tr>
</tbody>
<tbody class="data" data-id="rower.pl">
<tr class="data" data-id="rower.pl">
<td><a class="table-link" href="/redir.php?id=99"><span class="domain">rower.pl</span></a></td>
<td><strong>250 000.00 EUR</strong></td>
</tr>
</tbody>
</table></body></html>"#;
    let listings = parse_listings(html);
    assert_eq!(listings.len(), 2);
    assert_eq!(listings[0].domain, "rowertour.pl");
    assert_eq!(listings[0].current_price.as_deref(), Some("319.00"));
    assert_eq!(listings[0].id, "aftermarket_pl:2677763");
    assert!(matches!(listings[0].auction_type, AuctionType::Auction));
    assert!(listings[0].ends_at.is_some());
    assert_eq!(listings[1].domain, "rower.pl");
    assert_eq!(listings[1].currency, "EUR");
    assert_eq!(listings[1].current_price.as_deref(), Some("250000.00"));
    assert_eq!(listings[1].id, "aftermarket_pl:99");
    assert!(matches!(listings[1].auction_type, AuctionType::BuyNow));
    assert_eq!(listings[0].fetched_at, listings[1].fetched_at);
    assert!(parse_listings("<p>nothing</p>").is_empty());
}

#[test]
fn row_without_domain_cell_falls_back_to_data_id() {
    let html = r#"<table><tbody>
<tr class="data" data-id="bikeportal.pl"><td><strong>49 900 zł</strong></td><td><strong>2026-05-01T10:30</strong></td></tr>
<tr class="data" data-id="nodot"><td><strong>10 PLN</strong></td></tr>
<tr class="data"><td><span class="domain">nodataid.pl</span></td></tr>
</tbody></table>"#;
    let listings = parse_listings(html);
    assert_eq!(listings.len(), 1);
    let l = &listings[0];
    assert_eq!(l.domain, "bikeportal.pl");
    assert_eq!(l.tld, "pl");
    assert_eq!(l.current_price.as_deref(), Some("49900"));
    assert_eq!(l.currency, "PLN");
    assert_eq!(l.url, "https://www.aftermarket.pl/?domain=bikeportal.pl");
    assert_eq!(l.id, "aftermarket_pl:bikeportal.pl");
    assert_eq!(l.marketplace, "aftermarket_pl");
    assert!(l.buy_now_price.is_none());
    assert!(matches!(l.auction_type, AuctionType::BuyNow));
    let ends = l.ends_at.unwrap();
    assert_eq!(ends.secs, 1_777_631_400);
}

#[test]
fn pagination_stops_at_count_empty_page_or_limit() {
    // 98 listings: pages at 0, 30, 60, 90; the fourth page ends the search.
    let mut p = Pagination::new();
    assert_eq!((p.page, p.start), (1, 0));
    assert!(p.advance(Some(98), 30));
    assert_eq!(p.total_pages(), Some(4));
    assert!(p.advance(None, 30));
    assert!(p.advance(Some(5), 30));
    assert_eq!(p.total, Some(98));
    assert_eq!((p.page, p.start), (4, 90));
    assert!(!p.advance(None, 8));

    // An empty page ends it at once.
    let mut p = Pagination::new();
    assert!(!p.advance(None, 0));

    // A first page that states no count is the only page fetched.
    let mut p = Pagination::new();
    assert!(!p.advance(None, 30));
    assert_eq!((p.page, p.start, p.total), (1, 0, None));

    // A count beyond 1500 listings: at most 50 pages.
    let mut p = Pagination::new();
    let mut fetched = 1;
    while p.advance(Some(10_000), 30) {
        fetched += 1;
    }
    assert_eq!(fetched, 50);
    assert_eq!(p.start, 30 * 49);

    let mut p = Pagination::new();
    p.total = Some(u32::MAX);
    assert_eq!(p.total_pages(), Some(143165577));
}

#[test]
fn marketplace_registry() {
    let m = AftermarketPl;
    assert_eq!(m.id(), "aftermarket_pl");
    assert_eq!(m.label(), "aftermarket.pl");
    assert_eq!(m.rps(), 1);
    assert_eq!(registry(), vec!["aftermarket_pl".to_string()]);
    assert_eq!(registry_for(&vec![]), vec!["aftermarket_pl".to_string()]);
    assert_eq!(registry_for(&vec!["premium_pl".to_string()]), Vec::<String>::new());
    assert_eq!(
        registry_for(&vec!["premium_pl".to_string(), "aftermarket_pl".to_string()]),
        vec!["aftermarket_pl".to_string()]
    );
}
