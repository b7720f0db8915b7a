# aftermarket_hunter

A hunter for expiring domains on Polish aftermarket sites: it reads the search pages of
aftermarket.pl, enriches each domain with free signals (WHOIS age, Wayback history,
DNS blacklists, mail records, linguistic counts, a trademark guard, a TLD value table)
and scores it for one of three profiles.

- `src/` is the library, verified with Verus: page reading (prices, counts, dates,
  result rows, pagination), the enrichment rules, the whole-number scoring rules, the
  search pipeline's filters and de-duplication, CSV fields and cache freshness.
  `src/ext.rs` holds the trusted items: the calls into `regex`, `scraper`, `chrono` and
  the std functions that vstd does not specify, each with the contract it is believed
  to meet.
- `app/` is the code around it: HTTP, DNS, WHOIS over TCP, SQLite, rate limiting, the
  floating-point scores and the search loop that performs the library's decisions.
- `tests/` runs the library on concrete inputs.
