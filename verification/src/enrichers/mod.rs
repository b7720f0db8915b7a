//! Domain enrichers: the rules that turn what is known of a domain into signals.
pub mod blacklist;
pub mod dns_quality;
pub mod linguistic;
pub mod similarweb;
pub mod tld_value;
pub mod trademark;
pub mod wayback;
pub mod whois;
