//! DNS quality: a domain with mail set up (MX, SPF, DMARC) is likely a real, active one.
use vstd::prelude::*;

use crate::text::{chars_of, contains, contains_chars};

verus! {

/// Which mail records a domain has.
#[derive(Clone, Copy, Debug, PartialEq, Eq, Structural)]
pub struct DnsQuality {
    pub has_mx: bool,
    pub has_spf: bool,
    pub has_dmarc: bool,
}

impl Default for DnsQuality {
    /// Nothing known: no record.
    fn default() -> (r: Self)
        ensures
            !r.has_mx && !r.has_spf && !r.has_dmarc,
    {
        DnsQuality { has_mx: false, has_spf: false, has_dmarc: false }
    }
}

/// The address probed for a mail exchanger: the domain at the SMTP port.
pub fn mx_probe_target(domain: &str) -> (r: String)
    ensures
        r@ == domain@ + ":25"@,
{
    String::from_str(domain).concat(":25")
}

/// The name whose TXT records hold the DMARC policy.
pub fn dmarc_host(domain: &str) -> (r: String)
    ensures
        r@ == "_dmarc."@ + domain@,
{
    String::from_str("_dmarc.").concat(domain)
}

/// Marker of an SPF record.
pub const SPF_MARKER: &'static str = "v=spf1";

/// Marker of a DMARC record.
pub const DMARC_MARKER: &'static str = "v=DMARC1";

impl DnsQuality {
    /// The quality signals given the lookups: whether the mail probe resolved, and the
    /// TXT answers for the domain and for its DMARC name. SPF and DMARC count as present
    /// when their marker occurs in the answer.
    pub fn from_lookups(mx_resolves: bool, domain_txt: &str, dmarc_txt: &str) -> (r: DnsQuality)
        ensures
            r.has_mx == mx_resolves,
            r.has_spf == contains(domain_txt@, SPF_MARKER@),
            r.has_dmarc == contains(dmarc_txt@, DMARC_MARKER@),
    {
        let has_spf = contains_chars(&chars_of(domain_txt), &chars_of(SPF_MARKER));
        let has_dmarc = contains_chars(&chars_of(dmarc_txt), &chars_of(DMARC_MARKER));
        DnsQuality { has_mx: mx_resolves, has_spf, has_dmarc }
    }
}

} // verus!
