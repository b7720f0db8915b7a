//! Blacklists: the DNS names under which well-known domain blacklists list a domain.
use vstd::prelude::*;

verus! {

/// The blacklists consulted, in order.
pub open spec fn dnsbls() -> Seq<Seq<char>> {
    seq!["dbl.spamhaus.org"@, "multi.surbl.org"@, "uribl.com"@]
}

/// The names to resolve for `domain`, one per blacklist: `<domain>.<blacklist>`.
/// A name that resolves means the domain is listed there.
pub fn query_hosts(domain: &str) -> (r: Vec<String>)
    ensures
        r.len() == dnsbls().len(),
        forall|i: int| 0 <= i < r.len() ==> (#[trigger] r@[i])@ == domain@ + "."@ + dnsbls()[i],
{
    let mut r: Vec<String> = Vec::new();
    r.push(String::from_str(domain).concat(".").concat("dbl.spamhaus.org"));
    r.push(String::from_str(domain).concat(".").concat("multi.surbl.org"));
    r.push(String::from_str(domain).concat(".").concat("uribl.com"));
    r
}

} // verus!
