//! Scoring rules with whole-number values: profile weights, the DNS quality score, the
//! risk penalty with its warnings, and the name terms that relevance compares.
use vstd::prelude::*;

use crate::ext::{lowercase, to_lowercase};
use crate::model::ScoringProfile;
use crate::text::{
    chars_of, contains, contains_chars, decimal, decimal_of, first_label, first_label_of,
    string_of, trim, trim_str,
};

verus! {

/// Weights of the three sub-scores, in percent.
#[derive(Clone, Copy, Debug, PartialEq, Eq, Structural)]
pub struct Weights {
    pub seo: u32,
    pub relevance: u32,
    pub value: u32,
}

/// The weights of a profile, in percent.
pub open spec fn weights_of(p: ScoringProfile) -> Weights {
    match p {
        ScoringProfile::SeoHunter => Weights { seo: 55, relevance: 15, value: 30 },
        ScoringProfile::BrandBuilder => Weights { seo: 15, relevance: 45, value: 40 },
        ScoringProfile::Bargain => Weights { seo: 30, relevance: 10, value: 60 },
    }
}

/// The weights of a profile, in percent: SEO Hunter leans on SEO, Brand Builder on
/// relevance, Bargain on value.
pub fn weights(profile: ScoringProfile) -> (r: Weights)
    ensures
        r == weights_of(profile),
{
    match profile {
        ScoringProfile::SeoHunter => Weights { seo: 55, relevance: 15, value: 30 },
        ScoringProfile::BrandBuilder => Weights { seo: 15, relevance: 45, value: 40 },
        ScoringProfile::Bargain => Weights { seo: 30, relevance: 10, value: 60 },
    }
}

/// Law: in every profile the weights add up to the whole (100%), so the weighted sum of
/// sub-scores in 0..100 stays in 0..100; and each profile weighs most what it is named for.
pub proof fn lemma_weights_whole(p: ScoringProfile)
    ensures
        weights_of(p).seo + weights_of(p).relevance + weights_of(p).value == 100,
        p == ScoringProfile::SeoHunter ==> weights_of(p).seo > weights_of(p).relevance
            && weights_of(p).seo > weights_of(p).value,
        p == ScoringProfile::BrandBuilder ==> weights_of(p).relevance > weights_of(p).seo
            && weights_of(p).relevance > weights_of(p).value,
        p == ScoringProfile::Bargain ==> weights_of(p).value > weights_of(p).seo
            && weights_of(p).value > weights_of(p).relevance,
{
}

/// DNS quality score: MX 40, SPF 30, DMARC 30.
pub open spec fn dns_points(has_mx: bool, has_spf: bool, has_dmarc: bool) -> int {
    (if has_mx { 40int } else { 0int }) + (if has_spf { 30int } else { 0int }) + (if has_dmarc {
        30int
    } else {
        0int
    })
}

/// DNS quality score from 0 to 100: configured mail suggests a legitimate domain.
pub fn dns_quality_score(has_mx: bool, has_spf: bool, has_dmarc: bool) -> (r: u32)
    ensures
        r == dns_points(has_mx, has_spf, has_dmarc),
        r <= 100,
{
    let mut s: u32 = 0;
    if has_mx {
        s += 40;
    }
    if has_spf {
        s += 30;
    }
    if has_dmarc {
        s += 30;
    }
    s
}

/// The names of the mail records present, in the order MX, SPF, DMARC, joined by `+`.
pub open spec fn dns_label(has_mx: bool, has_spf: bool, has_dmarc: bool) -> Seq<char> {
    let parts = seq!["MX"@, "SPF"@, "DMARC"@];
    let present = seq![has_mx, has_spf, has_dmarc];
    join_present(parts, present)
}

/// The parts whose flag is set, joined by `+`.
pub open spec fn join_present(parts: Seq<Seq<char>>, present: Seq<bool>) -> Seq<char>
    decreases parts.len(),
{
    if parts.len() == 0 || present.len() == 0 {
        Seq::empty()
    } else {
        let rest = join_present(parts.drop_last(), present.drop_last());
        if !present.last() {
            rest
        } else if rest.len() == 0 {
            parts.last()
        } else {
            rest + "+"@ + parts.last()
        }
    }
}

/// "MX+SPF+DMARC", or the part of it that is present; empty when no record is present.
pub fn dns_signal_label(has_mx: bool, has_spf: bool, has_dmarc: bool) -> (r: String)
    ensures
        r@ == dns_label(has_mx, has_spf, has_dmarc),
{
    let ghost parts = seq!["MX"@, "SPF"@, "DMARC"@];
    let ghost present = seq![has_mx, has_spf, has_dmarc];
    proof {
        reveal_with_fuel(join_present, 4);
        assert(parts.drop_last().drop_last().drop_last().len() == 0);
        assert(parts.drop_last().drop_last().last() == "MX"@);
        assert(parts.drop_last().last() == "SPF"@);
        assert(parts.last() == "DMARC"@);
        assert(present.drop_last().drop_last().last() == has_mx);
        assert(present.drop_last().last() == has_spf);
        assert(present.last() == has_dmarc);
        assert(present.drop_last().drop_last().drop_last().len() == 0);
    }
    let mut r = String::new();
    if has_mx {
        r = String::from_str("MX");
    }
    assert(r@ == join_present(parts.drop_last().drop_last(), present.drop_last().drop_last())) by {
        reveal_with_fuel(join_present, 2);
    }
    if has_spf {
        if r.as_str().is_empty() {
            r = String::from_str("SPF");
        } else {
            r = r.concat("+").concat("SPF");
        }
    }
    assert(r@ == join_present(parts.drop_last(), present.drop_last()));
    if has_dmarc {
        if r.as_str().is_empty() {
            r = String::from_str("DMARC");
        } else {
            r = r.concat("+").concat("DMARC");
        }
    }
    r
}

/// Worth added by configured mail: MX 50, SPF 30, DMARC 20.
pub fn dns_worth_bonus(has_mx: bool, has_spf: bool, has_dmarc: bool) -> (r: u32)
    ensures
        r == (if has_mx { 50int } else { 0int }) + (if has_spf { 30int } else { 0int }) + (
        if has_dmarc { 20int } else { 0int }),
{
    (if has_mx { 50 } else { 0 }) + (if has_spf { 30 } else { 0 }) + (if has_dmarc { 20 } else { 0 })
}

/// The ceiling of the risk penalty.
pub const MAX_RISK: u32 = 60;

/// The risk penalty: 25 for the first blacklist hit and 10 for each further one, 30 for
/// a trademark warning, 5 for a hyphen, 10 for a name longer than 18 characters; at most 60.
pub open spec fn risk_points(hits: u32, trademark: bool, has_hyphen: bool, length: u32) -> int {
    let raw = (if hits > 0 { 25 + 10 * (hits - 1) } else { 0 }) + (if trademark { 30int } else { 0int })
        + (if has_hyphen { 5int } else { 0int }) + (if length > 18 { 10int } else { 0int });
    if raw < 60 { raw } else { 60 }
}

/// The warnings that go with the risk penalty, in order: blacklist hits, the trademark
/// warning, a very long name.
pub open spec fn risk_notes(hits: u32, trademark: Option<Seq<char>>, length: u32) -> Seq<Seq<char>> {
    let a: Seq<Seq<char>> = if hits > 0 {
        seq!["⚠ Blacklist hits: "@ + decimal(hits as nat)]
    } else {
        Seq::empty()
    };
    let b: Seq<Seq<char>> = match trademark {
        Some(t) => seq!["⚠ "@ + t],
        None => Seq::empty(),
    };
    let c: Seq<Seq<char>> = if length > 18 { seq!["⚠ Very long name"@] } else { Seq::empty() };
    a + b + c
}

/// A risk penalty and the warnings that explain it.
pub struct RiskAssessment {
    pub penalty: u32,
    pub notes: Vec<String>,
}

/// The risk penalty of a domain and its warnings, from its blacklist hits, its
/// trademark warning, and whether its name has a hyphen or is longer than 18 characters.
pub fn risk_subscore(
    blacklist_hits: u32,
    trademark_warning: &Option<String>,
    has_hyphen: bool,
    length: u32,
) -> (r: RiskAssessment)
    ensures
        r.penalty == risk_points(blacklist_hits, trademark_warning is Some, has_hyphen, length),
        r.penalty <= MAX_RISK,
        r.notes@.map_values(|s: String| s@) == risk_notes(
            blacklist_hits,
            match trademark_warning {
                Some(t) => Some(t@),
                None => None,
            },
            length,
        ),
{
    let mut penalty: u64 = 0;
    let mut notes: Vec<String> = Vec::new();
    if blacklist_hits > 0 {
        penalty = 25 + 10 * (blacklist_hits as u64 - 1);
        let n = string_of(&decimal_of(blacklist_hits as u64));
        notes.push(String::from_str("⚠ Blacklist hits: ").concat(n.as_str()));
    }
    match trademark_warning {
        Some(t) => {
            penalty = penalty + 30;
            notes.push(String::from_str("⚠ ").concat(t.as_str()));
        },
        None => {},
    }
    if has_hyphen {
        penalty = penalty + 5;
    }
    if length > 18 {
        penalty = penalty + 10;
        notes.push(String::from_str("⚠ Very long name"));
    }
    assert(notes@.map_values(|s: String| s@) =~= risk_notes(
        blacklist_hits,
        match trademark_warning {
            Some(t) => Some(t@),
            None => None,
        },
        length,
    ));
    let capped: u32 = if penalty < 60 { penalty as u32 } else { 60 };
    RiskAssessment { penalty: capped, notes }
}

/// `a`, capped at the ceiling of the risk penalty.
pub open spec fn capped(a: int) -> int {
    if a < MAX_RISK { a } else { MAX_RISK as int }
}

/// Law: how each signal moves the risk penalty. A clean domain (no blacklist hit, no
/// trademark warning, no hyphen, at most 18 characters) has none; the first blacklist
/// hit adds 25 and each further hit 10; a trademark warning adds 30, a hyphen 5 and a
/// name longer than 18 characters 10; the penalty never exceeds 60.
pub proof fn lemma_risk_parts(hits: u32, trademark: bool, has_hyphen: bool, length: u32)
    ensures
        length <= 18 ==> risk_points(0, false, false, length) == 0,
        hits == 0 ==> risk_points(1, trademark, has_hyphen, length) == capped(
            risk_points(0, trademark, has_hyphen, length) + 25,
        ),
        hits >= 1 && hits < u32::MAX ==> risk_points((hits + 1) as u32, trademark, has_hyphen, length)
            == capped(risk_points(hits, trademark, has_hyphen, length) + 10),
        risk_points(hits, true, has_hyphen, length) == capped(
            risk_points(hits, false, has_hyphen, length) + 30,
        ),
        risk_points(hits, trademark, true, length) == capped(
            risk_points(hits, trademark, false, length) + 5,
        ),
        length > 18 ==> risk_points(hits, trademark, has_hyphen, length) == capped(
            risk_points(hits, trademark, has_hyphen, 0) + 10,
        ),
{
}

/// Law: more blacklist hits never lower the risk penalty, nor does a trademark warning,
/// a hyphen or a longer name.
pub proof fn lemma_risk_monotone(
    h1: u32,
    h2: u32,
    t1: bool,
    t2: bool,
    y1: bool,
    y2: bool,
    l1: u32,
    l2: u32,
)
    requires
        h1 <= h2,
        t1 ==> t2,
        y1 ==> y2,
        l1 <= l2,
    ensures
        risk_points(h1, t1, y1, l1) <= risk_points(h2, t2, y2, l2),
        0 <= risk_points(h1, t1, y1, l1) <= MAX_RISK,
{
}

/// The terms that name relevance compares: the domain's first label and the query
/// phrase (trimmed), both lower-cased, and whether the phrase occurs in the label.
pub struct RelevanceTerms {
    pub name: String,
    pub phrase: String,
    pub phrase_in_name: bool,
}

/// The terms that name relevance compares for `domain` and the query `phrase`.
pub fn relevance_terms(domain: &str, phrase: &str) -> (r: RelevanceTerms)
    ensures
        r.name@ == lowercase(first_label(domain@)),
        r.phrase@ == lowercase(trim(phrase@)),
        r.phrase_in_name == contains(r.name@, r.phrase@),
{
    let p = string_of(&trim_str(phrase));
    let phrase_l = to_lowercase(p.as_str());
    let label = string_of(&first_label_of(&chars_of(domain)));
    let name = to_lowercase(label.as_str());
    let inside = contains_chars(&chars_of(name.as_str()), &chars_of(phrase_l.as_str()));
    RelevanceTerms { name, phrase: phrase_l, phrase_in_name: inside }
}

} // verus!
