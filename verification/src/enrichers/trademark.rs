//! A small watchlist of protected brands: flags an obvious infringement risk so that
//! the user can think twice before bidding.
use vstd::prelude::*;

use crate::ext::{lowercase, to_lowercase};
use crate::text::{
    chars_of, contains, contains_chars, first_label, first_label_of, remove_char,
    remove_char_of, string_of,
};

verus! {

/// The protected brands, in the order they are checked.
pub open spec fn protected() -> Seq<Seq<char>> {
    seq![
        "google"@, "youtube"@, "facebook"@, "instagram"@, "tiktok"@, "twitter"@, "x.com"@,
        "amazon"@, "apple"@, "microsoft"@, "netflix"@, "spotify"@, "tesla"@, "nike"@,
        "adidas"@, "samsung"@, "huawei"@, "sony"@,
        "allegro"@, "olx"@, "empik"@, "biedronka"@, "lidl"@, "orlen"@, "pkn"@, "pko"@,
        "mbank"@, "ing"@, "santander"@, "millennium"@, "interia"@, "wp"@, "onet"@,
        "coca-cola"@, "cocacola"@, "nestle"@, "ikea"@,
    ]
}

fn protected_brands() -> (r: Vec<&'static str>)
    ensures
        r@.map_values(|b: &str| b@) == protected(),
{
    let r = vec![
        "google", "youtube", "facebook", "instagram", "tiktok", "twitter", "x.com",
        "amazon", "apple", "microsoft", "netflix", "spotify", "tesla", "nike",
        "adidas", "samsung", "huawei", "sony",
        "allegro", "olx", "empik", "biedronka", "lidl", "orlen", "pkn", "pko",
        "mbank", "ing", "santander", "millennium", "interia", "wp", "onet",
        "coca-cola", "cocacola", "nestle", "ikea",
    ];
    assert(r@.map_values(|b: &str| b@) =~= protected());
    r
}

/// The name that is checked: the domain's first label, lower-cased, without hyphens.
pub open spec fn checked_name(domain: Seq<char>) -> Seq<char> {
    remove_char(lowercase(first_label(domain)), '-')
}

/// The first of `brands` that occurs in `name`.
pub open spec fn first_brand_in(name: Seq<char>, brands: Seq<Seq<char>>) -> Option<Seq<char>>
    decreases brands.len(),
{
    if brands.len() == 0 {
        None
    } else if contains(name, brands[0]) {
        Some(brands[0])
    } else {
        first_brand_in(name, brands.drop_first())
    }
}

/// The warning for a conflict with `brand`.
pub open spec fn warning_for(brand: Seq<char>) -> Seq<char> {
    "Potential trademark conflict: '"@ + brand + "'"@
}

/// A warning naming the first protected brand that the domain's name contains
/// (first label, lower-cased, hyphens removed), or `None` when it contains none.
pub fn check(domain: &str) -> (r: Option<String>)
    ensures
        r matches Some(w) ==> first_brand_in(checked_name(domain@), protected()) matches Some(b)
            && w@ == warning_for(b),
        r is None ==> first_brand_in(checked_name(domain@), protected()) is None,
{
    let label = string_of(&first_label_of(&chars_of(domain)));
    let lower = to_lowercase(label.as_str());
    let name = remove_char_of(&chars_of(lower.as_str()), '-');
    let brands = protected_brands();
    let ghost all = protected();
    let mut i: usize = 0;
    assert(all.skip(0) == all);
    while i < brands.len()
        invariant
            i <= brands.len(),
            brands@.map_values(|b: &str| b@) == all,
            all == protected(),
            name@ == checked_name(domain@),
            first_brand_in(name@, all) == first_brand_in(name@, all.skip(i as int)),
        decreases brands.len() - i,
    {
        let b = chars_of(brands[i]);
        proof {
            assert(all.skip(i as int)[0] == brands@[i as int]@);
            assert(all.skip(i as int).drop_first() == all.skip(i + 1));
        }
        if contains_chars(&name, &b) {
            let w = String::from_str("Potential trademark conflict: '").concat(brands[i]).concat("'");
            return Some(w);
        }
        i += 1;
    }
    assert(all.skip(brands.len() as int).len() == 0);
    None
}

/// Law: a name is flagged exactly when it contains one of the protected brands google,
/// youtube, facebook, instagram, tiktok, twitter, x.com, amazon, apple, microsoft,
/// netflix, spotify, tesla, nike, adidas, samsung, huawei, sony, allegro, olx, empik,
/// biedronka, lidl, orlen, pkn, pko, mbank, ing, santander, millennium, interia, wp,
/// onet, coca-cola, cocacola, nestle, ikea; the brand named is one it contains, and a
/// name containing "google", the first of them, is always flagged for it.
pub proof fn lemma_watchlist(name: Seq<char>)
    ensures
        first_brand_in(name, protected()) is Some <==> (
            contains(name, "google"@)
            || contains(name, "youtube"@)
            || contains(name, "facebook"@)
            || contains(name, "instagram"@)
            || contains(name, "tiktok"@)
            || contains(name, "twitter"@)
            || contains(name, "x.com"@)
            || contains(name, "amazon"@)
            || contains(name, "apple"@)
            || contains(name, "microsoft"@)
            || contains(name, "netflix"@)
            || contains(name, "spotify"@)
            || contains(name, "tesla"@)
            || contains(name, "nike"@)
            || contains(name, "adidas"@)
            || contains(name, "samsung"@)
            || contains(name, "huawei"@)
            || contains(name, "sony"@)
            || contains(name, "allegro"@)
            || contains(name, "olx"@)
            || contains(name, "empik"@)
            || contains(name, "biedronka"@)
            || contains(name, "lidl"@)
            || contains(name, "orlen"@)
            || contains(name, "pkn"@)
            || contains(name, "pko"@)
            || contains(name, "mbank"@)
            || contains(name, "ing"@)
            || contains(name, "santander"@)
            || contains(name, "millennium"@)
            || contains(name, "interia"@)
            || contains(name, "wp"@)
            || contains(name, "onet"@)
            || contains(name, "coca-cola"@)
            || contains(name, "cocacola"@)
            || contains(name, "nestle"@)
            || contains(name, "ikea"@)),
        first_brand_in(name, protected()) matches Some(b) ==> contains(name, b),
        contains(name, "google"@) ==> first_brand_in(name, protected()) == Some("google"@),
{
    lemma_flagged_iff_brand_contained(name, protected());
    if contains(name, "google"@) { assert(protected()[0] == "google"@); }
    if contains(name, "youtube"@) { assert(protected()[1] == "youtube"@); }
    if contains(name, "facebook"@) { assert(protected()[2] == "facebook"@); }
    if contains(name, "instagram"@) { assert(protected()[3] == "instagram"@); }
    if contains(name, "tiktok"@) { assert(protected()[4] == "tiktok"@); }
    if contains(name, "twitter"@) { assert(protected()[5] == "twitter"@); }
    if contains(name, "x.com"@) { assert(protected()[6] == "x.com"@); }
    if contains(name, "amazon"@) { assert(protected()[7] == "amazon"@); }
    if contains(name, "apple"@) { assert(protected()[8] == "apple"@); }
    if contains(name, "microsoft"@) { assert(protected()[9] == "microsoft"@); }
    if contains(name, "netflix"@) { assert(protected()[10] == "netflix"@); }
    if contains(name, "spotify"@) { assert(protected()[11] == "spotify"@); }
    if contains(name, "tesla"@) { assert(protected()[12] == "tesla"@); }
    if contains(name, "nike"@) { assert(protected()[13] == "nike"@); }
    if contains(name, "adidas"@) { assert(protected()[14] == "adidas"@); }
    if contains(name, "samsung"@) { assert(protected()[15] == "samsung"@); }
    if contains(name, "huawei"@) { assert(protected()[16] == "huawei"@); }
    if contains(name, "sony"@) { assert(protected()[17] == "sony"@); }
    if contains(name, "allegro"@) { assert(protected()[18] == "allegro"@); }
    if contains(name, "olx"@) { assert(protected()[19] == "olx"@); }
    if contains(name, "empik"@) { assert(protected()[20] == "empik"@); }
    if contains(name, "biedronka"@) { assert(protected()[21] == "biedronka"@); }
    if contains(name, "lidl"@) { assert(protected()[22] == "lidl"@); }
    if contains(name, "orlen"@) { assert(protected()[23] == "orlen"@); }
    if contains(name, "pkn"@) { assert(protected()[24] == "pkn"@); }
    if contains(name, "pko"@) { assert(protected()[25] == "pko"@); }
    if contains(name, "mbank"@) { assert(protected()[26] == "mbank"@); }
    if contains(name, "ing"@) { assert(protected()[27] == "ing"@); }
    if contains(name, "santander"@) { assert(protected()[28] == "santander"@); }
    if contains(name, "millennium"@) { assert(protected()[29] == "millennium"@); }
    if contains(name, "interia"@) { assert(protected()[30] == "interia"@); }
    if contains(name, "wp"@) { assert(protected()[31] == "wp"@); }
    if contains(name, "onet"@) { assert(protected()[32] == "onet"@); }
    if contains(name, "coca-cola"@) { assert(protected()[33] == "coca-cola"@); }
    if contains(name, "cocacola"@) { assert(protected()[34] == "cocacola"@); }
    if contains(name, "nestle"@) { assert(protected()[35] == "nestle"@); }
    if contains(name, "ikea"@) { assert(protected()[36] == "ikea"@); }
    if first_brand_in(name, protected()) is Some {
        let i = choose|i: int| 0 <= i < protected().len() && contains(name, #[trigger] protected()[i]);
        assert(contains(name, protected()[i]));
    }
}

/// Law: a domain is flagged exactly when its checked name contains a protected brand,
/// and the brand named is one that it contains.
pub proof fn lemma_flagged_iff_brand_contained(name: Seq<char>, brands: Seq<Seq<char>>)
    ensures
        first_brand_in(name, brands) is Some <==> exists|i: int|
            0 <= i < brands.len() && contains(name, #[trigger] brands[i]),
        first_brand_in(name, brands) matches Some(b) ==> brands.contains(b) && contains(name, b),
    decreases brands.len(),
{
    if brands.len() > 0 {
        let rest = brands.drop_first();
        lemma_flagged_iff_brand_contained(name, rest);
        if !contains(name, brands[0]) {
            assert forall|i: int| 0 <= i < brands.len() && contains(name, #[trigger] brands[i])
                implies exists|k: int| 0 <= k < rest.len() && contains(name, #[trigger] rest[k]) by {
                assert(rest[i - 1] == brands[i]);
            }
            assert forall|k: int| 0 <= k < rest.len() && contains(name, #[trigger] rest[k])
                implies exists|i: int| 0 <= i < brands.len() && contains(name, #[trigger] brands[i]) by {
                assert(rest[k] == brands[k + 1]);
            }
            if first_brand_in(name, rest) is Some {
                let b = first_brand_in(name, rest)->0;
                let k = choose|k: int| 0 <= k < rest.len() && rest[k] == b;
                assert(brands[k + 1] == b);
            }
        } else {
            assert(brands.contains(brands[0]));
        }
    }
}

} // verus!
