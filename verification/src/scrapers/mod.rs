//! Marketplace scrapers and the registry of the marketplaces that a search can use.
use vstd::prelude::*;

pub mod aftermarket_pl;
pub mod dropped_pl;
pub mod premium_pl;

use crate::text::chars_eq;
use crate::text::chars_of;

verus! {

/// Ids of the marketplaces that searches run against.
pub open spec fn registered_ids() -> Seq<Seq<char>> {
    seq!["aftermarket_pl"@]
}

/// Ids of the marketplaces that searches run against, in order.
pub fn registry() -> (r: Vec<String>)
    ensures
        r@.map_values(|s: String| s@) == registered_ids(),
{
    let mut r: Vec<String> = Vec::new();
    r.push(String::from_str("aftermarket_pl"));
    assert(r@.map_values(|s: String| s@) =~= registered_ids());
    r
}

/// A marketplace takes part in a search when no sources were named, or when its id
/// is one of them.
pub open spec fn selected(sources: Seq<Seq<char>>, id: Seq<char>) -> bool {
    sources.len() == 0 || sources.contains(id)
}

/// Whether the marketplace `id` takes part in a search over `sources`.
pub fn is_selected(sources: &Vec<String>, id: &String) -> (r: bool)
    ensures
        r == selected(sources@.map_values(|s: String| s@), id@),
{
    let ghost sv = sources@.map_values(|s: String| s@);
    if sources.len() == 0 {
        return true;
    }
    let idv = chars_of(id.as_str());
    let mut i: usize = 0;
    while i < sources.len()
        invariant
            i <= sources.len(),
            sv == sources@.map_values(|s: String| s@),
            idv@ == id@,
            forall|j: int| 0 <= j < i ==> sv[j] != id@,
        decreases sources.len() - i,
    {
        let sc = chars_of(sources[i].as_str());
        if chars_eq(&sc, &idv) {
            assert(sv[i as int] == id@);
            return true;
        }
        i += 1;
    }
    assert(!sv.contains(id@));
    false
}

/// The registered marketplaces that take part in a search over `sources`, in registry
/// order; all of them when `sources` is empty.
pub fn registry_for(sources: &Vec<String>) -> (r: Vec<String>)
    ensures
        r@.map_values(|s: String| s@) == registered_ids().filter(
            |id: Seq<char>| selected(sources@.map_values(|s: String| s@), id),
        ),
{
    let all = registry();
    let ghost sv = sources@.map_values(|s: String| s@);
    let ghost pred = |id: Seq<char>| selected(sv, id);
    let ghost av = all@.map_values(|s: String| s@);
    let mut r: Vec<String> = Vec::new();
    let mut i: usize = 0;
    while i < all.len()
        invariant
            i <= all.len(),
            av == all@.map_values(|s: String| s@),
            sv == sources@.map_values(|s: String| s@),
            pred == (|id: Seq<char>| selected(sv, id)),
            r@.map_values(|s: String| s@) == av.take(i as int).filter(pred),
        decreases all.len() - i,
    {
        proof {
            reveal_with_fuel(Seq::filter, 1);
            assert(av.take(i + 1).drop_last() == av.take(i as int));
        }
        let ghost before = r@;
        assert(av.take(i + 1).last() == all@[i as int]@);
        if is_selected(sources, &all[i]) {
            r.push(all[i].clone());
            assert(r@.map_values(|s: String| s@) =~= before.map_values(|s: String| s@).push(all@[i as int]@));
        }
        i += 1;
    }
    assert(av.take(all.len() as int) == av);
    r
}

/// Law: with no sources named, every registered marketplace takes part.
pub proof fn lemma_no_sources_selects_all(ids: Seq<Seq<char>>)
    ensures
        ids.filter(|id: Seq<char>| selected(Seq::<Seq<char>>::empty(), id)) == ids,
    decreases ids.len(),
{
    reveal_with_fuel(Seq::filter, 1);
    if ids.len() > 0 {
        lemma_no_sources_selects_all(ids.drop_last());
        assert(ids.drop_last().push(ids.last()) == ids);
    }
}

} // verus!
