//! The search pipeline's decisions: which listings pass the query's filters, and which
//! listing stands for each domain when several marketplaces offer it.
use vstd::prelude::*;

use crate::scrapers::{is_selected, selected};
use crate::text::{chars_eq, chars_of};

verus! {

/// Runs searches: scrape, filter, keep one listing per domain, enrich, score, rank.
pub struct Pipeline;

impl Pipeline {
    /// A pipeline; it holds no state.
    pub fn new() -> (r: Pipeline) {
        Pipeline
    }
}

/// Whether a listing's TLD passes the query's TLD filter: any TLD when the filter is
/// empty, else one of the listed ones.
pub fn tld_allowed(tlds: &Vec<String>, tld: &String) -> (r: bool)
    ensures
        r == selected(tlds@.map_values(|s: String| s@), tld@),
{
    is_selected(tlds, tld)
}

/// Whether a result passes the minimum-snapshot filter: always when the query sets no
/// minimum, else only when the snapshot count is known and reaches it.
pub fn meets_min_snapshots(min: Option<u32>, snapshots: Option<u32>) -> (r: bool)
    ensures
        r == match min {
            None => true,
            Some(m) => snapshots matches Some(s) && s >= m,
        },
{
    match min {
        None => true,
        Some(m) => match snapshots {
            Some(s) => s >= m,
            None => false,
        },
    }
}

/// Entry `i` is the first entry with its value.
pub open spec fn is_first(ds: Seq<Seq<char>>, i: int) -> bool {
    forall|j: int| 0 <= j < i ==> ds[j] != ds[i]
}

/// `x` is one of the values in `seen`.
spec fn in_seen(seen: Seq<Vec<char>>, x: Seq<char>) -> bool {
    exists|k: int| 0 <= k < seen.len() && (#[trigger] seen[k])@ == x
}

/// For each listing (given by its domain, in order), whether it is kept: the first
/// listing of each domain is kept, later ones with the same domain are dropped.
pub fn first_occurrences(domains: &Vec<String>) -> (r: Vec<bool>)
    ensures
        r.len() == domains.len(),
        forall|i: int| 0 <= i < r.len() ==> r@[i] == is_first(
            domains@.map_values(|s: String| s@),
            i,
        ),
{
    let ghost ds = domains@.map_values(|s: String| s@);
    let mut seen: Vec<Vec<char>> = Vec::new();
    let mut r: Vec<bool> = Vec::new();
    let mut i: usize = 0;
    while i < domains.len()
        invariant
            i <= domains.len(),
            ds == domains@.map_values(|s: String| s@),
            r.len() == i,
            forall|k: int| 0 <= k < i ==> r@[k] == is_first(ds, k),
            forall|k: int| 0 <= k < seen.len() ==> exists|j: int| 0 <= j < i && ds[j] == (#[trigger] seen@[k])@,
            forall|j: int| 0 <= j < i ==> in_seen(seen@, #[trigger] ds[j]),
        decreases domains.len() - i,
    {
        let d = chars_of(domains[i].as_str());
        let mut found = false;
        let mut k: usize = 0;
        while k < seen.len()
            invariant
                k <= seen.len(),
                d@ == ds[i as int],
                found == exists|m: int| 0 <= m < k && (#[trigger] seen@[m])@ == d@,
            decreases seen.len() - k,
        {
            if chars_eq(&seen[k], &d) {
                found = true;
            }
            k += 1;
        }
        proof {
            if found {
                let m = choose|m: int| 0 <= m < k && (#[trigger] seen@[m])@ == d@;
                let j = choose|j: int| 0 <= j < i && ds[j] == (#[trigger] seen@[m])@;
                assert(ds[j] == ds[i as int]);
                assert(!is_first(ds, i as int));
            } else {
                assert forall|j: int| 0 <= j < i implies ds[j] != ds[i as int] by {
                    assert(in_seen(seen@, ds[j]));
                    let m = choose|m: int| 0 <= m < seen.len() && (#[trigger] seen@[m])@ == ds[j];
                    assert(seen@[m]@ != d@);
                }
            }
        }
        r.push(!found);
        if !found {
            let ghost before = seen@;
            seen.push(d);
            proof {
                assert forall|j: int| 0 <= j < i + 1 implies in_seen(seen@, #[trigger] ds[j]) by {
                    if j == i {
                        assert(seen@[seen.len() - 1]@ == ds[j]);
                    } else {
                        assert(in_seen(before, ds[j]));
                        let m = choose|m: int| 0 <= m < before.len() && (#[trigger] before[m])@ == ds[j];
                        assert(seen@[m] == before[m]);
                    }
                }
                assert forall|k: int| 0 <= k < seen.len() implies exists|j: int| 0 <= j < i + 1 && ds[j] == (#[trigger] seen@[k])@ by {
                    if k == seen.len() - 1 {
                        assert(ds[i as int] == seen@[k]@);
                    } else {
                        assert(seen@[k] == before[k]);
                    }
                }
            }
        }
        i += 1;
    }
    r
}

/// Some entry at or before `i` is the first one with the value of entry `i`.
pub open spec fn has_kept_representative(ds: Seq<Seq<char>>, i: int) -> bool {
    exists|j: int| 0 <= j <= i && #[trigger] is_first(ds, j) && ds[j] == ds[i]
}

/// Law: the kept listings have pairwise different domains, and every domain of the input
/// is the domain of a kept listing that comes no later than it.
pub proof fn lemma_dedupe(ds: Seq<Seq<char>>)
    ensures
        forall|i: int, k: int| 0 <= i < k < ds.len() && is_first(ds, i) && is_first(ds, k)
            ==> ds[i] != ds[k],
        forall|i: int| 0 <= i < ds.len() ==> #[trigger] has_kept_representative(ds, i),
{
    assert forall|i: int| 0 <= i < ds.len() implies #[trigger] has_kept_representative(ds, i) by {
        lemma_first_of(ds, i);
    }
}

proof fn lemma_first_of(ds: Seq<Seq<char>>, i: int)
    requires
        0 <= i < ds.len(),
    ensures
        has_kept_representative(ds, i),
    decreases i,
{
    if !is_first(ds, i) {
        let j = choose|j: int| 0 <= j < i && ds[j] == ds[i];
        lemma_first_of(ds, j);
        let m = choose|m: int| 0 <= m <= j && #[trigger] is_first(ds, m) && ds[m] == ds[j];
        assert(0 <= m <= i && is_first(ds, m) && ds[m] == ds[i]);
    } else {
        assert(0 <= i <= i && is_first(ds, i) && ds[i] == ds[i]);
    }
}

} // verus!
