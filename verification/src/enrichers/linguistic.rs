//! Linguistic analysis of a domain name: the counts that brandability and
//! pronounceability are built from, and the length bands of brandability (sweet spot
//! 5 to 9 characters).
use vstd::prelude::*;

use crate::ext::{alphabetic, is_alphabetic, lowercase, to_lowercase};
use crate::text::{chars_of, first_label, first_label_of, is_digit, string_of};

verus! {

/// A vowel, Polish ones included: a e i o u y ą ę ó.
pub open spec fn is_vowel(c: char) -> bool {
    c == 'a' || c == 'e' || c == 'i' || c == 'o' || c == 'u' || c == 'y' || c == 'ą'
        || c == 'ę' || c == 'ó'
}

fn vowel(c: char) -> (r: bool)
    ensures
        r == is_vowel(c),
{
    c == 'a' || c == 'e' || c == 'i' || c == 'o' || c == 'u' || c == 'y' || c == 'ą'
        || c == 'ę' || c == 'ó'
}

/// Number of characters of `s` that satisfy `p`.
pub open spec fn count_where(s: Seq<char>, p: spec_fn(char) -> bool) -> nat
    decreases s.len(),
{
    if s.len() == 0 {
        0
    } else {
        count_where(s.drop_last(), p) + if p(s.last()) { 1nat } else { 0nat }
    }
}

/// Letters that are vowels.
pub open spec fn vowel_letter() -> spec_fn(char) -> bool {
    |c: char| alphabetic(c) && is_vowel(c)
}

/// Letters that are not vowels.
pub open spec fn consonant_letter() -> spec_fn(char) -> bool {
    |c: char| alphabetic(c) && !is_vowel(c)
}

/// Number of groups of consecutive vowels: a naive syllable count.
pub open spec fn vowel_groups(s: Seq<char>) -> nat
    decreases s.len(),
{
    if s.len() == 0 {
        0
    } else {
        let rest = s.drop_last();
        vowel_groups(rest) + if is_vowel(s.last()) && (rest.len() == 0 || !is_vowel(rest.last())) {
            1nat
        } else {
            0nat
        }
    }
}

/// The name that is analysed: the domain's first label, lower-cased.
pub open spec fn analysed_name(domain: Seq<char>) -> Seq<char> {
    lowercase(first_label(domain))
}

/// The counts that the linguistic scores are built from.
pub struct NameCounts {
    /// Characters in the name.
    pub length: u32,
    pub has_hyphen: bool,
    pub has_digit: bool,
    /// Letters that are vowels.
    pub vowels: u32,
    /// Letters that are not vowels.
    pub consonants: u32,
    /// Groups of consecutive vowels.
    pub syllables: u32,
}

/// The counts of a name. Counts beyond `u32::MAX` wrap, as a `u32` cast does.
pub open spec fn counts_match(c: NameCounts, n: Seq<char>) -> bool {
    &&& c.length == n.len() as u32
    &&& c.has_hyphen == n.contains('-')
    &&& c.has_digit == (exists|i: int| 0 <= i < n.len() && is_digit(#[trigger] n[i]))
    &&& c.vowels == count_where(n, vowel_letter()) as u32
    &&& c.consonants == count_where(n, consonant_letter()) as u32
    &&& c.syllables == vowel_groups(n) as u32
}

proof fn lemma_count_bounded(s: Seq<char>, p: spec_fn(char) -> bool)
    ensures
        count_where(s, p) <= s.len(),
    decreases s.len(),
{
    if s.len() > 0 {
        lemma_count_bounded(s.drop_last(), p);
    }
}

proof fn lemma_groups_bounded(s: Seq<char>)
    ensures
        vowel_groups(s) <= s.len(),
    decreases s.len(),
{
    if s.len() > 0 {
        lemma_groups_bounded(s.drop_last());
    }
}

/// Counts the characters of a domain's first label, lower-cased: its length, whether
/// it has a hyphen or a digit, its vowel and consonant letters, and its vowel groups.
pub fn analyze_counts(domain: &str) -> (r: NameCounts)
    ensures
        counts_match(r, analysed_name(domain@)),
{
    let label = string_of(&first_label_of(&chars_of(domain)));
    let lower = to_lowercase(label.as_str());
    let n = chars_of(lower.as_str());
    let ghost name = n@;
    let mut hyphen = false;
    let mut digit = false;
    let mut v: usize = 0;
    let mut c: usize = 0;
    let mut syl: usize = 0;
    let mut in_vowel = false;
    let mut i: usize = 0;
    while i < n.len()
        invariant
            i <= n.len(),
            name == n@,
            hyphen == name.take(i as int).contains('-'),
            digit == (exists|j: int| 0 <= j < i && is_digit(#[trigger] name[j])),
            v == count_where(name.take(i as int), vowel_letter()),
            c == count_where(name.take(i as int), consonant_letter()),
            syl == vowel_groups(name.take(i as int)),
            in_vowel == (i > 0 && is_vowel(name[i - 1])),
            v <= i && c <= i && syl <= i,
        decreases n.len() - i,
    {
        let ch = n[i];
        let ghost pre = name.take(i as int);
        proof {
            let nxt = name.take(i + 1);
            assert(nxt.drop_last() == pre);
            assert(nxt.last() == ch);
            assert(nxt.contains('-') <==> pre.contains('-') || ch == '-') by {
                if nxt.contains('-') {
                    let k = choose|k: int| 0 <= k < nxt.len() && nxt[k] == '-';
                    if k < pre.len() {
                        assert(pre[k] == '-');
                    }
                }
                if pre.contains('-') {
                    let k = choose|k: int| 0 <= k < pre.len() && pre[k] == '-';
                    assert(nxt[k] == '-');
                }
                if ch == '-' {
                    assert(nxt[i as int] == '-');
                }
            }
            lemma_count_bounded(pre, vowel_letter());
            lemma_count_bounded(pre, consonant_letter());
            lemma_groups_bounded(pre);
            if i > 0 {
                assert(pre.last() == name[i - 1]);
            }
        }
        if ch == '-' {
            hyphen = true;
        }
        if '0' <= ch && ch <= '9' {
            digit = true;
        }
        let is_v = vowel(ch);
        if is_alphabetic(ch) {
            if is_v {
                v += 1;
            } else {
                c += 1;
            }
        }
        if is_v && !in_vowel {
            syl += 1;
        }
        in_vowel = is_v;
        i += 1;
    }
    proof {
        assert(name.take(n.len() as int) == name);
    }
    NameCounts {
        length: n.len() as u32,
        has_hyphen: hyphen,
        has_digit: digit,
        vowels: v as u32,
        consonants: c as u32,
        syllables: syl as u32,
    }
}

/// One of the letters a e i o u y ą ę ó.
pub open spec fn in_vowel_set(c: char) -> bool {
    seq!['a', 'e', 'i', 'o', 'u', 'y', 'ą', 'ę', 'ó'].contains(c)
}

/// Law: appending a character to a name changes its counts as follows. A letter among
/// a e i o u y ą ę ó adds one vowel (and no consonant), and starts a new vowel group
/// unless the name already ends in one of them; any other letter adds one consonant;
/// a character that is not a letter adds neither; only those nine letters extend or
/// start vowel groups.
pub proof fn lemma_vowel_counting(n: Seq<char>, c: char)
    ensures
        alphabetic(c) && in_vowel_set(c) ==> count_where(n.push(c), vowel_letter())
            == count_where(n, vowel_letter()) + 1 && count_where(n.push(c), consonant_letter())
            == count_where(n, consonant_letter()),
        alphabetic(c) && !in_vowel_set(c) ==> count_where(n.push(c), vowel_letter())
            == count_where(n, vowel_letter()) && count_where(n.push(c), consonant_letter())
            == count_where(n, consonant_letter()) + 1,
        !alphabetic(c) ==> count_where(n.push(c), vowel_letter()) == count_where(n, vowel_letter())
            && count_where(n.push(c), consonant_letter()) == count_where(n, consonant_letter()),
        in_vowel_set(c) && (n.len() == 0 || !in_vowel_set(n.last())) ==> vowel_groups(n.push(c))
            == vowel_groups(n) + 1,
        in_vowel_set(c) && n.len() > 0 && in_vowel_set(n.last()) ==> vowel_groups(n.push(c))
            == vowel_groups(n),
        !in_vowel_set(c) ==> vowel_groups(n.push(c)) == vowel_groups(n),
{
    let vs = seq!['a', 'e', 'i', 'o', 'u', 'y', 'ą', 'ę', 'ó'];
    assert forall|x: char| #[trigger] in_vowel_set(x) == is_vowel(x) by {
        if is_vowel(x) {
            if x == 'a' { assert(vs[0] == x); }
            if x == 'e' { assert(vs[1] == x); }
            if x == 'i' { assert(vs[2] == x); }
            if x == 'o' { assert(vs[3] == x); }
            if x == 'u' { assert(vs[4] == x); }
            if x == 'y' { assert(vs[5] == x); }
            if x == 'ą' { assert(vs[6] == x); }
            if x == 'ę' { assert(vs[7] == x); }
            if x == 'ó' { assert(vs[8] == x); }
        }
    }
    let m = n.push(c);
    assert(m.drop_last() == n);
    assert(m.last() == c);
    assert(in_vowel_set(c) == is_vowel(c));
    if n.len() > 0 {
        assert(in_vowel_set(n.last()) == is_vowel(n.last()));
    }
}

/// Length band of brandability: 5 to 9 characters is the sweet spot; a name of four
/// is close to it, very short names are premium but rare, and every band beyond the
/// sweet spot scores lower.
pub open spec fn length_points(length: u32) -> u32 {
    if length <= 3 { 70 }
    else if length == 4 { 85 }
    else if length <= 9 { 100 }
    else if length <= 12 { 60 }
    else if length <= 15 { 35 }
    else { 15 }
}

/// Length band of brandability, from 0 to 100.
pub fn length_score(length: u32) -> (r: u32)
    ensures
        r == length_points(length),
{
    if length <= 3 { 70 }
    else if length == 4 { 85 }
    else if length <= 9 { 100 }
    else if length <= 12 { 60 }
    else if length <= 15 { 35 }
    else { 15 }
}

/// Law: a name of 5 to 9 characters never scores lower on length than a name of any
/// other length, and beyond 9 characters a longer name never scores higher.
pub proof fn lemma_length_sweet_spot(a: u32, b: u32)
    ensures
        5 <= a <= 9 ==> length_points(b) <= length_points(a),
        9 <= a <= b ==> length_points(b) <= length_points(a),
{
}

} // verus!
