//! aftermarket.pl: reading listings, prices, totals and dates out of its search pages,
//! and the decisions of the paginated search.
use vstd::prelude::*;

use crate::ext::{
    attr_of_selected, captures, count_selected, inner_attrs_of_selected, inner_texts_of_selected,
    naive_datetime, opt_string_view, parse_naive_datetime, parse_page, regex_captures,
    selected_attr, selected_count, selected_inner_attrs, selected_inner_texts, selector_accepted,
    selector_ok, to_uppercase, uppercase, utc_now, Page,
};
use crate::model::{AuctionType, Listing, Timestamp};
use crate::text::{
    chars_eq_str, chars_of, concat, find_char, find_char_index, is_digit, occurs_at, other_than,
    remove_char, remove_char_of, slice_of, starts_with, string_of, trim, trim_of, trim_str,
};

verus! {

// ------------------------------------------------------------------ prices

/// A character that a price can be written with: an ASCII digit, `,` or `.`.
pub open spec fn is_price_char(c: char) -> bool {
    is_digit(c) || c == ',' || c == '.'
}

/// Index of the last `c` in `s`, or -1 when there is none.
pub open spec fn last_index(s: Seq<char>, c: char) -> int
    decreases s.len(),
{
    if s.len() == 0 {
        -1
    } else if s.last() == c {
        s.len() - 1
    } else {
        last_index(s.drop_last(), c)
    }
}

/// `s` with every `from` replaced by `to`.
pub open spec fn replace_char(s: Seq<char>, from: char, to: char) -> Seq<char> {
    s.map_values(|x: char| if x == from { to } else { x })
}

/// The separators made uniform: when both `.` and `,` appear the last of them is the
/// decimal point and the other one groups thousands; a lone `,` is a decimal point.
pub open spec fn unify_separators(c: Seq<char>) -> Seq<char> {
    let dot = last_index(c, '.');
    let comma = last_index(c, ',');
    if dot >= 0 && comma >= 0 {
        if comma > dot {
            replace_char(remove_char(c, '.'), ',', '.')
        } else {
            remove_char(c, ',')
        }
    } else if comma >= 0 {
        replace_char(c, ',', '.')
    } else {
        c
    }
}

/// The last `.` is kept as the decimal point when at most two digits follow it;
/// every other `.` groups thousands and is dropped.
pub open spec fn settle_decimals(n: Seq<char>) -> Seq<char> {
    let k = last_index(n, '.');
    if k < 0 {
        n
    } else if n.len() - (k + 1) <= 2 {
        remove_char(n.take(k), '.') + seq!['.'] + n.skip(k + 1)
    } else {
        remove_char(n, '.')
    }
}

/// The plain decimal text of a price as written on the page ("1 234,56" → "1234.56",
/// "12 000" → "12000"), or `None` when no digit remains.
pub open spec fn price_text(s: Seq<char>) -> Option<Seq<char>> {
    let v = settle_decimals(unify_separators(s.filter(|c: char| is_price_char(c))));
    if exists|i: int| 0 <= i < v.len() && is_digit(#[trigger] v[i]) {
        Some(v)
    } else {
        None
    }
}

/// A plain decimal: digits, then optionally a point followed by at most two digits.
pub open spec fn is_plain_decimal(v: Seq<char>) -> bool {
    let k = last_index(v, '.');
    &&& forall|i: int| 0 <= i < v.len() && i != k ==> is_digit(#[trigger] v[i])
    &&& k >= 0 ==> v.len() - (k + 1) <= 2
}

proof fn lemma_last_index(s: Seq<char>, c: char)
    ensures
        -1 <= last_index(s, c) < s.len(),
        last_index(s, c) >= 0 ==> s[last_index(s, c)] == c,
        forall|j: int| last_index(s, c) < j < s.len() ==> s[j] != c,
    decreases s.len(),
{
    if s.len() > 0 && s.last() != c {
        lemma_last_index(s.drop_last(), c);
        assert forall|j: int| last_index(s, c) < j < s.len() implies s[j] != c by {
            if j < s.len() - 1 {
                assert(s[j] == s.drop_last()[j]);
            }
        }
    }
}

proof fn lemma_last_index_char(s: Seq<char>, c: char, k: int)
    requires
        -1 <= k < s.len(),
        k >= 0 ==> s[k] == c,
        forall|j: int| k < j < s.len() ==> s[j] != c,
    ensures
        last_index(s, c) == k,
    decreases s.len(),
{
    if s.len() > 0 && s.last() != c {
        let t = s.drop_last();
        assert forall|j: int| k < j < t.len() implies t[j] != c by {
            assert(t[j] == s[j]);
        }
        if k >= 0 {
            assert(t[k] == s[k]);
        }
        lemma_last_index_char(t, c, k);
    }
}

/// Index of the last `c` in `v`, if any.
fn last_index_of(v: &Vec<char>, c: char) -> (r: Option<usize>)
    ensures
        r is None ==> last_index(v@, c) == -1,
        r matches Some(k) ==> last_index(v@, c) == k && k < v.len(),
{
    let mut i: usize = v.len();
    while i > 0 && v[i - 1] != c
        invariant
            i <= v.len(),
            forall|j: int| i <= j < v.len() ==> v@[j] != c,
        decreases i,
    {
        i -= 1;
    }
    if i == 0 {
        proof {
            lemma_last_index_char(v@, c, -1);
        }
        None
    } else {
        proof {
            lemma_last_index_char(v@, c, i - 1);
        }
        Some(i - 1)
    }
}

/// `v` with every `from` replaced by `to`.
fn replace_char_of(v: &Vec<char>, from: char, to: char) -> (r: Vec<char>)
    ensures
        r@ == replace_char(v@, from, to),
{
    let mut r: Vec<char> = Vec::new();
    let mut i: usize = 0;
    while i < v.len()
        invariant
            i <= v.len(),
            r.len() == i,
            forall|j: int| 0 <= j < i ==> r@[j] == (if v@[j] == from { to } else { v@[j] }),
        decreases v.len() - i,
    {
        if v[i] == from {
            r.push(to);
        } else {
            r.push(v[i]);
        }
        i += 1;
    }
    assert(r@ =~= replace_char(v@, from, to));
    r
}

/// The characters of `v` that a price can be written with.
fn price_chars_of(v: &Vec<char>) -> (r: Vec<char>)
    ensures
        r@ == v@.filter(|c: char| is_price_char(c)),
{
    let mut r: Vec<char> = Vec::new();
    let mut i: usize = 0;
    while i < v.len()
        invariant
            i <= v.len(),
            r@ == v@.take(i as int).filter(|c: char| is_price_char(c)),
        decreases v.len() - i,
    {
        proof {
            reveal_with_fuel(Seq::filter, 1);
            assert(v@.take(i + 1).drop_last() == v@.take(i as int));
        }
        let c = v[i];
        if is_digit_char(c) || c == ',' || c == '.' {
            r.push(c);
        }
        i += 1;
    }
    assert(v@.take(v.len() as int) == v@);
    r
}

/// Whether `c` is an ASCII digit.
pub fn is_digit_char(c: char) -> (r: bool)
    ensures
        r == is_digit(c),
{
    '0' <= c && c <= '9'
}

/// Whether `v` holds an ASCII digit.
fn has_digit(v: &Vec<char>) -> (r: bool)
    ensures
        r == exists|i: int| 0 <= i < v@.len() && is_digit(#[trigger] v@[i]),
{
    let mut i: usize = 0;
    while i < v.len()
        invariant
            i <= v.len(),
            forall|j: int| 0 <= j < i ==> !is_digit(#[trigger] v@[j]),
        decreases v.len() - i,
    {
        if is_digit_char(v[i]) {
            return true;
        }
        i += 1;
    }
    false
}

/// The plain decimal text of a price as written on the page: digits kept, spaces and
/// other marks dropped, the last `,` or `.` taken as the decimal point when at most two
/// digits follow it, every other separator taken as grouping thousands.
/// `None` when no digit is left. Turning the text into a number is left to the caller.
pub fn normalize_price(s: &str) -> (r: Option<String>)
    ensures
        r matches Some(t) ==> price_text(s@) == Some(t@),
        r is None ==> price_text(s@) is None,
        r matches Some(t) ==> is_plain_decimal(t@),
{
    let chars = chars_of(s);
    let cleaned = price_chars_of(&chars);
    let dot = last_index_of(&cleaned, '.');
    let comma = last_index_of(&cleaned, ',');
    proof {
        lemma_last_index(cleaned@, '.');
        lemma_last_index(cleaned@, ',');
        assert forall|i: int| 0 <= i < cleaned@.len() implies is_price_char(#[trigger] cleaned@[i]) by {
            chars@.lemma_filter_pred(|c: char| is_price_char(c), i);
        }
    }
    let unified = if dot.is_some() && comma.is_some() {
        if comma.unwrap() > dot.unwrap() {
            let no_dots = remove_char_of(&cleaned, '.');
            replace_char_of(&no_dots, ',', '.')
        } else {
            remove_char_of(&cleaned, ',')
        }
    } else if comma.is_some() {
        replace_char_of(&cleaned, ',', '.')
    } else {
        cleaned
    };
    proof {
        assert(unified@ == unify_separators(cleaned@));
        lemma_unified_chars(cleaned@);
    }
    let k = last_index_of(&unified, '.');
    proof {
        lemma_last_index(unified@, '.');
    }
    let v = if k.is_none() {
        unified
    } else {
        let ku = k.unwrap();
        if unified.len() - (ku + 1) <= 2 {
            let head = slice_of(&unified, 0, ku);
            let mut lead = remove_char_of(&head, '.');
            proof {
                lemma_filter_keeps(head@, other_than('.'), |c: char| is_digit(c));
            }
            lead.push('.');
            let tail = slice_of(&unified, ku + 1, unified.len());
            let r = concat(&lead, &tail);
            proof {
                let h = remove_char(head@, '.');
                assert(r@ == h + seq!['.'] + tail@);
                assert(forall|i: int| 0 <= i < tail@.len() ==> tail@[i] == unified@[ku + 1 + i]);
                lemma_last_index_char(r@, '.', h.len() as int);
            }
            r
        } else {
            let r = remove_char_of(&unified, '.');
            proof {
                lemma_filter_keeps(unified@, other_than('.'), |c: char| is_digit(c));
                lemma_last_index_char(r@, '.', -1);
            }
            r
        }
    };
    proof {
        assert(v@ == settle_decimals(unified@));
    }
    if has_digit(&v) {
        Some(string_of(&v))
    } else {
        None
    }
}

/// After the separators are made uniform only digits and points remain.
proof fn lemma_unified_chars(c: Seq<char>)
    requires
        forall|i: int| 0 <= i < c.len() ==> is_price_char(#[trigger] c[i]),
    ensures
        forall|i: int| 0 <= i < unify_separators(c).len()
            ==> is_digit(#[trigger] unify_separators(c)[i]) || unify_separators(c)[i] == '.',
{
    lemma_last_index(c, '.');
    lemma_last_index(c, ',');
    let dot = last_index(c, '.');
    let comma = last_index(c, ',');
    let u = unify_separators(c);
    if dot >= 0 && comma >= 0 {
        if comma > dot {
            let f = remove_char(c, '.');
            lemma_filter_keeps(c, other_than('.'), |x: char| is_digit(x) || x == ',');
            assert(u == replace_char(f, ',', '.'));
            assert forall|i: int| 0 <= i < u.len() implies is_digit(#[trigger] u[i]) || u[i] == '.' by {
                assert(is_digit(f[i]) || f[i] == ',');
            }
        } else {
            lemma_filter_keeps(c, other_than(','), |x: char| is_digit(x) || x == '.');
        }
    } else if comma >= 0 {
        assert forall|i: int| 0 <= i < u.len() implies is_digit(#[trigger] u[i]) || u[i] == '.' by {
            assert(is_price_char(c[i]));
            assert(c[i] != '.');
        }
    } else {
        assert forall|i: int| 0 <= i < u.len() implies is_digit(#[trigger] u[i]) || u[i] == '.' by {
            assert(is_price_char(c[i]));
            assert(c[i] != ',');
        }
    }
}

/// Every element that survives filtering by `p` has each property `q` that `p` brings
/// for the elements of `s`.
proof fn lemma_filter_keeps(s: Seq<char>, p: spec_fn(char) -> bool, q: spec_fn(char) -> bool)
    requires
        forall|i: int| 0 <= i < s.len() && p(#[trigger] s[i]) ==> q(s[i]),
    ensures
        forall|i: int| 0 <= i < s.filter(p).len() ==> q(#[trigger] s.filter(p)[i]),
    decreases s.len(),
{
    reveal_with_fuel(Seq::filter, 1);
    if s.len() > 0 {
        let t = s.drop_last();
        assert forall|i: int| 0 <= i < t.len() && p(#[trigger] t[i]) implies q(t[i]) by {
            assert(t[i] == s[i]);
        }
        lemma_filter_keeps(t, p, q);
        let f = s.filter(p);
        assert forall|i: int| 0 <= i < f.len() implies q(#[trigger] f[i]) by {
            if p(s.last()) {
                assert(f == t.filter(p).push(s.last()));
                if i < t.filter(p).len() {
                    assert(f[i] == t.filter(p)[i]);
                }
            } else {
                assert(f == t.filter(p));
            }
        }
    }
}

// ------------------------------------------------------------------ numbers, currencies, links

/// The value of a string of decimal digits.
pub open spec fn digits_value(s: Seq<char>) -> int
    decreases s.len(),
{
    if s.len() == 0 {
        0
    } else {
        digits_value(s.drop_last()) * 10 + (s.last() as int - '0' as int)
    }
}

/// What `str::parse::<u32>` gives: an optional `+`, then one or more ASCII digits whose
/// value fits in a `u32`; `None` for anything else.
pub open spec fn u32_of(s: Seq<char>) -> Option<u32> {
    digits_u32(if s.len() > 0 && s[0] == '+' { s.drop_first() } else { s })
}

/// One or more ASCII digits whose value fits in a `u32`, and that value.
pub open spec fn digits_u32(t: Seq<char>) -> Option<u32> {
    if t.len() > 0 && all_digits(t) && digits_value(t) <= u32::MAX {
        Some(digits_value(t) as u32)
    } else {
        None
    }
}

/// Every character of `t` is an ASCII digit.
pub open spec fn all_digits(t: Seq<char>) -> bool {
    forall|i: int| 0 <= i < t.len() ==> is_digit(#[trigger] t[i])
}

proof fn lemma_digits_value_nonneg(s: Seq<char>)
    requires
        forall|i: int| 0 <= i < s.len() ==> is_digit(#[trigger] s[i]),
    ensures
        digits_value(s) >= 0,
    decreases s.len(),
{
    if s.len() > 0 {
        let t = s.drop_last();
        assert forall|i: int| 0 <= i < t.len() implies is_digit(#[trigger] t[i]) by {
            assert(t[i] == s[i]);
        }
        lemma_digits_value_nonneg(t);
        assert(is_digit(s[s.len() - 1]));
    }
}

proof fn lemma_digits_value_grows(s: Seq<char>, k: int)
    requires
        0 <= k <= s.len(),
        forall|i: int| 0 <= i < s.len() ==> is_digit(#[trigger] s[i]),
    ensures
        digits_value(s.take(k)) <= digits_value(s),
    decreases s.len() - k,
{
    if k < s.len() {
        lemma_digits_value_grows(s, k + 1);
        let p = s.take(k + 1);
        assert(p.drop_last() == s.take(k));
        assert forall|i: int| 0 <= i < s.take(k).len() implies is_digit(#[trigger] s.take(k)[i]) by {
            assert(s.take(k)[i] == s[i]);
        }
        lemma_digits_value_nonneg(s.take(k));
        assert(p.last() == s[k]);
        assert(is_digit(s[k]));
    } else {
        assert(s.take(k) == s);
    }
}

/// Parses a decimal `u32` the way `str::parse::<u32>` does.
pub fn parse_u32(s: &str) -> (r: Option<u32>)
    ensures
        r == u32_of(s@),
{
    let v = chars_of(s);
    let start: usize = if v.len() > 0 && v[0] == '+' { 1 } else { 0 };
    let ghost t = if v@.len() > 0 && v@[0] == '+' { v@.drop_first() } else { v@ };
    assert(u32_of(s@) == digits_u32(t));
    if start >= v.len() {
        return None;
    }
    let mut acc: u64 = 0;
    let mut i: usize = start;
    while i < v.len()
        invariant
            start <= i <= v.len(),
            t == v@.skip(start as int),
            u32_of(s@) == digits_u32(t),
            forall|j: int| 0 <= j < i - start ==> is_digit(#[trigger] t[j]),
            acc as int == digits_value(t.take(i - start)),
            acc <= u32::MAX,
        decreases v.len() - i,
    {
        let c = v[i];
        if !is_digit_char(c) {
            assert(t[i - start] == c);
            assert(!is_digit(t[i - start]));
            assert(!all_digits(t));
            return None;
        }
        let d = (c as u32 - '0' as u32) as u64;
        proof {
            assert(t.take(i - start + 1).drop_last() == t.take(i - start));
            assert(t.take(i - start + 1).last() == c);
        }
        acc = acc * 10 + d;
        if acc > 4294967295 {
            proof {
                if all_digits(t) {
                    lemma_digits_value_grows(t, i - start + 1);
                }
            }
            return None;
        }
        i += 1;
    }
    assert(t.take(i - start) == t);
    Some(acc as u32)
}

/// The currency named on the page, in upper case, with "ZŁ"/"ZL" read as "PLN".
pub open spec fn currency_of(c: Seq<char>) -> Seq<char> {
    let u = uppercase(trim(c));
    if u == "ZŁ"@ || u == "ZL"@ {
        "PLN"@
    } else {
        u
    }
}

/// The currency named on the page, in upper case, with "ZŁ"/"ZL" read as "PLN".
pub fn normalize_currency(c: &str) -> (r: String)
    ensures
        r@ == currency_of(c@),
{
    let t = string_of(&trim_str(c));
    let u = to_uppercase(t.as_str());
    let uv = chars_of(u.as_str());
    if chars_eq_str(&uv, "ZŁ") || chars_eq_str(&uv, "ZL") {
        String::from_str("PLN")
    } else {
        u
    }
}

/// A link made absolute against https://www.aftermarket.pl.
pub open spec fn absolute_url(h: Seq<char>) -> Seq<char> {
    if occurs_at(h, "http"@, 0) {
        h
    } else if occurs_at(h, "//"@, 0) {
        "https:"@ + h
    } else if occurs_at(h, "/"@, 0) {
        "https://www.aftermarket.pl"@ + h
    } else {
        "https://www.aftermarket.pl/"@ + h
    }
}

/// A link made absolute against https://www.aftermarket.pl.
pub fn absolutize(href: &str) -> (r: String)
    ensures
        r@ == absolute_url(href@),
{
    let h = chars_of(href);
    if starts_with(&h, &chars_of("http")) {
        String::from_str(href)
    } else if starts_with(&h, &chars_of("//")) {
        String::from_str("https:").concat(href)
    } else if starts_with(&h, &chars_of("/")) {
        String::from_str("https://www.aftermarket.pl").concat(href)
    } else {
        String::from_str("https://www.aftermarket.pl/").concat(href)
    }
}

/// The auction id in a listing link: `?id=` or `&id=` followed by digits.
pub const ID_PATTERN: &'static str = r"[?&]id=(\d+)";

/// The first capture group of `pattern` on `text`, if the pattern matches.
pub open spec fn first_group(pattern: Seq<char>, text: Seq<char>) -> Option<Seq<char>> {
    match regex_captures(pattern, text) {
        Some(g) => if g.len() > 1 { g[1] } else { None },
        None => None,
    }
}

/// The first capture group of `pattern` on `text`.
fn capture_group(pattern: &str, text: &str, group: usize) -> (r: Option<String>)
    ensures
        match regex_captures(pattern@, text@) {
            Some(g) => if group < g.len() {
                match g[group as int] {
                    Some(t) => r matches Some(x) && x@ == t,
                    None => r is None,
                }
            } else {
                r is None
            },
            None => r is None,
        },
{
    match captures(pattern, text) {
        None => None,
        Some(groups) => {
            if group < groups.len() {
                match &groups[group] {
                    Some(t) => Some(t.clone()),
                    None => None,
                }
            } else {
                None
            }
        },
    }
}

/// The auction id in a listing link.
pub fn extract_id_from_url(url: &str) -> (r: Option<String>)
    ensures
        r matches Some(x) ==> first_group(ID_PATTERN@, url@) == Some(x@),
        r is None ==> first_group(ID_PATTERN@, url@) is None,
{
    capture_group(ID_PATTERN, url, 1)
}

/// The listing count in "Pokazuję 1 - 30 z <strong>98</strong> obiektów".
pub const TOTAL_PATTERN: &'static str = r"z\s+(?:<[^>]+>\s*)*(\d+)(?:\s*<[^>]+>)*\s+obiekt";

/// The listing count of a search page: the number captured by the count pattern.
pub open spec fn total_of(html: Seq<char>) -> Option<u32> {
    match first_group(TOTAL_PATTERN@, html) {
        Some(t) => u32_of(t),
        None => None,
    }
}

/// The listing count that a search page states ("z 98 obiektów"), if it states one
/// that fits in a `u32`.
pub fn parse_total(html: &str) -> (r: Option<u32>)
    ensures
        r == total_of(html@),
{
    match capture_group(TOTAL_PATTERN, html, 1) {
        Some(t) => parse_u32(t.as_str()),
        None => None,
    }
}

/// Date and time as shown on the page; `T` may stand for the space and the seconds
/// may be missing. The page shows Warsaw time; it is read as UTC.
pub open spec fn datetime_of(s: Seq<char>) -> Option<Timestamp> {
    let t = replace_char(s, 'T', ' ');
    match naive_datetime(t, "%Y-%m-%d %H:%M:%S"@) {
        Some(d) => Some(d),
        None => naive_datetime(t, "%Y-%m-%d %H:%M"@),
    }
}

/// Date and time as shown on the page ("2026-04-09 20:00:00"), read as UTC.
pub fn parse_datetime(s: &str) -> (r: Option<Timestamp>)
    ensures
        r == datetime_of(s@),
{
    let t = string_of(&replace_char_of(&chars_of(s), 'T', ' '));
    match parse_naive_datetime(t.as_str(), "%Y-%m-%d %H:%M:%S") {
        Some(d) => Some(d),
        None => parse_naive_datetime(t.as_str(), "%Y-%m-%d %H:%M"),
    }
}

// ------------------------------------------------------------------ listing rows

/// A price followed by its currency: "319.00 PLN", "1 234,56 zł".
pub const PRICE_PATTERN: &'static str = r"(?i)([\d\s.,]+)\s*(PLN|EUR|USD|zł)";

/// A date and time: "2026-04-09 20:00:00", "2026-04-09T20:00".
pub const DATETIME_PATTERN: &'static str = r"(\d{4}-\d{2}-\d{2}[\sT]\d{2}:\d{2}(?::\d{2})?)";

/// What a result row of the search table holds, as read from the page.
pub struct RowFields {
    /// Text of the row's `span.domain`, if it has one.
    pub domain_text: Option<String>,
    /// The row's `data-id` attribute.
    pub data_id: Option<String>,
    /// `href` of the row's first `a.table-link`.
    pub href: Option<String>,
    /// Text of each `<strong>` of the row, in order.
    pub strong_texts: Vec<String>,
    /// Whether the row shows the gavel icon of an auction.
    pub has_gavel: bool,
}

/// The texts of a row's `<strong>` elements.
pub open spec fn strong_views(row: RowFields) -> Seq<Seq<char>> {
    row.strong_texts@.map_values(|t: String| t@)
}

/// The domain of a row: the trimmed text of its domain cell, else its `data-id`.
pub open spec fn row_domain(row: RowFields) -> Seq<char> {
    match row.domain_text {
        Some(t) => trim(t@),
        None => match row.data_id {
            Some(d) => d@,
            None => Seq::empty(),
        },
    }
}

/// A row is kept when its domain is not empty and has a dot.
pub open spec fn row_accepted(row: RowFields) -> bool {
    let d = row_domain(row);
    d.len() > 0 && find_char(d, '.') < d.len()
}

/// The link of a row: its table link made absolute, else a search link for its domain.
pub open spec fn row_url(row: RowFields) -> Seq<char> {
    match row.href {
        Some(h) => absolute_url(h@),
        None => "https://www.aftermarket.pl/?domain="@ + row_domain(row),
    }
}

/// Price and currency read from one `<strong>` text, when it holds a price.
pub open spec fn strong_price(t: Seq<char>) -> Option<(Seq<char>, Seq<char>)> {
    match regex_captures(PRICE_PATTERN@, trim(t)) {
        Some(g) => if g.len() > 2 && g[1] is Some && g[2] is Some {
            match price_text(g[1]->0) {
                Some(p) => Some((p, currency_of(g[2]->0))),
                None => None,
            }
        } else {
            None
        },
        None => None,
    }
}

/// The first price read from a sequence of `<strong>` texts.
pub open spec fn first_price(ts: Seq<Seq<char>>) -> Option<(Seq<char>, Seq<char>)>
    decreases ts.len(),
{
    if ts.len() == 0 {
        None
    } else {
        match first_price(ts.drop_last()) {
            Some(p) => Some(p),
            None => strong_price(ts.last()),
        }
    }
}

/// Date and time read from one `<strong>` text, when it holds one that parses.
pub open spec fn strong_datetime(t: Seq<char>) -> Option<Timestamp> {
    match regex_captures(DATETIME_PATTERN@, trim(t)) {
        Some(g) => if g.len() > 1 && g[1] is Some {
            datetime_of(g[1]->0)
        } else {
            None
        },
        None => None,
    }
}

/// The first date and time read from a sequence of `<strong>` texts.
pub open spec fn first_datetime(ts: Seq<Seq<char>>) -> Option<Timestamp>
    decreases ts.len(),
{
    if ts.len() == 0 {
        None
    } else {
        match first_datetime(ts.drop_last()) {
            Some(d) => Some(d),
            None => strong_datetime(ts.last()),
        }
    }
}

/// The stable id of a listing: the auction id in its link, else its domain.
pub open spec fn row_id(row: RowFields) -> Seq<char> {
    match first_group(ID_PATTERN@, row_url(row)) {
        Some(i) => "aftermarket_pl:"@ + i,
        None => "aftermarket_pl:"@ + row_domain(row),
    }
}

/// The part of a domain after its first dot.
pub open spec fn tld_of(d: Seq<char>) -> Seq<char> {
    d.skip(find_char(d, '.') as int + 1)
}

/// `l` is the listing that `row` describes, read at `now`.
pub open spec fn listing_of_row(l: Listing, row: RowFields, now: Timestamp) -> bool {
    let d = row_domain(row);
    let price = first_price(strong_views(row));
    &&& l.id@ == row_id(row)
    &&& l.marketplace@ == "aftermarket_pl"@
    &&& l.domain@ == d
    &&& l.tld@ == tld_of(d)
    &&& opt_string_view(l.current_price) == (match price {
        Some(p) => Some(p.0),
        None => None,
    })
    &&& l.buy_now_price is None
    &&& l.currency@ == (match price {
        Some(p) => p.1,
        None => "PLN"@,
    })
    &&& l.auction_type == (if row.has_gavel { AuctionType::Auction } else { AuctionType::BuyNow })
    &&& l.ends_at == first_datetime(strong_views(row))
    &&& l.url@ == row_url(row)
    &&& l.fetched_at == now
}

/// Price and currency read from one `<strong>` text.
fn read_strong_price(t: &String) -> (r: Option<(String, String)>)
    ensures
        match strong_price(t@) {
            Some(p) => r matches Some(x) && x.0@ == p.0 && x.1@ == p.1,
            None => r is None,
        },
{
    let trimmed = string_of(&trim_of(&chars_of(t.as_str())));
    match captures(PRICE_PATTERN, trimmed.as_str()) {
        None => None,
        Some(groups) => {
            if groups.len() > 2 {
                match (&groups[1], &groups[2]) {
                    (Some(amount), Some(cur)) => {
                        match normalize_price(amount.as_str()) {
                            Some(p) => Some((p, normalize_currency(cur.as_str()))),
                            None => None,
                        }
                    },
                    _ => None,
                }
            } else {
                None
            }
        },
    }
}

/// Date and time read from one `<strong>` text.
fn read_strong_datetime(t: &String) -> (r: Option<Timestamp>)
    ensures
        r == strong_datetime(t@),
{
    let trimmed = string_of(&trim_of(&chars_of(t.as_str())));
    match capture_group(DATETIME_PATTERN, trimmed.as_str(), 1) {
        Some(d) => parse_datetime(d.as_str()),
        None => None,
    }
}

/// The listing that a result row describes, read at `now`; `None` for a row without
/// a usable domain. The price and the end time come from the first `<strong>` texts
/// that hold them; the id prefers the auction id in the row's link.
pub fn listing_from_row(row: &RowFields, now: Timestamp) -> (r: Option<Listing>)
    ensures
        r is Some <==> row_accepted(*row),
        r matches Some(l) ==> listing_of_row(l, *row, now),
{
    let domain_chars: Vec<char> = match &row.domain_text {
        Some(t) => trim_of(&chars_of(t.as_str())),
        None => match &row.data_id {
            Some(d) => chars_of(d.as_str()),
            None => Vec::new(),
        },
    };
    let dot = find_char_index(&domain_chars, '.');
    if domain_chars.len() == 0 || dot >= domain_chars.len() {
        return None;
    }
    let domain = string_of(&domain_chars);
    let url = match &row.href {
        Some(h) => absolutize(h.as_str()),
        None => String::from_str("https://www.aftermarket.pl/?domain=").concat(domain.as_str()),
    };
    let ghost views = strong_views(*row);
    let mut current_price: Option<String> = None;
    let mut currency = String::from_str("PLN");
    let mut ends_at: Option<Timestamp> = None;
    let mut i: usize = 0;
    while i < row.strong_texts.len()
        invariant
            i <= row.strong_texts.len(),
            views == strong_views(*row),
            views.len() == row.strong_texts.len(),
            opt_string_view(current_price) == (match first_price(views.take(i as int)) {
                Some(p) => Some(p.0),
                None => None,
            }),
            currency@ == (match first_price(views.take(i as int)) {
                Some(p) => p.1,
                None => "PLN"@,
            }),
            ends_at == first_datetime(views.take(i as int)),
        decreases row.strong_texts.len() - i,
    {
        proof {
            assert(views.take(i + 1).drop_last() == views.take(i as int));
            assert(views.take(i + 1).last() == row.strong_texts@[i as int]@);
        }
        if current_price.is_none() {
            match read_strong_price(&row.strong_texts[i]) {
                Some((p, c)) => {
                    current_price = Some(p);
                    currency = c;
                },
                None => {},
            }
        }
        if ends_at.is_none() {
            ends_at = read_strong_datetime(&row.strong_texts[i]);
        }
        i += 1;
    }
    proof {
        assert(views.take(row.strong_texts.len() as int) == views);
    }
    let auction_type = if row.has_gavel {
        AuctionType::Auction
    } else {
        AuctionType::BuyNow
    };
    let id = match extract_id_from_url(url.as_str()) {
        Some(x) => String::from_str("aftermarket_pl:").concat(x.as_str()),
        None => String::from_str("aftermarket_pl:").concat(domain.as_str()),
    };
    let tld = string_of(&slice_of(&domain_chars, dot + 1, domain_chars.len()));
    Some(Listing {
        id,
        marketplace: String::from_str("aftermarket_pl"),
        domain,
        tld,
        current_price,
        buy_now_price: None,
        currency,
        auction_type,
        ends_at,
        url,
        fetched_at: now,
    })
}

/// Result rows of the search table: only the primary desktop rows carry `data-id`.
pub const SEL_ROW: &'static str = "tr.data[data-id]";

/// The domain cell.
pub const SEL_DOMAIN: &'static str = "span.domain";

/// The listing link.
pub const SEL_LINK: &'static str = "a.table-link";

/// Bold cells: the price and the end time.
pub const SEL_STRONG: &'static str = "strong";

/// The auction marker.
pub const SEL_GAVEL: &'static str = "i.fa-gavel";

/// All five selectors are ones that `scraper` accepts.
pub open spec fn selectors_accepted() -> bool {
    &&& selector_accepted(SEL_ROW@)
    &&& selector_accepted(SEL_DOMAIN@)
    &&& selector_accepted(SEL_LINK@)
    &&& selector_accepted(SEL_STRONG@)
    &&& selector_accepted(SEL_GAVEL@)
}

/// `row` holds what the `i`-th result row of the page `html` shows: the text of its
/// first domain cell, its `data-id`, the `href` of its first link, the text of each of
/// its `<strong>` elements, and whether it has a gavel icon.
pub open spec fn row_of_page(row: RowFields, html: Seq<char>, i: int) -> bool {
    let domains = selected_inner_texts(html, SEL_ROW@, i, SEL_DOMAIN@);
    let links = selected_inner_attrs(html, SEL_ROW@, i, SEL_LINK@, "href"@);
    &&& opt_string_view(row.domain_text) == (if domains.len() > 0 { Some(domains[0]) } else { None })
    &&& opt_string_view(row.data_id) == selected_attr(html, SEL_ROW@, i, "data-id"@)
    &&& opt_string_view(row.href) == (if links.len() > 0 { links[0] } else { None })
    &&& strong_views(row) == selected_inner_texts(html, SEL_ROW@, i, SEL_STRONG@)
    &&& row.has_gavel == (selected_inner_texts(html, SEL_ROW@, i, SEL_GAVEL@).len() > 0)
}

/// `ls` holds, in order, the listing of each usable row of `rows`, read at `now`.
pub open spec fn listings_of_rows(ls: Seq<Listing>, rows: Seq<RowFields>, now: Timestamp) -> bool
    decreases rows.len(),
{
    if rows.len() == 0 {
        ls.len() == 0
    } else if row_accepted(rows.last()) {
        &&& ls.len() > 0
        &&& listing_of_row(ls.last(), rows.last(), now)
        &&& listings_of_rows(ls.drop_last(), rows.drop_last(), now)
    } else {
        listings_of_rows(ls, rows.drop_last(), now)
    }
}

/// `ls` holds, in the order the rows are selected, the listing of each usable result
/// row of the page `html`, read at `now`.
pub open spec fn listings_of_page(ls: Seq<Listing>, html: Seq<char>, now: Timestamp) -> bool {
    exists|rows: Seq<RowFields>|
        #![trigger listings_of_rows(ls, rows, now)]
        rows.len() == selected_count(html, SEL_ROW@)
            && (forall|k: int| 0 <= k < rows.len() ==> row_of_page(#[trigger] rows[k], html, k))
            && listings_of_rows(ls, rows, now)
}

/// Reads the fields of the `i`-th result row.
fn row_fields(page: &Page, i: usize) -> (r: RowFields)
    requires
        selectors_accepted(),
        i < selected_count(page.source(), SEL_ROW@),
    ensures
        row_of_page(r, page.source(), i as int),
{
    let domains = inner_texts_of_selected(page, SEL_ROW, i, SEL_DOMAIN);
    proof {
        assert(domains@.map_values(|t: String| t@).len() == domains.len());
    }
    let domain_text = if domains.len() > 0 {
        Some(domains[0].clone())
    } else {
        None
    };
    let data_id = attr_of_selected(page, SEL_ROW, i, "data-id");
    let links = inner_attrs_of_selected(page, SEL_ROW, i, SEL_LINK, "href");
    proof {
        assert(links@.map_values(|a: Option<String>| opt_string_view(a)).len() == links.len());
    }
    let href = if links.len() > 0 {
        links[0].clone()
    } else {
        None
    };
    let strong_texts = inner_texts_of_selected(page, SEL_ROW, i, SEL_STRONG);
    let gavels = inner_texts_of_selected(page, SEL_ROW, i, SEL_GAVEL);
    proof {
        assert(gavels@.map_values(|t: String| t@).len() == gavels.len());
    }
    RowFields { domain_text, data_id, href, strong_texts, has_gavel: gavels.len() > 0 }
}

/// Every listing of an aftermarket.pl search page, in the order its rows are selected:
/// what `listing_from_row` gives for each result row (`tr.data[data-id]`), rows without
/// a usable domain skipped, all read at the same time. Nothing when `scraper` refuses one
/// of the selectors.
pub fn parse_listings(html: &str) -> (r: Vec<Listing>)
    ensures
        !selectors_accepted() ==> r.len() == 0,
        selectors_accepted() ==> exists|now: Timestamp| #[trigger] listings_of_page(r@, html@, now),
{
    if !(selector_ok(SEL_ROW) && selector_ok(SEL_DOMAIN) && selector_ok(SEL_LINK)
        && selector_ok(SEL_STRONG) && selector_ok(SEL_GAVEL)) {
        return Vec::new();
    }
    let page = parse_page(html);
    let now = utc_now();
    let count = count_selected(&page, SEL_ROW);
    let ghost mut rows: Seq<RowFields> = Seq::empty();
    let mut out: Vec<Listing> = Vec::new();
    let mut i: usize = 0;
    while i < count
        invariant
            selectors_accepted(),
            count == selected_count(page.source(), SEL_ROW@),
            page.source() == html@,
            i <= count,
            rows.len() == i,
            forall|k: int| 0 <= k < rows.len() ==> row_of_page(#[trigger] rows[k], html@, k),
            listings_of_rows(out@, rows, now),
        decreases count - i,
    {
        let fields = row_fields(&page, i);
        let ghost before_rows = rows;
        let ghost before_out = out@;
        proof {
            rows = rows.push(fields);
            assert(rows.drop_last() == before_rows);
            assert(rows.last() == fields);
        }
        match listing_from_row(&fields, now) {
            Some(l) => {
                out.push(l);
                proof {
                    assert(out@.drop_last() == before_out);
                }
            },
            None => {},
        }
        i += 1;
    }
    proof {
        assert(listings_of_page(out@, html@, now));
    }
    out
}

// ------------------------------------------------------------------ paginated search

/// Listings per search page.
pub const PAGE_SIZE: u32 = 30;

/// At most this many pages are fetched for one search.
pub const MAX_PAGES: u32 = 50;

/// aftermarket.pl.
pub struct AftermarketPl;

impl AftermarketPl {
    /// Marketplace id, also the rate-limit key.
    pub fn id(&self) -> (r: &'static str)
        ensures
            r@ == "aftermarket_pl"@,
    {
        "aftermarket_pl"
    }

    /// Human-readable name.
    pub fn label(&self) -> (r: &'static str)
        ensures
            r@ == "aftermarket.pl"@,
    {
        "aftermarket.pl"
    }

    /// Requests per second allowed against this marketplace.
    pub fn rps(&self) -> (r: u32)
        ensures
            r == 1,
    {
        1
    }
}

/// Where a paginated search stands: the page to fetch next (counted from 1), the
/// offset it starts at, and the listing count once a page has stated it.
pub struct Pagination {
    pub page: u32,
    pub start: u32,
    pub total: Option<u32>,
}

/// Number of pages needed for `t` listings.
pub open spec fn pages_for(t: u32) -> int {
    (t + PAGE_SIZE - 1) / PAGE_SIZE as int
}

impl Pagination {
    /// A page within the limit, starting where the pages before it end.
    pub open spec fn wf(&self) -> bool {
        &&& 1 <= self.page <= MAX_PAGES
        &&& self.start == PAGE_SIZE * (self.page - 1)
    }

    /// The first page, at offset 0, with the count not yet known.
    pub fn new() -> (r: Pagination)
        ensures
            r.wf(),
            r.page == 1,
            r.start == 0,
            r.total is None,
    {
        Pagination { page: 1, start: 0, total: None }
    }

    /// Records the page just fetched: the count it states (kept from the first page
    /// that states one) and how many listings it held. Returns whether to fetch
    /// another page: only while the count is known, so a first page that states none
    /// is the only one fetched; not after an empty page, not once the next offset
    /// reaches the count, and never past the page limit. When it returns `true` the
    /// state has moved to the next page.
    pub fn advance(&mut self, page_total: Option<u32>, page_count: usize) -> (more: bool)
        requires
            old(self).wf(),
        ensures
            final(self).total == (if old(self).total is Some { old(self).total } else { page_total }),
            more == (page_count > 0
                && (final(self).total matches Some(t) && old(self).start + PAGE_SIZE < t)
                && old(self).page < MAX_PAGES),
            more ==> final(self).wf() && final(self).page == old(self).page + 1
                && final(self).start == old(self).start + PAGE_SIZE,
            !more ==> final(self).page == old(self).page && final(self).start == old(self).start,
    {
        if self.total.is_none() {
            self.total = page_total;
        }
        if page_count == 0 {
            return false;
        }
        let next_start = self.start + PAGE_SIZE;
        match self.total {
            Some(t) => {
                if next_start >= t {
                    return false;
                }
            },
            None => {
                return false;
            },
        }
        if self.page >= MAX_PAGES {
            return false;
        }
        self.page = self.page + 1;
        self.start = next_start;
        true
    }

    /// Number of pages the stated count spans, once known.
    pub fn total_pages(&self) -> (r: Option<u32>)
        ensures
            r matches Some(n) ==> self.total matches Some(t) && n == pages_for(t),
            r is None <==> self.total is None,
    {
        match self.total {
            Some(t) => {
                let n = (t as u64 + PAGE_SIZE as u64 - 1) / PAGE_SIZE as u64;
                assert(n <= u32::MAX) by (nonlinear_arith)
                    requires n == (t as u64 + 29) / 30, t <= u32::MAX;
                Some(n as u32)
            },
            None => None,
        }
    }
}

/// Law: a search never asks for more than `MAX_PAGES` pages, and the page it asks for
/// always starts right after the pages already fetched.
pub proof fn lemma_pagination_bounded(p: Pagination)
    requires
        p.wf(),
    ensures
        p.page <= MAX_PAGES,
        p.start == PAGE_SIZE * (p.page - 1),
        p.start < PAGE_SIZE * MAX_PAGES,
{
}

} // verus!
