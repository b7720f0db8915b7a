//! Trusted items: the calls that the library makes into `regex`, `scraper`, `chrono`
//! and into std functions that vstd does not specify. Each contract below is believed,
//! not proved; its doc comment says what it claims.
use vstd::prelude::*;

use crate::model::Timestamp;

verus! {

// ------------------------------------------------------------------ std

/// Result of `str::to_lowercase`: the Unicode lowercase mapping of each character,
/// a function of the text alone.
pub uninterp spec fn lowercase(s: Seq<char>) -> Seq<char>;

/// Result of `str::to_uppercase`: the Unicode uppercase mapping of each character,
/// a function of the text alone.
pub uninterp spec fn uppercase(s: Seq<char>) -> Seq<char>;

/// Result of `char::is_alphabetic` (the Unicode `Alphabetic` property).
pub uninterp spec fn alphabetic(c: char) -> bool;

/// Calls `str::to_lowercase`. Claims only that the result is the named lowercase
/// mapping of the argument.
#[verifier::external_body]
pub fn to_lowercase(s: &str) -> (r: String)
    ensures
        r@ == lowercase(s@),
{
    s.to_lowercase()
}

/// Calls `str::to_uppercase`. Claims only that the result is the named uppercase
/// mapping of the argument.
#[verifier::external_body]
pub fn to_uppercase(s: &str) -> (r: String)
    ensures
        r@ == uppercase(s@),
{
    s.to_uppercase()
}

/// Calls `char::is_alphabetic`. Claims only that the result is the named property of `c`.
#[verifier::external_body]
pub fn is_alphabetic(c: char) -> (r: bool)
    ensures
        r == alphabetic(c),
{
    c.is_alphabetic()
}

// ------------------------------------------------------------------ regex

/// Result of compiling `pattern` with `regex::Regex::new` and calling `captures` on
/// `text`: `None` when the pattern does not compile or does not match; otherwise the
/// text of every capture group of the leftmost-first match (group 0 first), `None`
/// for a group that did not take part in it. A function of pattern and text alone.
pub uninterp spec fn regex_captures(pattern: Seq<char>, text: Seq<char>) -> Option<Seq<Option<Seq<char>>>>;

/// The views of an optional list of optional strings.
pub open spec fn captures_view(c: Option<Vec<Option<String>>>) -> Option<Seq<Option<Seq<char>>>> {
    match c {
        None => None,
        Some(v) => Some(v@.map_values(|g: Option<String>| match g {
            None => None,
            Some(t) => Some(t@),
        })),
    }
}

/// Calls `regex::Regex::new(pattern)` and `Regex::captures(text)`, and copies the
/// groups out as strings. Claims only that the result is the named capture result of
/// its two arguments.
#[verifier::external_body]
pub fn captures(pattern: &str, text: &str) -> (r: Option<Vec<Option<String>>>)
    ensures
        captures_view(r) == regex_captures(pattern@, text@),
{
    let re = regex::Regex::new(pattern).ok()?;
    let caps = re.captures(text)?;
    Some(caps.iter().map(|g| g.map(|m| m.as_str().to_string())).collect())
}

// ------------------------------------------------------------------ chrono

/// Result of `chrono::NaiveDateTime::parse_from_str(text, format)`, read as a UTC
/// instant: `None` when chrono rejects the text. A function of its arguments alone.
pub uninterp spec fn naive_datetime(text: Seq<char>, format: Seq<char>) -> Option<Timestamp>;

/// Result of `chrono::NaiveDate::parse_from_str(text, format)`, at midnight UTC:
/// `None` when chrono rejects the text. A function of its arguments alone.
pub uninterp spec fn naive_date(text: Seq<char>, format: Seq<char>) -> Option<Timestamp>;

/// Result of `chrono::DateTime::parse_from_rfc3339(text)` as an instant: `None` when
/// chrono rejects the text. A function of the text alone.
pub uninterp spec fn rfc3339(text: Seq<char>) -> Option<Timestamp>;

/// Calls `NaiveDateTime::parse_from_str`; the parsed date and time are taken as UTC.
/// Claims only that the result is the named parse result of its two arguments.
#[verifier::external_body]
pub fn parse_naive_datetime(text: &str, format: &str) -> (r: Option<Timestamp>)
    ensures
        r == naive_datetime(text@, format@),
{
    let d = chrono::NaiveDateTime::parse_from_str(text, format).ok()?.and_utc();
    Some(Timestamp { secs: d.timestamp(), nanos: d.timestamp_subsec_nanos() })
}

/// Calls `NaiveDate::parse_from_str` and takes the day's midnight as UTC. Claims only
/// that the result is the named parse result of its two arguments.
#[verifier::external_body]
pub fn parse_naive_date(text: &str, format: &str) -> (r: Option<Timestamp>)
    ensures
        r == naive_date(text@, format@),
{
    let d = chrono::NaiveDate::parse_from_str(text, format).ok()?.and_hms_opt(0, 0, 0)?.and_utc();
    Some(Timestamp { secs: d.timestamp(), nanos: d.timestamp_subsec_nanos() })
}

/// Calls `DateTime::parse_from_rfc3339`. Claims only that the result is the named
/// parse result of the text.
#[verifier::external_body]
pub fn parse_rfc3339(text: &str) -> (r: Option<Timestamp>)
    ensures
        r == rfc3339(text@),
{
    let d = chrono::DateTime::parse_from_rfc3339(text).ok()?;
    Some(Timestamp { secs: d.timestamp(), nanos: d.timestamp_subsec_nanos() })
}

/// Calls `chrono::Utc::now`. The current time: nothing is claimed of it.
#[verifier::external_body]
pub fn utc_now() -> (r: Timestamp) {
    let d = chrono::Utc::now();
    Timestamp { secs: d.timestamp(), nanos: d.timestamp_subsec_nanos() }
}

// ------------------------------------------------------------------ scraper

#[verifier::external_type_specification]
#[verifier::external_body]
pub struct ExHtml(scraper::Html);

/// An HTML document parsed by `scraper`, kept beside the text it was parsed from.
pub struct Page {
    text: String,
    doc: scraper::Html,
}

impl Page {
    /// The text the document was parsed from.
    pub closed spec fn source(&self) -> Seq<char> {
        self.text@
    }
}

/// Result of `scraper::Selector::parse`: whether the text is a selector it accepts.
pub uninterp spec fn selector_accepted(s: Seq<char>) -> bool;

/// Number of elements that the selector `sel` selects in the document parsed from
/// `html` (`Html::select`). A function of the two texts alone.
pub uninterp spec fn selected_count(html: Seq<char>, sel: Seq<char>) -> nat;

/// Attribute `name` (`ElementRef::attr`) of the `i`-th element, in the order that
/// `Html::select` yields them, that `sel` selects in the document parsed from `html`.
pub uninterp spec fn selected_attr(html: Seq<char>, sel: Seq<char>, i: int, name: Seq<char>) -> Option<Seq<char>>;

/// Text (`ElementRef::text`, the descendant text nodes joined) of each descendant that
/// `inner` selects (`ElementRef::select`, in tree order) within the `i`-th element that
/// `Html::select` yields for `sel` in the document parsed from `html`.
pub uninterp spec fn selected_inner_texts(html: Seq<char>, sel: Seq<char>, i: int, inner: Seq<char>) -> Seq<Seq<char>>;

/// Attribute `name` of each descendant that `inner` selects (`ElementRef::select`, in
/// tree order) within the `i`-th element that `Html::select` yields for `sel` in the
/// document parsed from `html`.
pub uninterp spec fn selected_inner_attrs(html: Seq<char>, sel: Seq<char>, i: int, inner: Seq<char>, name: Seq<char>) -> Seq<Option<Seq<char>>>;

/// Calls `scraper::Selector::parse`. Claims only that it succeeds exactly when the
/// named acceptance holds of the text.
#[verifier::external_body]
pub fn selector_ok(s: &str) -> (r: bool)
    ensures
        r == selector_accepted(s@),
{
    scraper::Selector::parse(s).is_ok()
}

/// Calls `scraper::Html::parse_document` and keeps the text. Claims only that the page
/// remembers the text it was parsed from.
#[verifier::external_body]
pub fn parse_page(html: &str) -> (r: Page)
    ensures
        r.source() == html@,
{
    Page { text: html.to_string(), doc: scraper::Html::parse_document(html) }
}

/// Calls `Html::select` and counts the matches. Claims only that the count is the
/// named count for the page's text and the selector.
#[verifier::external_body]
pub fn count_selected(page: &Page, sel: &str) -> (r: usize)
    requires
        selector_accepted(sel@),
    ensures
        r == selected_count(page.source(), sel@),
{
    let s = scraper::Selector::parse(sel).unwrap();
    page.doc.select(&s).count()
}

/// Calls `Html::select`, takes the `i`-th match and calls `ElementRef::attr` on it.
/// Claims only that the value is the named attribute.
#[verifier::external_body]
pub fn attr_of_selected(page: &Page, sel: &str, i: usize, name: &str) -> (r: Option<String>)
    requires
        selector_accepted(sel@),
        i < selected_count(page.source(), sel@),
    ensures
        opt_string_view(r) == selected_attr(page.source(), sel@, i as int, name@),
{
    let s = scraper::Selector::parse(sel).unwrap();
    page.doc.select(&s).nth(i).unwrap().attr(name).map(|v| v.to_string())
}

/// Calls `Html::select`, takes the `i`-th match, calls `ElementRef::select` on it and
/// `ElementRef::text` on each descendant found. Claims only that the texts are the
/// named ones.
#[verifier::external_body]
pub fn inner_texts_of_selected(page: &Page, sel: &str, i: usize, inner: &str) -> (r: Vec<String>)
    requires
        selector_accepted(sel@),
        selector_accepted(inner@),
        i < selected_count(page.source(), sel@),
    ensures
        r@.map_values(|t: String| t@) == selected_inner_texts(page.source(), sel@, i as int, inner@),
{
    let s = scraper::Selector::parse(sel).unwrap();
    let t = scraper::Selector::parse(inner).unwrap();
    let el = page.doc.select(&s).nth(i).unwrap();
    el.select(&t).map(|e| e.text().collect()).collect()
}

/// Calls `Html::select`, takes the `i`-th match, calls `ElementRef::select` on it and
/// `ElementRef::attr` on each descendant found. Claims only that the values are the
/// named ones.
#[verifier::external_body]
pub fn inner_attrs_of_selected(page: &Page, sel: &str, i: usize, inner: &str, name: &str) -> (r: Vec<Option<String>>)
    requires
        selector_accepted(sel@),
        selector_accepted(inner@),
        i < selected_count(page.source(), sel@),
    ensures
        r@.map_values(|a: Option<String>| opt_string_view(a)) == selected_inner_attrs(page.source(), sel@, i as int, inner@, name@),
{
    let s = scraper::Selector::parse(sel).unwrap();
    let t = scraper::Selector::parse(inner).unwrap();
    let el = page.doc.select(&s).nth(i).unwrap();
    el.select(&t).map(|e| e.attr(name).map(|v| v.to_string())).collect()
}

/// The view of an optional string.
pub open spec fn opt_string_view(o: Option<String>) -> Option<Seq<char>> {
    match o {
        Some(t) => Some(t@),
        None => None,
    }
}

} // verus!
