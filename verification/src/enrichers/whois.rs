//! WHOIS: which server to ask first, which registry an IANA answer refers to, and the
//! creation date in the answer.
use vstd::prelude::*;

use crate::ext::{
    lowercase, naive_date, opt_string_view, parse_naive_date, parse_rfc3339, rfc3339,
    to_lowercase,
};
use crate::model::Timestamp;
use crate::text::{
    chars_eq_str, lemma_count_leading, other_than, chars_of, ends_with, find_char, find_char_from, find_char_index, occurs_at, slice_of,
    starts_with, string_of, trim, trim_of, trim_str,
};

verus! {

/// The registry of the `.pl` domains.
pub const PL_SERVER: &'static str = "whois.dns.pl";

/// IANA, which names the registry of every other domain in its `refer:` line.
pub const IANA_SERVER: &'static str = "whois.iana.org";

/// The WHOIS server asked first about a domain: the Polish registry for `.pl`, IANA
/// for every other domain.
pub open spec fn server_for(d: Seq<char>) -> Seq<char> {
    if d.len() >= 3 && occurs_at(d, ".pl"@, d.len() - 3) {
        PL_SERVER@
    } else {
        IANA_SERVER@
    }
}

/// The WHOIS server to ask first about `domain`.
pub fn pick_server(domain: &str) -> (r: &'static str)
    ensures
        r@ == server_for(domain@),
{
    let d = chars_of(domain);
    proof {
        reveal_strlit(".pl");
    }
    if ends_with(&d, &chars_of(".pl")) {
        PL_SERVER
    } else {
        IANA_SERVER
    }
}

/// The server that one line of an IANA answer refers to: the trimmed value of a line
/// that starts with `refer:`, when it is not empty.
pub open spec fn line_referral(line: Seq<char>) -> Option<Seq<char>> {
    let l = trim(line);
    if occurs_at(l, "refer:"@, 0) && trim(l.skip(6)).len() > 0 {
        Some(trim(l.skip(6)))
    } else {
        None
    }
}

/// The server that an IANA answer refers to: that of its first `refer:` line.
pub open spec fn referral_in(raw: Seq<char>) -> Option<Seq<char>>
    decreases raw.len(),
{
    let k = find_char(raw, '\n');
    match line_referral(raw.take(k as int)) {
        Some(s) => Some(s),
        None => if k >= raw.len() {
            None
        } else {
            referral_in(raw.skip(k as int + 1))
        },
    }
}

/// The server to ask next, after `asked` gave `answer`: the registry that IANA's answer
/// refers to; none after any other server, nor when IANA names none. The referral is
/// followed once.
pub open spec fn next_server(asked: Seq<char>, answer: Seq<char>) -> Option<Seq<char>> {
    if asked == IANA_SERVER@ {
        referral_in(answer)
    } else {
        None
    }
}

/// The server that one line refers to, if any.
fn line_referral_of(line: &Vec<char>) -> (r: Option<String>)
    ensures
        opt_string_view(r) == line_referral(line@),
{
    let l = trim_of(line);
    proof {
        reveal_strlit("refer:");
    }
    if starts_with(&l, &chars_of("refer:")) {
        let v = trim_of(&slice_of(&l, 6, l.len()));
        assert(l@.subrange(6, l.len() as int) == l@.skip(6));
        if v.len() > 0 {
            Some(string_of(&v))
        } else {
            None
        }
    } else {
        None
    }
}

/// The server to ask after `asked` answered `answer`: the `refer:` server of an IANA
/// answer, else none.
pub fn referral(asked: &str, answer: &str) -> (r: Option<String>)
    ensures
        opt_string_view(r) == next_server(asked@, answer@),
{
    let a = chars_of(asked);
    if !chars_eq_str(&a, IANA_SERVER) {
        return None;
    }
    let v = chars_of(answer);
    let mut pos: usize = 0;
    assert(v@.skip(0) == v@);
    loop
        invariant
            pos <= v.len(),
            referral_in(v@) == referral_in(v@.skip(pos as int)),
            v@ == answer@,
            asked@ == IANA_SERVER@,
        decreases v.len() - pos,
    {
        let end = find_char_from(&v, '\n', pos);
        let line = slice_of(&v, pos, end);
        let ghost rest = v@.skip(pos as int);
        proof {
            assert(line@ == rest.take(find_char(rest, '\n') as int));
        }
        match line_referral_of(&line) {
            Some(s) => {
                return Some(s);
            },
            None => {},
        }
        if end >= v.len() {
            return None;
        }
        proof {
            assert(rest.skip(find_char(rest, '\n') as int + 1) == v@.skip(end + 1));
        }
        pos = end + 1;
    }
}

/// `s` with every `.` and `/` turned into `-`.
pub open spec fn dashed(s: Seq<char>) -> Seq<char> {
    s.map_values(|x: char| if x == '.' || x == '/' { '-' } else { x })
}

/// A registry date: RFC 3339 first; otherwise the first ten characters read as
/// year-month-day, then as day-month-year, with `.` or `/` allowed between the parts.
pub open spec fn date_of(s: Seq<char>) -> Option<Timestamp> {
    let t = trim(s);
    match rfc3339(t) {
        Some(d) => Some(d),
        None => if t.len() < 10 {
            None
        } else {
            let head = dashed(t.take(10));
            match naive_date(head, "%Y-%m-%d"@) {
                Some(d) => Some(d),
                None => naive_date(head, "%d-%m-%Y"@),
            }
        },
    }
}

/// A registry date ("2010.05.01 12:00:00", "2010-05-01T12:00:00Z", "01/05/2010").
pub fn parse_date(s: &str) -> (r: Option<Timestamp>)
    ensures
        r == date_of(s@),
{
    let t = trim_str(s);
    let ts = string_of(&t);
    match parse_rfc3339(ts.as_str()) {
        Some(d) => return Some(d),
        None => {},
    }
    if t.len() < 10 {
        return None;
    }
    let mut head: Vec<char> = Vec::new();
    let mut i: usize = 0;
    while i < 10
        invariant
            i <= 10 <= t.len(),
            head@ == dashed(t@.take(i as int)),
        decreases 10 - i,
    {
        let c = t[i];
        if c == '.' || c == '/' {
            head.push('-');
        } else {
            head.push(c);
        }
        i += 1;
        assert(head@ =~= dashed(t@.take(i as int)));
    }
    let hs = string_of(&head);
    match parse_naive_date(hs.as_str(), "%Y-%m-%d") {
        Some(d) => Some(d),
        None => parse_naive_date(hs.as_str(), "%d-%m-%Y"),
    }
}

/// A line that names the creation date: "created:", "creation date:",
/// "registered on:" or "registration date:", in any case.
pub open spec fn is_creation_key(lower: Seq<char>) -> bool {
    occurs_at(lower, "created:"@, 0) || occurs_at(lower, "creation date:"@, 0) || occurs_at(
        lower,
        "registered on:"@,
        0,
    ) || occurs_at(lower, "registration date:"@, 0)
}

/// The creation date that one line of a WHOIS answer gives, if any.
pub open spec fn line_date(line: Seq<char>) -> Option<Timestamp> {
    let l = trim(line);
    let k = find_char(l, ':');
    if is_creation_key(lowercase(l)) && k < l.len() {
        date_of(l.skip(k as int + 1))
    } else {
        None
    }
}

/// The creation date of a WHOIS answer: the first line that gives one.
pub open spec fn created_in(raw: Seq<char>) -> Option<Timestamp>
    decreases raw.len(),
{
    let k = find_char(raw, '\n');
    match line_date(raw.take(k as int)) {
        Some(d) => Some(d),
        None => if k >= raw.len() {
            None
        } else {
            created_in(raw.skip(k as int + 1))
        },
    }
}

/// Law: a line of a WHOIS answer names the creation date exactly when, trimmed and
/// lower-cased, it starts with `created:`, `creation date:`, `registered on:` or
/// `registration date:` and has a `:`; the date is then the one written after its
/// first `:`. Any other line names none.
pub proof fn lemma_creation_keys(line: Seq<char>)
    ensures
        ({
            let l = trim(line);
            let lower = lowercase(l);
            let k = find_char(l, ':');
            let keyed = occurs_at(lower, "created:"@, 0) || occurs_at(lower, "creation date:"@, 0)
                || occurs_at(lower, "registered on:"@, 0) || occurs_at(
                lower,
                "registration date:"@,
                0,
            );
            &&& keyed && k < l.len() ==> line_date(line) == date_of(l.skip(k as int + 1))
            &&& !(keyed && k < l.len()) ==> line_date(line) is None
        }),
{
}

/// Law: the creation date of a WHOIS answer is that of its first line when that line
/// names one; otherwise the first line is passed over and the rest of the answer decides.
pub proof fn lemma_first_dated_line(line: Seq<char>, rest: Seq<char>)
    requires
        !line.contains('\n'),
    ensures
        line_date(line) is Some ==> created_in(line + seq!['\n'] + rest) == line_date(line),
        line_date(line) is None ==> created_in(line + seq!['\n'] + rest) == created_in(rest),
{
    let raw = line + seq!['\n'] + rest;
    let k = line.len() as int;
    assert forall|j: int| 0 <= j < k implies #[trigger] other_than('\n')(raw[j]) by {
        assert(raw[j] == line[j]);
        if line[j] == '\n' {
            assert(line.contains('\n'));
        }
    }
    assert(raw[k] == '\n');
    lemma_count_leading(raw, other_than('\n'), k);
    assert(find_char(raw, '\n') == k);
    assert(raw.take(k) == line);
    assert(raw.skip(k + 1) == rest);
}

/// The creation date that one line of a WHOIS answer gives, if any.
fn line_date_of(line: &Vec<char>) -> (r: Option<Timestamp>)
    ensures
        r == line_date(line@),
{
    let l = trim_of(line);
    let ls = string_of(&l);
    let lower = chars_of(to_lowercase(ls.as_str()).as_str());
    let keyed = starts_with(&lower, &chars_of("created:")) || starts_with(
        &lower,
        &chars_of("creation date:"),
    ) || starts_with(&lower, &chars_of("registered on:")) || starts_with(
        &lower,
        &chars_of("registration date:"),
    );
    let k = find_char_index(&l, ':');
    if keyed && k < l.len() {
        let value = string_of(&slice_of(&l, k + 1, l.len()));
        assert(value@ == l@.skip(k + 1));
        parse_date(value.as_str())
    } else {
        None
    }
}

/// The creation date given by the first line of a WHOIS answer that names one with a
/// date that parses.
pub fn parse_created(raw: &str) -> (r: Option<Timestamp>)
    ensures
        r == created_in(raw@),
{
    let v = chars_of(raw);
    let mut pos: usize = 0;
    assert(v@.skip(0) == v@);
    loop
        invariant
            pos <= v.len(),
            created_in(v@) == created_in(v@.skip(pos as int)),
            v@ == raw@,
        decreases v.len() - pos,
    {
        let end = find_char_from(&v, '\n', pos);
        let line = slice_of(&v, pos, end);
        let ghost rest = v@.skip(pos as int);
        proof {
            assert(line@ == rest.take(find_char(rest, '\n') as int));
        }
        match line_date_of(&line) {
            Some(d) => {
                return Some(d);
            },
            None => {},
        }
        if end >= v.len() {
            return None;
        }
        proof {
            assert(rest.skip(find_char(rest, '\n') as int + 1) == v@.skip(end + 1));
        }
        pos = end + 1;
    }
}

} // verus!
