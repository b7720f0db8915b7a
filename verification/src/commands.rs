//! Export helpers: CSV fields.
use vstd::prelude::*;

use crate::text::{chars_of, string_of};

verus! {

/// `s` with every `"` doubled.
pub open spec fn double_quotes(s: Seq<char>) -> Seq<char>
    decreases s.len(),
{
    if s.len() == 0 {
        Seq::empty()
    } else {
        (if s[0] == '"' { seq!['"', '"'] } else { seq![s[0]] }) + double_quotes(s.drop_first())
    }
}

/// A field needs quoting when it holds a comma, a quote or a line break.
pub open spec fn needs_quoting(s: Seq<char>) -> bool {
    s.contains(',') || s.contains('"') || s.contains('\n')
}

/// A CSV field: quoted, with inner quotes doubled, when it holds a comma, a quote or a
/// line break; unchanged otherwise.
pub open spec fn csv_field(s: Seq<char>) -> Seq<char> {
    if needs_quoting(s) {
        seq!['"'] + double_quotes(s) + seq!['"']
    } else {
        s
    }
}

proof fn lemma_double_quotes_append(a: Seq<char>, b: Seq<char>)
    ensures
        double_quotes(a + b) == double_quotes(a) + double_quotes(b),
    decreases a.len(),
{
    if a.len() > 0 {
        lemma_double_quotes_append(a.drop_first(), b);
        assert((a + b).drop_first() == a.drop_first() + b);
        assert((a + b)[0] == a[0]);
    } else {
        assert(a + b == b);
    }
}

/// A CSV field holding `s`.
pub fn csv_escape(s: &str) -> (r: String)
    ensures
        r@ == csv_field(s@),
{
    let v = chars_of(s);
    let mut special = false;
    let mut i: usize = 0;
    while i < v.len()
        invariant
            i <= v.len(),
            special == (exists|j: int| 0 <= j < i && (v@[j] == ',' || v@[j] == '"' || v@[j] == '\n')),
        decreases v.len() - i,
    {
        if v[i] == ',' || v[i] == '"' || v[i] == '\n' {
            special = true;
        }
        i += 1;
    }
    proof {
        if special {
            let j = choose|j: int| 0 <= j < v.len() && (v@[j] == ',' || v@[j] == '"' || v@[j] == '\n');
            if v@[j] == ',' { assert(v@.contains(',')); }
            if v@[j] == '"' { assert(v@.contains('"')); }
            if v@[j] == '\n' { assert(v@.contains('\n')); }
        } else {
            assert(!v@.contains(','));
            assert(!v@.contains('"'));
            assert(!v@.contains('\n'));
        }
    }
    if !special {
        return String::from_str(s);
    }
    let mut out: Vec<char> = Vec::new();
    out.push('"');
    let mut k: usize = 0;
    while k < v.len()
        invariant
            k <= v.len(),
            out@ == seq!['"'] + double_quotes(v@.take(k as int)),
        decreases v.len() - k,
    {
        proof {
            lemma_double_quotes_append(v@.take(k as int), seq![v@[k as int]]);
            assert(v@.take(k + 1) == v@.take(k as int) + seq![v@[k as int]]);
            reveal_with_fuel(double_quotes, 2);
        }
        if v[k] == '"' {
            out.push('"');
            out.push('"');
        } else {
            out.push(v[k]);
        }
        k += 1;
    }
    out.push('"');
    assert(v@.take(v.len() as int) == v@);
    string_of(&out)
}

/// `s` with every doubled quote read back as one quote.
pub open spec fn undouble(s: Seq<char>) -> Seq<char>
    decreases s.len(),
{
    if s.len() == 0 {
        Seq::empty()
    } else if s.len() >= 2 && s[0] == '"' && s[1] == '"' {
        seq!['"'] + undouble(s.skip(2))
    } else {
        seq![s[0]] + undouble(s.drop_first())
    }
}

/// Reads a CSV field back: strips the quotes of a quoted field and undoubles its quotes.
pub open spec fn read_csv_field(f: Seq<char>) -> Seq<char> {
    if f.len() >= 2 && f[0] == '"' && f.last() == '"' {
        undouble(f.subrange(1, f.len() - 1))
    } else {
        f
    }
}

proof fn lemma_undouble_double(s: Seq<char>)
    ensures
        undouble(double_quotes(s)) == s,
    decreases s.len(),
{
    if s.len() > 0 {
        lemma_undouble_double(s.drop_first());
        let d = double_quotes(s);
        let rest = double_quotes(s.drop_first());
        if s[0] == '"' {
            assert(d == seq!['"', '"'] + rest);
            assert(d.skip(2) == rest);
        } else {
            assert(d == seq![s[0]] + rest);
            assert(d.drop_first() == rest);
        }
        assert(seq![s[0]] + s.drop_first() == s);
    }
}

/// Law: a field written by `csv_escape` reads back as the text it was given; a text that
/// needs no quoting is written unchanged.
pub proof fn lemma_csv_roundtrip(s: Seq<char>)
    ensures
        read_csv_field(csv_field(s)) == s,
        !needs_quoting(s) ==> csv_field(s) == s,
{
    if needs_quoting(s) {
        let f = csv_field(s);
        lemma_undouble_double(s);
        assert(f.subrange(1, f.len() - 1) == double_quotes(s));
    } else if s.len() >= 2 && s[0] == '"' {
        assert(s.contains('"'));
    }
}

} // verus!
