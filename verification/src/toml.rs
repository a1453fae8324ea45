//! String values of the flat configuration dialect: basic strings in double
//! quotes with backslash and quote escaped, literal strings in single quotes.

use crate::chars::{
    extend_chars, from_chars, lemma_trim_tight, subvec, tight, to_chars, trim, trimmed,
};
use vstd::prelude::*;

verus! {

/// How one character is written inside a basic string.
pub open spec fn escape_char(c: char) -> Seq<char> {
    if c == '\\' {
        seq!['\\', '\\']
    } else if c == '"' {
        seq!['\\', '"']
    } else {
        seq![c]
    }
}

/// `s` with every backslash and every double quote preceded by a backslash.
pub open spec fn escape(s: Seq<char>) -> Seq<char>
    decreases s.len(),
{
    if s.len() == 0 {
        Seq::empty()
    } else {
        escape_char(s[0]) + escape(s.skip(1))
    }
}

/// `s` with each occurrence of the pair `a`, `b` replaced by `r`; occurrences
/// are found from left to right and do not overlap.
pub open spec fn replace_pair(s: Seq<char>, a: char, b: char, r: char) -> Seq<char>
    decreases s.len(),
{
    if s.len() < 2 {
        s
    } else if s[0] == a && s[1] == b {
        seq![r] + replace_pair(s.skip(2), a, b, r)
    } else {
        seq![s[0]] + replace_pair(s.skip(1), a, b, r)
    }
}

/// The text that a basic string's body stands for: first every `\"` becomes
/// `"`, then every `\\` becomes `\`.
pub open spec fn unescape(s: Seq<char>) -> Seq<char> {
    replace_pair(replace_pair(s, '\\', '"', '"'), '\\', '\\', '\\')
}

/// `s` written as a basic string.
pub open spec fn quoted(s: Seq<char>) -> Seq<char> {
    seq!['"'] + escape(s) + seq!['"']
}

/// `s` begins with `q` and ends with another `q`.
pub open spec fn enclosed(s: Seq<char>, q: char) -> bool {
    s.len() >= 2 && s[0] == q && s.last() == q
}

/// The string that the text `raw` denotes: the unescaped body of a basic
/// string, the body of a literal string as it stands, and nothing for any
/// other text. Whitespace around the text is ignored.
pub open spec fn toml_value(raw: Seq<char>) -> Option<Seq<char>> {
    let t = trim(raw);
    if enclosed(t, '"') {
        Some(unescape(t.subrange(1, t.len() - 1)))
    } else if enclosed(t, '\'') {
        Some(t.subrange(1, t.len() - 1))
    } else {
        None
    }
}

/// `s` with every backslash doubled.
pub open spec fn double_backslashes(s: Seq<char>) -> Seq<char>
    decreases s.len(),
{
    if s.len() == 0 {
        Seq::empty()
    } else if s[0] == '\\' {
        seq!['\\', '\\'] + double_backslashes(s.skip(1))
    } else {
        seq![s[0]] + double_backslashes(s.skip(1))
    }
}

/// Escaping never shortens a text, and what it writes never starts with a quote.
proof fn lemma_escape_head(s: Seq<char>)
    ensures
        escape(s).len() >= s.len(),
        escape(s).len() > 0 ==> escape(s)[0] != '"',
    decreases s.len(),
{
    if s.len() > 0 {
        lemma_escape_head(s.skip(1));
    }
}

/// The first pass of unescaping removes exactly the backslashes that
/// escaping put before quotes.
proof fn lemma_unquote_step(s: Seq<char>)
    ensures
        replace_pair(escape(s), '\\', '"', '"') == double_backslashes(s),
    decreases s.len(),
{
    if s.len() > 0 {
        let c = s[0];
        let rest = s.skip(1);
        let e = escape(s);
        lemma_unquote_step(rest);
        lemma_escape_head(rest);
        if c == '"' {
            assert(e.skip(2) =~= escape(rest));
        } else if c == '\\' {
            let e1 = e.skip(1);
            assert(e1 =~= seq!['\\'] + escape(rest));
            if e1.len() >= 2 {
                assert(e1[1] == escape(rest)[0]);
                assert(e1.skip(1) =~= escape(rest));
            } else {
                assert(escape(rest) =~= Seq::<char>::empty());
                assert(rest.len() == 0);
            }
            assert(replace_pair(e, '\\', '"', '"') =~= seq!['\\'] + replace_pair(
                e1,
                '\\',
                '"',
                '"',
            ));
        } else {
            if e.len() >= 2 {
                assert(e.skip(1) =~= escape(rest));
            } else {
                assert(escape(rest) =~= Seq::<char>::empty());
                assert(rest.len() == 0);
            }
        }
    }
}

/// The second pass of unescaping undoes the doubling of backslashes.
proof fn lemma_halve_step(s: Seq<char>)
    ensures
        replace_pair(double_backslashes(s), '\\', '\\', '\\') == s,
    decreases s.len(),
{
    if s.len() > 0 {
        let c = s[0];
        let rest = s.skip(1);
        let d = double_backslashes(s);
        lemma_halve_step(rest);
        if c == '\\' {
            assert(d.skip(2) =~= double_backslashes(rest));
            assert(seq!['\\'] + rest =~= s);
        } else {
            if d.len() >= 2 {
                assert(d.skip(1) =~= double_backslashes(rest));
                assert(seq![c] + rest =~= s);
            } else {
                assert(double_backslashes(rest) =~= Seq::<char>::empty());
                lemma_double_len(rest);
                assert(d =~= s);
            }
        }
    }
}

/// Doubling backslashes never shortens a text.
proof fn lemma_double_len(s: Seq<char>)
    ensures
        double_backslashes(s).len() >= s.len(),
    decreases s.len(),
{
    if s.len() > 0 {
        lemma_double_len(s.skip(1));
    }
}

/// Unescaping undoes escaping.
pub proof fn lemma_unescape_escape(s: Seq<char>)
    ensures
        unescape(escape(s)) == s,
{
    lemma_unquote_step(s);
    lemma_halve_step(s);
}

/// A basic string denotes the text it was written from.
pub proof fn lemma_value_of_quoted(s: Seq<char>)
    ensures
        toml_value(quoted(s)) == Some(s),
        tight(quoted(s)),
        quoted(s).len() >= 2,
{
    let q = quoted(s);
    assert(q[0] == '"');
    assert(q.last() == '"');
    lemma_trim_tight(q);
    assert(q.subrange(1, q.len() - 1) =~= escape(s));
    lemma_unescape_escape(s);
}

/// Escaping brings in no character but backslashes and quotes.
pub proof fn lemma_escape_keeps_absent(s: Seq<char>, c: char)
    requires
        c != '\\',
        c != '"',
        !s.contains(c),
    ensures
        !escape(s).contains(c),
        !quoted(s).contains(c),
    decreases s.len(),
{
    if s.len() > 0 {
        let rest = s.skip(1);
        assert(s[0] != c);
        assert forall|j: int| 0 <= j < rest.len() implies rest[j] != c by {
            assert(rest[j] == s[j + 1]);
        }
        if rest.contains(c) {
            let j = choose|j: int| 0 <= j < rest.len() && rest[j] == c;
            assert(false);
        }
        lemma_escape_keeps_absent(rest, c);
        let e = escape(s);
        let h = escape_char(s[0]);
        assert forall|j: int| 0 <= j < e.len() implies e[j] != c by {
            if j >= h.len() {
                assert(e[j] == escape(rest)[j - h.len()]);
                assert(escape(rest).contains(e[j]));
            }
        }
    }
    let e = escape(s);
    let q = quoted(s);
    assert forall|j: int| 0 <= j < q.len() implies q[j] != c by {
        if 1 <= j < q.len() - 1 {
            assert(q[j] == e[j - 1]);
            assert(e.contains(q[j]));
        }
    }
}

/// `s` with backslashes and quotes escaped.
fn escape_chars(s: &[char]) -> (out: Vec<char>)
    ensures
        out@ == escape(s@),
{
    let mut out: Vec<char> = Vec::new();
    let mut i: usize = 0;
    proof {
        assert(s@.skip(0) =~= s@);
    }
    while i < s.len()
        invariant
            i <= s.len(),
            escape(s@) == out@ + escape(s@.skip(i as int)),
        decreases s.len() - i,
    {
        let c = s[i];
        let ghost before = out@;
        if c == '\\' || c == '"' {
            out.push('\\');
        }
        out.push(c);
        proof {
            let tail = s@.skip(i as int);
            assert(tail[0] == c);
            assert(tail.skip(1) =~= s@.skip(i + 1));
            assert(out@ =~= before + escape_char(c));
            assert(before + (escape_char(c) + escape(tail.skip(1))) =~= (before + escape_char(c))
                + escape(tail.skip(1)));
        }
        i += 1;
    }
    proof {
        assert(out@ + Seq::<char>::empty() =~= out@);
    }
    out
}

/// `s` with each pair `a`, `b` replaced by `r`, from left to right.
fn replace_pair_chars(s: &[char], a: char, b: char, r: char) -> (out: Vec<char>)
    ensures
        out@ == replace_pair(s@, a, b, r),
{
    let mut out: Vec<char> = Vec::new();
    let mut i: usize = 0;
    proof {
        assert(s@.skip(0) =~= s@);
    }
    while i < s.len()
        invariant
            i <= s.len(),
            replace_pair(s@, a, b, r) == out@ + replace_pair(s@.skip(i as int), a, b, r),
        decreases s.len() - i,
    {
        let ghost before = out@;
        let ghost tail = s@.skip(i as int);
        if s.len() - i >= 2 && s[i] == a && s[i + 1] == b {
            out.push(r);
            proof {
                assert(tail[0] == a && tail[1] == b);
                assert(tail.skip(2) =~= s@.skip(i + 2));
                assert(before + (seq![r] + replace_pair(tail.skip(2), a, b, r)) =~= before.push(r)
                    + replace_pair(tail.skip(2), a, b, r));
            }
            i += 2;
        } else {
            out.push(s[i]);
            proof {
                assert(tail[0] == s@[i as int]);
                if tail.len() >= 2 {
                    assert(tail[1] == s@[i + 1]);
                    assert(tail.skip(1) =~= s@.skip(i + 1));
                    assert(before + (seq![tail[0]] + replace_pair(tail.skip(1), a, b, r))
                        =~= before.push(tail[0]) + replace_pair(tail.skip(1), a, b, r));
                } else {
                    assert(s@.skip(i + 1) =~= Seq::<char>::empty());
                    assert(before + tail =~= before.push(tail[0]) + replace_pair(
                        s@.skip(i + 1),
                        a,
                        b,
                        r,
                    ));
                }
            }
            i += 1;
        }
    }
    proof {
        assert(out@ + Seq::<char>::empty() =~= out@);
    }
    out
}

/// The basic string for `value` as a character vector.
pub(crate) fn quoted_chars(value: &[char]) -> (out: Vec<char>)
    ensures
        out@ == quoted(value@),
{
    let mut out: Vec<char> = Vec::new();
    out.push('"');
    let body = escape_chars(value);
    extend_chars(&mut out, body.as_slice());
    out.push('"');
    proof {
        assert(out@ =~= quoted(value@));
    }
    out
}

/// What the characters `raw` denote as a string value.
pub(crate) fn value_of_chars(raw: &[char]) -> (r: Option<Vec<char>>)
    ensures
        match r {
            Some(v) => toml_value(raw@) == Some(v@),
            None => toml_value(raw@) is None,
        },
{
    let t = trimmed(raw);
    let n = t.len();
    if n >= 2 && t[0] == '"' && t[n - 1] == '"' {
        let body = subvec(t.as_slice(), 1, n - 1);
        let once = replace_pair_chars(body.as_slice(), '\\', '"', '"');
        Some(replace_pair_chars(once.as_slice(), '\\', '\\', '\\'))
    } else if n >= 2 && t[0] == '\'' && t[n - 1] == '\'' {
        Some(subvec(t.as_slice(), 1, n - 1))
    } else {
        None
    }
}

/// Reads a string value: a basic string, whose escapes are undone, or a
/// literal string, taken as it stands. Surrounding whitespace is ignored;
/// empty text and anything else gives `None`.
pub fn parse_toml_string_value(raw: &str) -> (r: Option<String>)
    ensures
        match r {
            Some(v) => toml_value(raw@) == Some(v@),
            None => toml_value(raw@) is None,
        },
{
    let chars = to_chars(raw);
    match value_of_chars(chars.as_slice()) {
        Some(v) => Some(from_chars(v.as_slice())),
        None => None,
    }
}

/// Writes `value` as a basic string: in double quotes, with each backslash
/// and each double quote preceded by a backslash.
pub fn serialize_toml_string_value(value: &str) -> (text: String)
    ensures
        text@ == quoted(value@),
{
    let chars = to_chars(value);
    let out = quoted_chars(chars.as_slice());
    from_chars(out.as_slice())
}

} // verus!
