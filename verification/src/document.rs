//! Structured documents and their tolerant text codec.
//!
//! A file that another program is rewriting may start with a byte-order
//! mark, end in NUL padding, or hold the new content followed by what is
//! left of the old. Reading forgives all three.

use crate::chars::{from_chars, is_space, is_whitespace, to_chars, trim_end};
use crate::error::StoreError;
use crate::json::{describe, json_leading, json_pretty, json_strict, read_leading, read_strict, write_pretty};
use vstd::prelude::*;
use vstd::slice::slice_subrange;

verus! {

/// `s` without one leading byte-order mark.
pub open spec fn strip_bom(s: Seq<char>) -> Seq<char> {
    if s.len() > 0 && s[0] == '\u{feff}' {
        s.skip(1)
    } else {
        s
    }
}

/// `s` without its trailing NUL characters.
pub open spec fn strip_nuls(s: Seq<char>) -> Seq<char>
    decreases s.len(),
{
    if s.len() > 0 && s.last() == '\0' {
        strip_nuls(s.drop_last())
    } else {
        s
    }
}

/// `raw` without one leading byte-order mark, then without trailing NUL
/// characters, then without trailing whitespace.
pub open spec fn sanitized(raw: Seq<char>) -> Seq<char> {
    trim_end(strip_nuls(strip_bom(raw)))
}

/// Index of the first `{` or `[` in `s`, or `s.len()` where there is none.
pub open spec fn first_opener(s: Seq<char>) -> nat
    decreases s.len(),
{
    if s.len() == 0 || s[0] == '{' || s[0] == '[' {
        0
    } else {
        1 + first_opener(s.skip(1))
    }
}

/// The compact text of the object without members.
pub open spec fn empty_object_text() -> Seq<char> {
    "{}"@
}

/// The compact text of the document that a new installation starts with:
/// no tasks, no projects, no settings.
pub open spec fn skeleton_text() -> Seq<char> {
    "{\"projects\":[],\"settings\":{},\"tasks\":[]}"@
}

/// The document that `raw` is read as, by its compact text. After
/// sanitizing: empty text is the empty object; text that reads strictly is
/// what it reads as; any other text is read from its first `{` or `[` on,
/// for one value, and what follows the value is dropped. `None` where
/// neither reading succeeds.
pub open spec fn relaxed(raw: Seq<char>) -> Option<Seq<char>> {
    let text = sanitized(raw);
    if text.len() == 0 {
        Some(empty_object_text())
    } else if json_strict(text) is Some {
        json_strict(text)
    } else {
        let start = first_opener(text);
        if start < text.len() {
            json_leading(text.skip(start as int))
        } else {
            None
        }
    }
}

/// An index with the properties of `first_opener` is `first_opener`.
proof fn lemma_first_opener_is(s: Seq<char>, i: int)
    requires
        0 <= i <= s.len(),
        forall|j: int| 0 <= j < i ==> s[j] != '{' && s[j] != '[',
        i < s.len() ==> s[i] == '{' || s[i] == '[',
    ensures
        first_opener(s) == i,
    decreases s.len(),
{
    if s.len() == 0 || s[0] == '{' || s[0] == '[' {
    } else {
        let t = s.skip(1);
        assert forall|j: int| 0 <= j < i - 1 implies t[j] != '{' && t[j] != '[' by {
            assert(t[j] == s[j + 1]);
        }
        lemma_first_opener_is(t, i - 1);
    }
}

/// NUL padding after text that does not end in NUL is stripped, all of it.
pub proof fn lemma_strip_nuls_padding(content: Seq<char>, padding: Seq<char>)
    requires
        content.len() > 0 ==> content.last() != '\0',
        forall|j: int| 0 <= j < padding.len() ==> padding[j] == '\0',
    ensures
        strip_nuls(content + padding) == content,
    decreases padding.len(),
{
    let all = content + padding;
    if padding.len() > 0 {
        assert(all.last() == padding.last());
        assert(all.drop_last() =~= content + padding.drop_last());
        lemma_strip_nuls_padding(content, padding.drop_last());
    } else {
        assert(all =~= content);
    }
}

/// Sanitizing removes a byte-order mark put before a text and NUL padding
/// put after it, and nothing else: the text comes back as it was. The text
/// is any that does not itself end in NUL or whitespace; without a mark put
/// before it, it must not start with one.
pub proof fn lemma_sanitize_exact(content: Seq<char>, padding: Seq<char>)
    requires
        content.len() > 0 ==> content.last() != '\0' && !is_space(content.last()),
        forall|j: int| 0 <= j < padding.len() ==> padding[j] == '\0',
    ensures
        sanitized(seq!['\u{feff}'] + content + padding) == content,
        content.len() > 0 && content[0] != '\u{feff}' ==> sanitized(content + padding) == content,
        content.len() == 0 ==> sanitized(padding) == content,
{
    let marked = seq!['\u{feff}'] + content + padding;
    assert(marked[0] == '\u{feff}');
    assert(marked.skip(1) =~= content + padding);
    lemma_strip_nuls_padding(content, padding);
    if content.len() > 0 && content[0] != '\u{feff}' {
        assert((content + padding)[0] == content[0]);
    }
    if content.len() == 0 {
        assert(content + padding =~= padding);
        if padding.len() > 0 {
            assert(padding[0] == '\0');
        }
    }
}

/// Relaxed reading agrees with strict reading wherever strict reading
/// accepts the sanitized text.
pub proof fn lemma_relaxed_extends_strict(raw: Seq<char>)
    ensures
        sanitized(raw).len() > 0 && json_strict(sanitized(raw)) is Some ==> relaxed(raw)
            == json_strict(sanitized(raw)),
{
}

/// A structured document, held as its compact text.
#[derive(Debug, PartialEq, Eq)]
pub struct Document {
    text: String,
}

impl View for Document {
    type V = Seq<char>;

    closed spec fn view(&self) -> Seq<char> {
        self.text@
    }
}

impl Clone for Document {
    fn clone(&self) -> (copy: Document)
        ensures
            copy@ == self@,
    {
        Document { text: self.text.clone() }
    }
}

impl Document {
    /// The object without members.
    pub fn empty_object() -> (doc: Document)
        ensures
            doc@ == empty_object_text(),
    {
        Document { text: "{}".to_owned() }
    }

    /// The document that a new installation starts with.
    pub fn skeleton() -> (doc: Document)
        ensures
            doc@ == skeleton_text(),
    {
        Document { text: "{\"projects\":[],\"settings\":{},\"tasks\":[]}".to_owned() }
    }

    /// The compact text of the document.
    pub fn as_str(&self) -> (text: &str)
        ensures
            text@ == self@,
    {
        self.text.as_str()
    }
}

/// Index one past the last character of `s[..end]` that is not NUL.
fn nul_end(s: &[char], end: usize) -> (i: usize)
    requires
        end <= s.len(),
    ensures
        i <= end,
        s@.take(i as int) == strip_nuls(s@.take(end as int)),
{
    let mut i: usize = end;
    while i > 0 && s[i - 1] == '\0'
        invariant
            i <= end <= s.len(),
            strip_nuls(s@.take(end as int)) == strip_nuls(s@.take(i as int)),
        decreases i,
    {
        proof {
            assert(s@.take(i as int).drop_last() =~= s@.take(i - 1));
        }
        i -= 1;
    }
    i
}

/// Index one past the last character of `s[..end]` that is not whitespace.
fn space_end(s: &[char], end: usize) -> (i: usize)
    requires
        end <= s.len(),
    ensures
        i <= end,
        s@.take(i as int) == trim_end(s@.take(end as int)),
{
    let mut i: usize = end;
    while i > 0 && is_whitespace(s[i - 1])
        invariant
            i <= end <= s.len(),
            trim_end(s@.take(end as int)) == trim_end(s@.take(i as int)),
        decreases i,
    {
        proof {
            assert(s@.take(i as int).drop_last() =~= s@.take(i - 1));
        }
        i -= 1;
    }
    i
}

/// The part of `raw` that sanitizing keeps.
fn sanitize_chars(raw: &[char]) -> (clean: &[char])
    ensures
        clean@ == sanitized(raw@),
{
    let n = raw.len();
    let start: usize = if n > 0 && raw[0] == '\u{feff}' {
        1
    } else {
        0
    };
    let body = slice_subrange(raw, start, n);
    proof {
        assert(raw@.subrange(start as int, n as int) =~= strip_bom(raw@));
        assert(body@.take(body.len() as int) =~= body@);
    }
    let e1 = nul_end(body, body.len());
    let stripped = slice_subrange(body, 0, e1);
    proof {
        assert(body@.subrange(0, e1 as int) =~= body@.take(e1 as int));
        assert(stripped@.take(e1 as int) =~= stripped@);
    }
    let e2 = space_end(stripped, e1);
    proof {
        assert(stripped@.subrange(0, e2 as int) =~= stripped@.take(e2 as int));
    }
    slice_subrange(stripped, 0, e2)
}

/// Strips what a partial write leaves behind: one leading byte-order mark,
/// then trailing NUL characters, then trailing whitespace.
pub fn sanitize(raw: &str) -> (text: String)
    ensures
        text@ == sanitized(raw@),
{
    let chars = to_chars(raw);
    from_chars(sanitize_chars(chars.as_slice()))
}

/// Where the first `{` or `[` of `text` stands, counted in characters.
pub fn find_value_start(text: &str) -> (start: Option<usize>)
    ensures
        match start {
            Some(i) => i == first_opener(text@) && i < text@.len(),
            None => first_opener(text@) == text@.len(),
        },
{
    let chars = to_chars(text);
    let i = opener_index(chars.as_slice());
    if i < chars.len() {
        Some(i)
    } else {
        None
    }
}

/// `text` from its first `{` or `[` on, or `None` where it has neither.
pub fn value_tail(text: &str) -> (tail: Option<String>)
    ensures
        match tail {
            Some(t) => first_opener(text@) < text@.len() && t@ == text@.skip(
                first_opener(text@) as int,
            ),
            None => first_opener(text@) == text@.len(),
        },
{
    let chars = to_chars(text);
    let s = chars.as_slice();
    let start = opener_index(s);
    if start < s.len() {
        proof {
            assert(s@.subrange(start as int, s.len() as int) =~= s@.skip(start as int));
        }
        Some(from_chars(slice_subrange(s, start, s.len())))
    } else {
        None
    }
}

/// Index of the first `{` or `[` in `s`, or the length of `s`.
fn opener_index(s: &[char]) -> (i: usize)
    ensures
        i <= s.len(),
        i == first_opener(s@),
{
    let mut i: usize = 0;
    while i < s.len() && s[i] != '{' && s[i] != '['
        invariant
            i <= s.len(),
            forall|j: int| 0 <= j < i ==> s@[j] != '{' && s@[j] != '[',
        decreases s.len() - i,
    {
        i += 1;
    }
    proof {
        lemma_first_opener_is(s@, i as int);
    }
    i
}

/// Reads a document from text that may be damaged. The text is sanitized;
/// empty text is the empty object; text that reads strictly is taken as it
/// reads; otherwise the first complete value from the first `{` or `[` on is
/// taken and the rest dropped. Fails with `Decode` exactly when neither
/// reading succeeds.
pub fn parse_relaxed(raw: &str) -> (r: Result<Document, StoreError>)
    ensures
        match r {
            Ok(doc) => relaxed(raw@) == Some(doc@),
            Err(e) => relaxed(raw@) is None && e is Decode,
        },
{
    let text = sanitize(raw);
    if text.as_str().is_empty() {
        return Ok(Document::empty_object());
    }
    match read_strict(text.as_str()) {
        Ok(compact) => Ok(Document { text: compact }),
        Err(strict_error) => {
            let leading = match value_tail(text.as_str()) {
                Some(tail) => read_leading(tail.as_str()),
                None => None,
            };
            match leading {
                Some(Ok(compact)) => Ok(Document { text: compact }),
                _ => Err(StoreError::Decode(describe(&strict_error))),
            }
        },
    }
}

/// Writes a document as indented text. Fails with `Decode` exactly when the
/// document's text is not one that reads strictly.
pub fn encode_pretty(doc: &Document) -> (r: Result<String, StoreError>)
    ensures
        match r {
            Ok(text) => json_pretty(doc@) == Some(text@),
            Err(e) => json_pretty(doc@) is None && e is Decode,
        },
{
    match write_pretty(doc.as_str()) {
        Ok(text) => Ok(text),
        Err(error) => Err(StoreError::Decode(describe(&error))),
    }
}

} // verus!
