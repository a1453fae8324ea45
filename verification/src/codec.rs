//! The flat `key = value` text form of a configuration table.
//!
//! A file is a sequence of lines. A line that is blank or starts with `#`
//! says nothing; a line `key = value` gives a recognised key the string that
//! `value` denotes; any other line is ignored.

use crate::chars::{
    extend_chars, find_char, first_index, from_chars, is_space, lemma_first_index_is,
    lemma_trim_padded, lemma_trim_tight, same_chars, to_chars, trim, trimmed,
};
use crate::config::{key_order, lemma_key_order_complete, ConfigKey, ConfigTable, ConfigView};
use crate::toml::{
    lemma_escape_keeps_absent, lemma_value_of_quoted, quoted, quoted_chars, toml_value,
    value_of_chars,
};
use vstd::prelude::*;
use vstd::slice::slice_subrange;

verus! {

/// The comment that every written table starts with.
pub open spec fn header() -> Seq<char> {
    "# Mindwtr desktop config"@
}

/// The first of `keys` that is written as `name`.
pub open spec fn key_among(name: Seq<char>, keys: Seq<ConfigKey>) -> Option<ConfigKey>
    decreases keys.len(),
{
    if keys.len() == 0 {
        None
    } else if keys[0].spec_name() == name {
        Some(keys[0])
    } else {
        key_among(name, keys.skip(1))
    }
}

/// The key that is written as `name`.
pub open spec fn key_named(name: Seq<char>) -> Option<ConfigKey> {
    key_among(name, key_order())
}

/// The line that gives `key` the value `value`.
pub open spec fn entry_line(key: ConfigKey, value: Seq<char>) -> Seq<char> {
    key.spec_name() + seq![' ', '=', ' '] + quoted(value)
}

/// What is written for `key`: its line and a line feed where it has a value, nothing otherwise.
pub open spec fn entry(table: ConfigView, key: ConfigKey) -> Seq<char> {
    match table.get(key) {
        Some(value) => entry_line(key, value) + seq!['\n'],
        None => Seq::empty(),
    }
}

/// What is written for `keys`, in their order.
pub open spec fn entries(table: ConfigView, keys: Seq<ConfigKey>) -> Seq<char>
    decreases keys.len(),
{
    if keys.len() == 0 {
        Seq::empty()
    } else {
        entry(table, keys[0]) + entries(table, keys.skip(1))
    }
}

/// The text form of `table`: the header comment, then one line for each key
/// that has a value, in the fixed order of the keys; every line ends with a
/// line feed.
pub open spec fn encode(table: ConfigView) -> Seq<char> {
    header() + seq!['\n'] + entries(table, key_order())
}

/// The table after one line has been read.
pub open spec fn apply_line(table: ConfigView, line: Seq<char>) -> ConfigView {
    let l = trim(line);
    if l.len() == 0 || l[0] == '#' {
        table
    } else {
        let i = first_index(l, '=');
        if i >= l.len() {
            table
        } else {
            match key_named(trim(l.take(i as int))) {
                Some(key) => table.set(key, toml_value(l.skip(i as int + 1))),
                None => table,
            }
        }
    }
}

/// The table after the lines of `text` have been read in order, starting from `table`.
pub open spec fn decode_from(text: Seq<char>, table: ConfigView) -> ConfigView
    decreases text.len(),
{
    if text.len() == 0 {
        table
    } else {
        let n = first_index(text, '\n');
        let next = apply_line(table, text.take(n as int));
        if n < text.len() {
            decode_from(text.skip(n as int + 1), next)
        } else {
            next
        }
    }
}

/// The table that `text` denotes. A later line for a key replaces an earlier
/// one; a line whose value is not a string leaves the key without a value.
pub open spec fn decode(text: Seq<char>) -> ConfigView {
    decode_from(text, ConfigView::empty())
}

/// A lower-case letter or an underscore.
pub open spec fn name_char(c: char) -> bool {
    let n = c as u32;
    0x61 <= n <= 0x7a || n == 0x5f
}

/// A non-empty sequence of lower-case letters and underscores.
pub open spec fn plain(s: Seq<char>) -> bool {
    s.len() > 0 && forall|j: int| 0 <= j < s.len() ==> name_char(#[trigger] s[j])
}

/// The written forms of the keys are plain and pairwise different.
pub proof fn lemma_key_names()
    ensures
        forall|k: ConfigKey| plain(#[trigger] k.spec_name()),
        forall|a: ConfigKey, b: ConfigKey|
            a != b ==> #[trigger] a.spec_name() != #[trigger] b.spec_name(),
{
    reveal_strlit("sync_path");
    reveal_strlit("sync_backend");
    reveal_strlit("webdav_url");
    reveal_strlit("webdav_username");
    reveal_strlit("webdav_password");
    reveal_strlit("cloud_url");
    reveal_strlit("cloud_token");
    reveal_strlit("external_calendars");
    assert forall|k: ConfigKey| plain(#[trigger] k.spec_name()) by {}
    assert forall|a: ConfigKey, b: ConfigKey| a != b implies #[trigger] a.spec_name()
        != #[trigger] b.spec_name() by {
        let x = a.spec_name();
        let y = b.spec_name();
        if x.len() == y.len() {
            assert(x[0] != y[0] || x[7] != y[7]);
        }
    }
}

/// Each key is the key that its written form names.
pub proof fn lemma_key_named(k: ConfigKey)
    ensures
        key_named(k.spec_name()) == Some(k),
{
    lemma_key_names();
    lemma_key_order_complete(k);
    let o = key_order();
    let i = choose|i: int| 0 <= i < o.len() && o[i] == k;
    lemma_key_among(k, o, i);
}

/// A key that occurs in `keys` is found by its written form.
proof fn lemma_key_among(k: ConfigKey, keys: Seq<ConfigKey>, i: int)
    requires
        0 <= i < keys.len(),
        keys[i] == k,
        forall|a: ConfigKey, b: ConfigKey|
            a != b ==> #[trigger] a.spec_name() != #[trigger] b.spec_name(),
    ensures
        key_among(k.spec_name(), keys) == Some(k),
    decreases keys.len(),
{
    if keys[0] != k {
        lemma_key_among(k, keys.skip(1), i - 1);
    }
}

/// Reading the line written for a key gives the key the value it was written from.
pub proof fn lemma_apply_entry_line(table: ConfigView, key: ConfigKey, value: Seq<char>)
    ensures
        apply_line(table, entry_line(key, value)) == table.set(key, Some(value)),
{
    lemma_key_names();
    lemma_key_named(key);
    lemma_value_of_quoted(value);
    let name = key.spec_name();
    let q = quoted(value);
    let line = entry_line(key, value);
    let n = name.len() as int;
    assert(plain(name));
    assert(name_char(name[0]));
    assert(name_char(name[n - 1]));
    assert(line[0] == name[0]);
    assert(line.last() == q.last());
    lemma_trim_tight(line);
    assert forall|j: int| 0 <= j < n + 1 implies line[j] != '=' by {
        if j < n {
            assert(line[j] == name[j]);
            assert(name_char(name[j]));
        }
    }
    assert(line[n + 1] == '=');
    lemma_first_index_is(line, '=', n + 1);
    assert(line.take(n + 1) =~= Seq::<char>::empty() + name + seq![' ']);
    lemma_trim_padded(Seq::empty(), name, seq![' ']);
    assert(line.skip(n + 2) =~= seq![' '] + q + Seq::<char>::empty());
    lemma_trim_padded(seq![' '], q, Seq::empty());
    lemma_trim_tight(q);
}

/// A line that ends with a line feed is read before the text that follows it.
pub proof fn lemma_decode_line(line: Seq<char>, rest: Seq<char>, table: ConfigView)
    requires
        !line.contains('\n'),
    ensures
        decode_from(line + seq!['\n'] + rest, table) == decode_from(rest, apply_line(table, line)),
{
    let text = line + seq!['\n'] + rest;
    let n = line.len() as int;
    assert forall|j: int| 0 <= j < n implies text[j] != '\n' by {
        assert(text[j] == line[j]);
        assert(line.contains(line[j]));
    }
    assert(text[n] == '\n');
    lemma_first_index_is(text, '\n', n);
    assert(text.take(n) =~= line);
    assert(text.skip(n + 1) =~= rest);
}

/// The table `base` with the values that `table` has for `keys`.
pub open spec fn with_values(base: ConfigView, table: ConfigView, keys: Seq<ConfigKey>) -> ConfigView
    decreases keys.len(),
{
    if keys.len() == 0 {
        base
    } else {
        let next = match table.get(keys[0]) {
            Some(value) => base.set(keys[0], Some(value)),
            None => base,
        };
        with_values(next, table, keys.skip(1))
    }
}

/// `with_values` key by key: a key of `keys` that has a value in `table`
/// has that value, every other key has the value of `base`.
proof fn lemma_with_values(base: ConfigView, table: ConfigView, keys: Seq<ConfigKey>, k: ConfigKey)
    ensures
        with_values(base, table, keys).get(k) == if keys.contains(k) && table.get(k) is Some {
            table.get(k)
        } else {
            base.get(k)
        },
    decreases keys.len(),
{
    if keys.len() > 0 {
        let next = match table.get(keys[0]) {
            Some(value) => base.set(keys[0], Some(value)),
            None => base,
        };
        let rest = keys.skip(1);
        lemma_with_values(next, table, rest, k);
        if rest.contains(k) {
            let j = choose|j: int| 0 <= j < rest.len() && rest[j] == k;
            assert(keys[j + 1] == k);
        }
        if keys.contains(k) && keys[0] != k {
            let j = choose|j: int| 0 <= j < keys.len() && keys[j] == k;
            assert(rest[j - 1] == k);
        }
    }
}

/// The line written for a value without line feed holds no line feed.
proof fn lemma_entry_line_single(key: ConfigKey, value: Seq<char>)
    requires
        !value.contains('\n'),
    ensures
        !entry_line(key, value).contains('\n'),
{
    lemma_key_names();
    lemma_escape_keeps_absent(value, '\n');
    let name = key.spec_name();
    let q = quoted(value);
    let line = entry_line(key, value);
    let n = name.len() as int;
    assert(plain(name));
    assert forall|j: int| 0 <= j < line.len() implies line[j] != '\n' by {
        if j < n {
            assert(line[j] == name[j]);
            assert(name_char(name[j]));
        } else if j >= n + 3 {
            assert(line[j] == q[j - n - 3]);
            assert(q.contains(line[j]));
        }
    }
}

/// Reading the lines written for `keys` gives each of them its value.
proof fn lemma_decode_entries(table: ConfigView, keys: Seq<ConfigKey>, base: ConfigView)
    requires
        table.single_line(),
    ensures
        decode_from(entries(table, keys), base) == with_values(base, table, keys),
    decreases keys.len(),
{
    if keys.len() > 0 {
        let k = keys[0];
        let rest = entries(table, keys.skip(1));
        match table.get(k) {
            Some(value) => {
                let line = entry_line(k, value);
                lemma_entry_line_single(k, value);
                lemma_decode_line(line, rest, base);
                lemma_apply_entry_line(base, k, value);
                lemma_decode_entries(table, keys.skip(1), base.set(k, Some(value)));
            },
            None => {
                assert(entries(table, keys) =~= rest);
                lemma_decode_entries(table, keys.skip(1), base);
            },
        }
    }
}

/// Reading what was written gives the table back, for every table none of
/// whose values holds a line feed.
pub proof fn lemma_decode_encode(table: ConfigView)
    requires
        table.single_line(),
    ensures
        decode(encode(table)) == table,
{
    reveal_strlit("# Mindwtr desktop config");
    let h = header();
    let body = entries(table, key_order());
    let empty = ConfigView::empty();
    assert forall|j: int| 0 <= j < h.len() implies h[j] != '\n' by {}
    if h.contains('\n') {
        let j = choose|j: int| 0 <= j < h.len() && h[j] == '\n';
        assert(false);
    }
    lemma_decode_line(h, body, empty);
    assert(h[0] == '#');
    assert(!is_space(h[0]) && !is_space(h.last()));
    lemma_trim_tight(h);
    assert(apply_line(empty, h) == empty);
    lemma_decode_entries(table, key_order(), empty);
    let got = with_values(empty, table, key_order());
    assert forall|k: ConfigKey| got.get(k) == table.get(k) by {
        lemma_with_values(empty, table, key_order(), k);
        lemma_key_order_complete(k);
    }
    assert(got.get(ConfigKey::SyncPath) == table.get(ConfigKey::SyncPath));
    assert(got.get(ConfigKey::SyncBackend) == table.get(ConfigKey::SyncBackend));
    assert(got.get(ConfigKey::WebdavUrl) == table.get(ConfigKey::WebdavUrl));
    assert(got.get(ConfigKey::WebdavUsername) == table.get(ConfigKey::WebdavUsername));
    assert(got.get(ConfigKey::WebdavPassword) == table.get(ConfigKey::WebdavPassword));
    assert(got.get(ConfigKey::CloudUrl) == table.get(ConfigKey::CloudUrl));
    assert(got.get(ConfigKey::CloudToken) == table.get(ConfigKey::CloudToken));
    assert(got.get(ConfigKey::ExternalCalendars) == table.get(ConfigKey::ExternalCalendars));
}

/// The key that the characters `name` are the written form of.
pub(crate) fn key_of_chars(name: &[char]) -> (key: Option<ConfigKey>)
    ensures
        key == key_named(name@),
{
    let keys = ConfigKey::all();
    let mut i: usize = 0;
    proof {
        assert(key_order().skip(0) =~= key_order());
    }
    while i < 8
        invariant
            i <= 8,
            keys@ == key_order(),
            key_order().len() == 8,
            key_named(name@) == key_among(name@, key_order().skip(i as int)),
        decreases 8 - i,
    {
        let k = keys[i];
        let written = to_chars(k.name());
        proof {
            assert(key_order().skip(i as int)[0] == k);
            assert(key_order().skip(i as int).skip(1) =~= key_order().skip(i + 1));
        }
        if same_chars(written.as_slice(), name) {
            return Some(k);
        }
        i += 1;
    }
    None
}

impl ConfigKey {
    /// The key that is written as `name`, if there is one.
    pub fn from_name(name: &str) -> (key: Option<ConfigKey>)
        ensures
            key == key_named(name@),
    {
        let chars = to_chars(name);
        key_of_chars(chars.as_slice())
    }
}

/// Reads one line into `table`.
fn apply_line_chars(table: &mut ConfigTable, line: &[char])
    ensures
        final(table)@ == apply_line(old(table)@, line@),
{
    let l = trimmed(line);
    if l.len() == 0 || l[0] == '#' {
        return ;
    }
    let i = find_char(l.as_slice(), '=');
    if i >= l.len() {
        return ;
    }
    let key_text = trimmed(slice_subrange(l.as_slice(), 0, i));
    proof {
        assert(l@.subrange(0, i as int) =~= l@.take(i as int));
    }
    match key_of_chars(key_text.as_slice()) {
        Some(key) => {
            let after = slice_subrange(l.as_slice(), i + 1, l.len());
            proof {
                assert(l@.subrange(i + 1, l.len() as int) =~= l@.skip(i + 1));
            }
            let value = match value_of_chars(after) {
                Some(v) => Some(from_chars(v.as_slice())),
                None => None,
            };
            table.set(key, value);
        },
        None => {},
    }
}

/// Reads a table from its text form. Blank lines, comments, lines without
/// `=` and lines for unknown keys are skipped; of several lines for one key
/// the last one counts.
pub fn decode_table(text: &str) -> (table: ConfigTable)
    ensures
        table@ == decode(text@),
{
    let chars = to_chars(text);
    let s = chars.as_slice();
    let mut table = ConfigTable::new();
    let mut pos: usize = 0;
    let mut done = false;
    proof {
        assert(s@.skip(0) =~= s@);
    }
    while !done
        invariant
            pos <= s.len(),
            s@ == text@,
            !done ==> decode(text@) == decode_from(s@.skip(pos as int), table@),
            done ==> decode(text@) == table@,
        decreases s.len() - pos + if done { 0int } else { 1int },
    {
        if pos >= s.len() {
            done = true;
        } else {
            let rest = slice_subrange(s, pos, s.len());
            proof {
                assert(s@.subrange(pos as int, s.len() as int) =~= s@.skip(pos as int));
            }
            let n = find_char(rest, '\n');
            let line = slice_subrange(rest, 0, n);
            proof {
                assert(rest@.subrange(0, n as int) =~= rest@.take(n as int));
            }
            apply_line_chars(&mut table, line);
            if n < rest.len() {
                proof {
                    assert(rest@.skip(n + 1) =~= s@.skip(pos + n + 1));
                }
                pos = pos + n + 1;
            } else {
                done = true;
            }
        }
    }
    table
}

/// Writes a table in its text form: the header comment, then `key = "value"`
/// for each key that has a value, one per line.
pub fn encode_table(table: &ConfigTable) -> (text: String)
    ensures
        text@ == encode(table@),
{
    let mut out = to_chars("# Mindwtr desktop config");
    out.push('\n');
    let keys = ConfigKey::all();
    let mut i: usize = 0;
    proof {
        assert(key_order().skip(0) =~= key_order());
    }
    while i < 8
        invariant
            i <= 8,
            keys@ == key_order(),
            key_order().len() == 8,
            encode(table@) == out@ + entries(table@, key_order().skip(i as int)),
        decreases 8 - i,
    {
        let k = keys[i];
        let ghost before = out@;
        let ghost tail = key_order().skip(i as int);
        proof {
            assert(tail[0] == k);
            assert(tail.skip(1) =~= key_order().skip(i + 1));
        }
        match table.get(k) {
            Some(value) => {
                let name = to_chars(k.name());
                extend_chars(&mut out, name.as_slice());
                out.push(' ');
                out.push('=');
                out.push(' ');
                let v = to_chars(value.as_str());
                let q = quoted_chars(v.as_slice());
                extend_chars(&mut out, q.as_slice());
                out.push('\n');
                proof {
                    assert(table@.get(k) == Some(value@));
                    assert(out@ =~= before + entry(table@, k));
                    assert(before + (entry(table@, k) + entries(table@, tail.skip(1))) =~= (before
                        + entry(table@, k)) + entries(table@, tail.skip(1)));
                }
            },
            None => {
                proof {
                    assert(entry(table@, k) + entries(table@, tail.skip(1)) =~= entries(
                        table@,
                        tail.skip(1),
                    ));
                }
            },
        }
        i += 1;
    }
    proof {
        assert(out@ + Seq::<char>::empty() =~= out@);
    }
    from_chars(out.as_slice())
}

} // verus!
