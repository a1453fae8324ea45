//! The calls into `serde_json`. Nothing in this file is proved: each function
//! states what the crate does and is believed.
//!
//! A structured value never enters the verified code. It is stood for by its
//! compact text, which `serde_json::to_string` writes: no whitespace between
//! tokens, the members of an object in the order of the crate's map.

use vstd::prelude::*;

verus! {

/// `serde_json::Error`, carried from the call that failed to `describe`.
#[verifier::external_type_specification]
#[verifier::external_body]
pub struct ExJsonError(serde_json::Error);

/// The compact text of the value that `text` is when it is read as exactly
/// one JSON value with nothing but whitespace around it; `None` where
/// `serde_json::from_str` rejects `text`.
pub uninterp spec fn json_strict(text: Seq<char>) -> Option<Seq<char>>;

/// The compact text of the first JSON value in `text`; `None` where `text`
/// starts with no complete value. After an object, an array or a string
/// anything may follow; a number, `true`, `false` or `null` must be followed
/// by whitespace, a delimiter or the end of the text.
pub uninterp spec fn json_leading(text: Seq<char>) -> Option<Seq<char>>;

/// The indented text of the value that `text` is when read strictly; `None`
/// where `serde_json::from_str` rejects `text`.
pub uninterp spec fn json_pretty(text: Seq<char>) -> Option<Seq<char>>;

/// `serde_json::from_str` into a `Value`, written back by
/// `serde_json::to_string`. The result is a function of `text` alone, named
/// `json_strict`; an error is the parser's.
#[verifier::external_body]
pub(crate) fn read_strict(text: &str) -> (r: Result<String, serde_json::Error>)
    ensures
        match r {
            Ok(compact) => json_strict(text@) == Some(compact@),
            Err(_) => json_strict(text@) is None,
        },
{
    let value: serde_json::Value = serde_json::from_str(text)?;
    serde_json::to_string(&value)
}

/// The first item of `serde_json::Deserializer::from_str(text).into_iter()`,
/// written back by `serde_json::to_string`: the stream skips whitespace,
/// reads one value and leaves what follows it unread. `None` is the
/// stream's own: `text` holds nothing but whitespace. The result is a
/// function of `text` alone, named `json_leading`.
#[verifier::external_body]
pub(crate) fn read_leading(text: &str) -> (r: Option<Result<String, serde_json::Error>>)
    ensures
        match r {
            Some(Ok(compact)) => json_leading(text@) == Some(compact@),
            _ => json_leading(text@) is None,
        },
{
    let mut stream = serde_json::Deserializer::from_str(text).into_iter::<serde_json::Value>();
    stream.next().map(|item| item.and_then(|value| serde_json::to_string(&value)))
}

/// `serde_json::from_str` into a `Value`, written by
/// `serde_json::to_string_pretty`. The result is a function of `text` alone,
/// named `json_pretty`.
#[verifier::external_body]
pub(crate) fn write_pretty(text: &str) -> (r: Result<String, serde_json::Error>)
    ensures
        match r {
            Ok(pretty) => json_pretty(text@) == Some(pretty@),
            Err(_) => json_pretty(text@) is None,
        },
{
    let value: serde_json::Value = serde_json::from_str(text)?;
    serde_json::to_string_pretty(&value)
}

/// The `Display` text of a `serde_json::Error`: what went wrong and where.
/// Nothing is claimed of it.
#[verifier::external_body]
pub(crate) fn describe(error: &serde_json::Error) -> (text: String) {
    error.to_string()
}

} // verus!
