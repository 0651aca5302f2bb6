//! Lists of strings as JSON text, as the cache stores them.

use vstd::prelude::*;

verus! {

/// The error type of `serde_json`, carried through and never looked into.
#[verifier::external_type_specification]
#[verifier::external_body]
pub struct ExJsonError(serde_json::Error);

/// What `serde_json::to_string` gives for a list of strings: the JSON text, or `None`
/// where it reports an error.
pub uninterp spec fn json_of_strings(list: Seq<Seq<char>>) -> Option<Seq<char>>;

/// What `serde_json::from_str` reads from a text as a list of strings: the list, or
/// `None` where it reports an error.
pub uninterp spec fn strings_of_json(text: Seq<char>) -> Option<Seq<Seq<char>>>;

/// The JSON text that stands for `list` in the cache: what `serde_json` writes, or the
/// empty text where it reports an error.
pub open spec fn encoded_strings(list: Seq<Seq<char>>) -> Seq<char> {
    match json_of_strings(list) {
        Some(text) => text,
        None => Seq::empty(),
    }
}

/// Writes `list` as JSON.
///
/// Trusted: calls `serde_json::to_string` on the list. The contract says no more than
/// that its outcome depends on the strings of the list alone.
#[verifier::external_body]
fn write_strings(list: &Vec<String>) -> (r: Result<String, serde_json::Error>)
    ensures
        json_of_strings(list.deep_view()) == match r {
            Ok(text) => Some(text@),
            Err(_) => None,
        },
{
    serde_json::to_string(list)
}

/// Reads a list of strings from JSON.
///
/// Trusted: calls `serde_json::from_str` for a `Vec<String>`. The contract says no more
/// than that its outcome depends on the characters of the text alone.
#[verifier::external_body]
fn read_strings(text: &str) -> (r: Result<Vec<String>, serde_json::Error>)
    ensures
        strings_of_json(text@) == match r {
            Ok(list) => Some(list.deep_view()),
            Err(_) => None,
        },
{
    serde_json::from_str(text)
}

/// The JSON text for `list`, empty where `list` cannot be written.
pub fn encode_strings(list: &Vec<String>) -> (r: String)
    ensures
        r@ == encoded_strings(list.deep_view()),
{
    match write_strings(list) {
        Ok(text) => text,
        Err(_) => String::new(),
    }
}

/// The list of strings that `text` holds as JSON, `None` where it holds none.
pub fn decode_strings(text: &str) -> (r: Option<Vec<String>>)
    ensures
        r.deep_view() == strings_of_json(text@),
{
    match read_strings(text) {
        Ok(list) => Some(list),
        Err(_) => None,
    }
}

} // verus!
