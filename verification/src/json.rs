//! What the library has from `serde_json`. The functions here are believed, not proved; each says
//! what is claimed of the calls that it makes. JSON values pass through the library as their text.

use serde_json::Value;
use vstd::prelude::*;

use crate::text;

verus! {

/// The member `key` of the JSON object that `text` holds, where it is a boolean.
pub uninterp spec fn json_bool(text: Seq<char>, key: Seq<char>) -> Option<bool>;

/// The member `key` of the JSON object that `text` holds, where it is a string.
pub uninterp spec fn json_str(text: Seq<char>, key: Seq<char>) -> Option<Seq<char>>;

/// The member `key` of the JSON object that `text` holds, where it is an integer from 0 that fits
/// 64 bits.
pub uninterp spec fn json_u64(text: Seq<char>, key: Seq<char>) -> Option<u64>;

/// The JSON value that `text` holds, written over several lines, or what is wrong with the text.
pub uninterp spec fn json_pretty(text: Seq<char>) -> Result<Seq<char>, Seq<char>>;

/// A character as it stands inside a JSON string: quotes, backslashes and the characters below the
/// space are escaped, those without a short form by their code in hexadecimal.
pub open spec fn json_char(c: char) -> Seq<char> {
    match c {
        '"' => seq!['\\', '"'],
        '\\' => seq!['\\', '\\'],
        '\n' => seq!['\\', 'n'],
        '\r' => seq!['\\', 'r'],
        '\t' => seq!['\\', 't'],
        '\u{8}' => seq!['\\', 'b'],
        '\u{c}' => seq!['\\', 'f'],
        _ => if (c as u32) < 0x20 {
            seq!['\\', 'u', '0', '0'] + text::hex(seq![c as u8])
        } else {
            seq![c]
        },
    }
}

/// The characters of a JSON string between its quotes.
pub open spec fn json_chars(value: Seq<char>) -> Seq<char>
    decreases value.len(),
{
    if value.len() == 0 {
        Seq::empty()
    } else {
        json_chars(value.drop_last()) + json_char(value.last())
    }
}

/// `value` as a JSON string, in quotes and with what needs escaping escaped.
pub open spec fn json_string(value: Seq<char>) -> Seq<char> {
    seq!['"'] + json_chars(value) + seq!['"']
}

/// Calls `serde_json::from_str`, `Value::get` and `Value::as_bool`, and claims that what comes out
/// depends on the text and the key alone. Text that holds no object has no members.
#[verifier::external_body]
pub(crate) fn bool_member(text: &str, key: &str) -> (member: Option<bool>)
    ensures
        member == json_bool(text@, key@),
{
    serde_json::from_str::<Value>(text).ok()?.get(key)?.as_bool()
}

/// Calls `serde_json::from_str`, `Value::get` and `Value::as_str`, and claims that what comes out
/// depends on the text and the key alone. Text that holds no object has no members.
#[verifier::external_body]
pub(crate) fn str_member(text: &str, key: &str) -> (member: Option<String>)
    ensures
        match member {
            Some(value) => json_str(text@, key@) == Some(value@),
            None => json_str(text@, key@) is None,
        },
{
    serde_json::from_str::<Value>(text).ok()?.get(key)?.as_str().map(str::to_owned)
}

/// Calls `serde_json::from_str`, `Value::get` and `Value::as_u64`, and claims that what comes out
/// depends on the text and the key alone. Text that holds no object has no members.
#[verifier::external_body]
pub(crate) fn u64_member(text: &str, key: &str) -> (member: Option<u64>)
    ensures
        member == json_u64(text@, key@),
{
    serde_json::from_str::<Value>(text).ok()?.get(key)?.as_u64()
}

/// Calls `serde_json::from_str` and `serde_json::to_string_pretty`, and claims that the result,
/// either way, depends on the text alone.
#[verifier::external_body]
pub(crate) fn pretty(text: &str) -> (result: Result<String, String>)
    ensures
        match result {
            Ok(written) => json_pretty(text@) == Ok::<Seq<char>, Seq<char>>(written@),
            Err(error) => json_pretty(text@) == Err::<Seq<char>, Seq<char>>(error@),
        },
{
    let value = serde_json::from_str::<Value>(text).map_err(|error| error.to_string())?;
    serde_json::to_string_pretty(&value).map_err(|error| error.to_string())
}

/// Writes a string `Value` with its `Display`, and claims that the text is the string in quotes, with
/// quotes, backslashes and control characters below the space escaped and all else as it is.
#[verifier::external_body]
pub(crate) fn quoted(value: &str) -> (text: String)
    ensures
        text@ == json_string(value@),
{
    Value::from(value).to_string()
}

} // verus!
