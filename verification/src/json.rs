//! Reading a provider's reply as JSON.
//!
//! The parsing is `serde_json`'s. What it makes of a text is not proved
//! here: the two functions below state it over a name.

use vstd::prelude::*;

verus! {

#[verifier::external_type_specification]
#[verifier::external_body]
pub struct ExJsonValue(serde_json::Value);

#[verifier::external_type_specification]
#[verifier::external_body]
pub struct ExJsonError(serde_json::Error);

/// The members of a JSON object whose values are strings, by key. A value
/// that is no object has none.
pub uninterp spec fn string_members(value: serde_json::Value) -> Map<Seq<char>, Seq<char>>;

/// The string members of the JSON value that a text is parsed to, or `None`
/// where the text is not one well-formed JSON value.
pub uninterp spec fn parsed_string_members(text: Seq<char>) -> Option<Map<Seq<char>, Seq<char>>>;

/// Calls `serde_json::from_str` for a `serde_json::Value`. It succeeds on the
/// texts that hold exactly one JSON value, and the value it gives depends on
/// the text alone.
#[verifier::external_body]
pub(crate) fn parse_json(text: &str) -> (r: Result<serde_json::Value, serde_json::Error>)
    ensures
        r is Ok <==> parsed_string_members(text@) is Some,
        r matches Ok(value) ==> string_members(value) == parsed_string_members(text@)->0,
{
    serde_json::from_str::<serde_json::Value>(text)
}

/// Calls `serde_json::Value::get` with a string key and hands the member out
/// as a string. `get` gives a member only of an object that has the key, and
/// `Value::as_str` gives a text only where the member is a JSON string.
#[verifier::external_body]
pub(crate) fn string_member(value: &serde_json::Value, key: &str) -> (r: Option<String>)
    ensures
        r is Some <==> string_members(*value).contains_key(key@),
        r matches Some(s) ==> s@ == string_members(*value)[key@],
{
    Some(value.get(key)?.as_str()?.to_owned())
}

/// The value of the string member `key` of the JSON object that `text` holds;
/// `None` where the text is not JSON, not an object, or has no such string.
pub open spec fn json_text_member(text: Seq<char>, key: Seq<char>) -> Option<Seq<char>> {
    match parsed_string_members(text) {
        Some(members) => if members.contains_key(key) {
            Some(members[key])
        } else {
            None
        },
        None => None,
    }
}

/// Looks up a string member of a parsed JSON value.
///
/// `parsed` is what parsing a reply gave. The result is the member's text
/// where parsing succeeded and the value is an object with a string under
/// `key`.
pub fn member_of_parsed(parsed: Result<serde_json::Value, serde_json::Error>, key: &str) -> (r:
    Option<String>)
    ensures
        match parsed {
            Ok(value) => {
                &&& r is Some <==> string_members(value).contains_key(key@)
                &&& r matches Some(s) ==> s@ == string_members(value)[key@]
            },
            Err(_) => r is None,
        },
{
    match parsed {
        Ok(value) => string_member(&value, key),
        Err(_) => None,
    }
}

/// Reads the string member `key` out of a JSON text.
pub fn read_text_member(text: &str, key: &str) -> (r: Option<String>)
    ensures
        r is Some <==> json_text_member(text@, key@) is Some,
        r matches Some(s) ==> s@ == json_text_member(text@, key@)->0,
{
    member_of_parsed(parse_json(text), key)
}

} // verus!
