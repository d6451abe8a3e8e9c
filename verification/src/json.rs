//! Reading JSON: the arguments a model hands to a tool, and the frames of a stream.

use vstd::prelude::*;

use crate::duplicate;

verus! {

/// `serde_json::Value`: any JSON value.
#[verifier::external_type_specification]
#[verifier::external_body]
pub struct ExJsonValue(serde_json::Value);

/// The value that a text states; `None` where it is no JSON.
pub uninterp spec fn parsed(text: Seq<char>) -> Option<serde_json::Value>;

/// The members of a JSON object, by name; none where the value is no object.
pub uninterp spec fn members(value: serde_json::Value) -> Map<Seq<char>, serde_json::Value>;

/// The text of a JSON string; `None` where the value is no string.
pub uninterp spec fn text_of(value: serde_json::Value) -> Option<Seq<char>>;

/// The JSON number as an `i64`; `None` where the value is no number or does not fit.
pub uninterp spec fn integer_of(value: serde_json::Value) -> Option<i64>;

/// `serde_json::from_str` into a `serde_json::Value`: the outcome depends on the text
/// alone, and an error is handed on as `None`.
#[verifier::external_body]
pub(crate) fn parse(text: &str) -> (r: Option<serde_json::Value>)
    ensures
        r == parsed(text@),
{
    serde_json::from_str(text).ok()
}

/// `serde_json::Value::get` with a text index: the member of that name, where the
/// value is an object that has one.
#[verifier::external_body]
pub(crate) fn member<'a>(value: &'a serde_json::Value, name: &str) -> (r: Option<
    &'a serde_json::Value,
>)
    ensures
        match r {
            Some(m) => members(*value).contains_key(name@) && members(*value)[name@] == *m,
            None => !members(*value).contains_key(name@),
        },
{
    value.get(name)
}

/// `serde_json::Value::as_str`: the text of a string value, `None` for any other.
pub assume_specification[ serde_json::Value::as_str ](value: &serde_json::Value) -> (r: Option<
    &str,
>)
    ensures
        match r {
            Some(s) => text_of(*value) == Some(s@),
            None => text_of(*value) is None,
        },
;

/// `serde_json::Value::as_i64`: the integer of a number value that fits, `None` for any
/// other.
pub assume_specification[ serde_json::Value::as_i64 ](value: &serde_json::Value) -> (r: Option<i64>)
    ensures
        r == integer_of(*value),
;

/// The members of a JSON object that are strings, by name.
pub open spec fn string_members(value: serde_json::Value) -> Map<Seq<char>, Seq<char>> {
    Map::new(
        |name: Seq<char>|
            members(value).contains_key(name) && text_of(members(value)[name]) is Some,
        |name: Seq<char>| text_of(members(value)[name])->0,
    )
}

/// The member of that name, where the value is an object that has one and it is a
/// string.
pub fn string_member<'a>(value: &'a serde_json::Value, name: &str) -> (r: Option<&'a str>)
    ensures
        match r {
            Some(s) => string_members(*value).contains_key(name@) && string_members(*value)[name@]
                == s@,
            None => !string_members(*value).contains_key(name@),
        },
{
    match member(value, name) {
        Some(m) => m.as_str(),
        None => None,
    }
}

/// A copy of the member of that name, where it is a string.
pub fn string_member_owned(value: &serde_json::Value, name: &str) -> (r: Option<String>)
    ensures
        duplicate::opt_view(r) == if string_members(*value).contains_key(name@) {
            Some(string_members(*value)[name@])
        } else {
            None
        },
{
    match string_member(value, name) {
        Some(s) => Some(s.to_owned()),
        None => None,
    }
}

} // verus!
