//! JSON documents as the library reads them: parsed by `serde_json`, held
//! as plain values, and looked into by verified code.

use vstd::prelude::*;
use crate::text::copy_string;

verus! {

#[verifier::external_type_specification]
#[verifier::external_body]
pub struct ExJsonValue(serde_json::Value);

/// A JSON value. Numbers are kept only as such: nothing here reads their
/// value.
pub enum JsonValue {
    Null,
    Bool(bool),
    Number,
    Str(String),
    Array(Vec<JsonValue>),
    /// The members of an object, each key once.
    Object(Vec<(String, JsonValue)>),
}

/// What `serde_json` parses a text into, as a plain value: `None` when the
/// text is not JSON.
pub uninterp spec fn json_document(text: Seq<char>) -> Option<JsonValue>;

/// Converts a `serde_json::Value` into the library's value, member for
/// member and item for item.
#[verifier::external_body]
fn json_of(value: &serde_json::Value) -> (j: JsonValue) {
    match value {
        serde_json::Value::Null => JsonValue::Null,
        serde_json::Value::Bool(b) => JsonValue::Bool(*b),
        serde_json::Value::Number(_) => JsonValue::Number,
        serde_json::Value::String(s) => JsonValue::Str(s.clone()),
        serde_json::Value::Array(items) => JsonValue::Array(items.iter().map(json_of).collect()),
        serde_json::Value::Object(members) => JsonValue::Object(members.iter().map(|(k, v)| (k.clone(), json_of(v))).collect()),
    }
}

/// Calls `serde_json::from_str::<serde_json::Value>` and converts the
/// document. The result is named `json_document` of the text.
#[verifier::external_body]
pub fn parse_json(text: &str) -> (r: Option<JsonValue>)
    ensures
        r == json_document(text@),
{
    serde_json::from_str::<serde_json::Value>(text).ok().map(|value| json_of(&value))
}

/// The value of the member `key` of the members of an object.
pub open spec fn member(members: Seq<(String, JsonValue)>, key: Seq<char>) -> Option<JsonValue>
    decreases members.len(),
{
    if members.len() == 0 {
        None
    } else if members[0].0@ == key {
        Some(members[0].1)
    } else {
        member(members.drop_first(), key)
    }
}

/// The value of the member `key` of an object; `None` for any other value.
pub open spec fn spec_get(doc: JsonValue, key: Seq<char>) -> Option<JsonValue> {
    match doc {
        JsonValue::Object(members) => member(members@, key),
        _ => None,
    }
}

/// The text of a string value.
pub open spec fn spec_as_str(v: Option<JsonValue>) -> Option<Seq<char>> {
    match v {
        Some(JsonValue::Str(s)) => Some(s@),
        _ => None,
    }
}

/// The text of the string member `key` of an object, if it is one.
pub open spec fn spec_str_member(doc: JsonValue, key: Seq<char>) -> Option<Seq<char>> {
    spec_as_str(spec_get(doc, key))
}

/// The member `key` of an object.
pub fn get<'a>(doc: &'a JsonValue, key: &str) -> (r: Option<&'a JsonValue>)
    ensures
        match r {
            Some(v) => spec_get(*doc, key@) == Some(*v),
            None => spec_get(*doc, key@) is None,
        },
{
    match doc {
        JsonValue::Object(members) => {
            let mut i: usize = 0;
            assert(members@.skip(0) =~= members@);
            while i < members.len()
                invariant
                    i <= members@.len(),
                    spec_get(*doc, key@) == member(members@, key@),
                    member(members@, key@) == member(members@.skip(i as int), key@),
                decreases members@.len() - i,
            {
                assert(members@.skip(i as int).drop_first() =~= members@.skip(i + 1));
                assert(members@.skip(i as int)[0] == members@[i as int]);
                if crate::text::str_is(members[i].0.as_str(), key) {
                    return Some(&members[i].1);
                }
                i = i + 1;
            }
            None
        },
        _ => None,
    }
}

/// The text of a string value.
pub fn as_str(v: Option<&JsonValue>) -> (r: Option<String>)
    ensures
        match r {
            Some(s) => spec_as_str(match v { Some(j) => Some(*j), None => None }) == Some(s@),
            None => spec_as_str(match v { Some(j) => Some(*j), None => None }) is None,
        },
{
    match v {
        Some(JsonValue::Str(s)) => Some(copy_string(s)),
        _ => None,
    }
}

/// The text of the string member `key` of an object.
pub fn str_member(doc: &JsonValue, key: &str) -> (r: Option<String>)
    ensures
        match r {
            Some(s) => spec_str_member(*doc, key@) == Some(s@),
            None => spec_str_member(*doc, key@) is None,
        },
{
    as_str(get(doc, key))
}

/// The texts of the string items of an array, in order; others are passed
/// over.
pub open spec fn spec_strings(items: Seq<JsonValue>) -> Seq<Seq<char>>
    decreases items.len(),
{
    if items.len() == 0 {
        Seq::empty()
    } else {
        let rest = spec_strings(items.drop_last());
        match items.last() {
            JsonValue::Str(s) => rest.push(s@),
            _ => rest,
        }
    }
}

/// The texts of the string items of an array.
pub fn strings_of(items: &Vec<JsonValue>) -> (r: Vec<String>)
    ensures
        crate::text::svs(r@) == spec_strings(items@),
{
    let mut r: Vec<String> = Vec::new();
    let mut i: usize = 0;
    while i < items.len()
        invariant
            i <= items@.len(),
            crate::text::svs(r@) == spec_strings(items@.take(i as int)),
        decreases items@.len() - i,
    {
        assert(items@.take(i + 1).drop_last() =~= items@.take(i as int));
        match &items[i] {
            JsonValue::Str(s) => r.push(copy_string(s)),
            _ => {},
        }
        assert(crate::text::svs(r@) =~= spec_strings(items@.take(i + 1)));
        i = i + 1;
    }
    assert(items@.take(items@.len() as int) =~= items@);
    r
}

} // verus!
