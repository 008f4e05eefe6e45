//! A plain model of JSON documents, filled by `serde_json`, and the lookups
//! that the kernel databases and translation files need.

use vstd::prelude::*;

use crate::text::str_equal;

verus! {

/// A JSON value. Numbers keep the text that `serde_json` prints for them; the
/// members of an object come in the order of `serde_json`'s map, each key once.
pub enum JsonValue {
    Null,
    Bool(bool),
    Number(String),
    Str(String),
    Array(Vec<JsonValue>),
    Object(Vec<JsonMember>),
}

/// One member of a JSON object.
pub struct JsonMember {
    pub key: String,
    pub value: JsonValue,
}

#[verifier::external_type_specification]
#[verifier::external_body]
pub struct ExSerdeJsonValue(serde_json::Value);

/// What `serde_json::from_str::<serde_json::Value>` yields for a text, carried
/// over into `JsonValue`; `None` where it reports an error.
pub uninterp spec fn spec_parse_json(text: Seq<char>) -> Option<JsonValue>;

/// Trusted: converts a `serde_json::Value` into a `JsonValue`, variant by
/// variant (numbers through their `Display` text). Nothing is stated of the
/// result; `parse_json` states the outcome of parsing and converting together.
#[verifier::external_body]
fn json_from_serde(v: &serde_json::Value) -> JsonValue {
    match v {
        serde_json::Value::Null => JsonValue::Null,
        serde_json::Value::Bool(b) => JsonValue::Bool(*b),
        serde_json::Value::Number(n) => JsonValue::Number(n.to_string()),
        serde_json::Value::String(s) => JsonValue::Str(s.clone()),
        serde_json::Value::Array(a) => JsonValue::Array(a.iter().map(json_from_serde).collect()),
        serde_json::Value::Object(m) => JsonValue::Object(
            m.iter().map(|(k, x)| JsonMember { key: k.clone(), value: json_from_serde(x) }).collect(),
        ),
    }
}

/// Trusted: `serde_json::from_str::<serde_json::Value>`, converted into a
/// `JsonValue`. The contract names the result `spec_parse_json` of the text's
/// characters; the JSON grammar itself is not restated here.
#[verifier::external_body]
pub(crate) fn parse_json(text: &str) -> (r: Option<JsonValue>)
    ensures
        r == spec_parse_json(text@),
{
    serde_json::from_str::<serde_json::Value>(text).ok().map(|v| json_from_serde(&v))
}

/// The value of the last member of `ms` with the given key.
pub open spec fn member_value(ms: Seq<JsonMember>, key: Seq<char>) -> Option<JsonValue>
    decreases ms.len(),
{
    if ms.len() == 0 {
        None
    } else if ms.last().key@ == key {
        Some(ms.last().value)
    } else {
        member_value(ms.drop_last(), key)
    }
}

/// `v[key]` as `serde_json` indexes a value by a string: the member's value for
/// an object that has the key, `Null` in every other case.
pub open spec fn json_index(v: JsonValue, key: Seq<char>) -> JsonValue {
    match v {
        JsonValue::Object(ms) => match member_value(ms@, key) {
            Some(x) => x,
            None => JsonValue::Null,
        },
        _ => JsonValue::Null,
    }
}

/// `v.as_str()`: the characters of a string value.
pub open spec fn json_str(v: JsonValue) -> Option<Seq<char>> {
    match v {
        JsonValue::Str(s) => Some(s@),
        _ => None,
    }
}

/// The string stored under `key` in `v`, as `v[key].as_str()` gives it.
pub open spec fn json_str_field(v: JsonValue, key: Seq<char>) -> Option<Seq<char>> {
    json_str(json_index(v, key))
}

/// Looks up the member of an object with the given key, as `v[key]` does;
/// `None` stands for the `Null` that `serde_json` returns when there is none.
pub fn json_get<'a>(v: &'a JsonValue, key: &str) -> (r: Option<&'a JsonValue>)
    ensures
        r matches Some(x) ==> json_index(*v, key@) == *x,
        r is None ==> json_index(*v, key@) == JsonValue::Null,
{
    match v {
        JsonValue::Object(ms) => {
            let mut i: usize = ms.len();
            assert(ms@.take(i as int) =~= ms@);
            while i > 0
                invariant
                    i <= ms@.len(),
                    *v == JsonValue::Object(*ms),
                    member_value(ms@, key@) == member_value(ms@.take(i as int), key@),
                decreases i,
            {
                proof {
                    assert(ms@.take(i as int).drop_last() =~= ms@.take(i - 1));
                    assert(ms@.take(i as int).last() == ms@[i - 1]);
                }
                if str_equal(ms[i - 1].key.as_str(), key) {
                    assert(member_value(ms@.take(i as int), key@) == Some(ms@[i - 1].value));
                    return Some(&ms[i - 1].value);
                }
                i = i - 1;
            }
            None
        },
        _ => None,
    }
}

/// The string stored under `key` in `v`, as `v[key].as_str()` gives it.
pub fn json_get_str(v: &JsonValue, key: &str) -> (r: Option<String>)
    ensures
        r matches Some(s) ==> json_str_field(*v, key@) == Some(s@),
        r is None ==> json_str_field(*v, key@) is None,
{
    match json_get(v, key) {
        Some(JsonValue::Str(s)) => Some(s.clone()),
        _ => None,
    }
}

} // verus!
