//! JSON values as the library reads and builds them: tool inputs, tool
//! outputs and request payloads.
use vstd::prelude::*;

use crate::text::str_eq;

verus! {

broadcast use vstd::std_specs::vec::axiom_vec_decreases_to_view;

/// A JSON value. Numbers keep their textual form; an object keeps its fields
/// in order.
pub enum JsonValue {
    Null,
    Bool(bool),
    Number(String),
    String(String),
    Array(Vec<JsonValue>),
    Object(Vec<(String, JsonValue)>),
}

/// Two values with the same content: equal scalars and strings, and arrays
/// and objects whose items (and keys) are the same, in order.
pub open spec fn same_json(a: JsonValue, b: JsonValue) -> bool
    decreases a, 1int,
{
    match (a, b) {
        (JsonValue::Null, JsonValue::Null) => true,
        (JsonValue::Bool(x), JsonValue::Bool(y)) => x == y,
        (JsonValue::Number(x), JsonValue::Number(y)) => x@ == y@,
        (JsonValue::String(x), JsonValue::String(y)) => x@ == y@,
        (JsonValue::Array(x), JsonValue::Array(y)) => same_items(x@, y@),
        (JsonValue::Object(x), JsonValue::Object(y)) => same_fields(x@, y@),
        _ => false,
    }
}

/// Items with the same content, in order.
pub open spec fn same_items(x: Seq<JsonValue>, y: Seq<JsonValue>) -> bool
    decreases x, 0int,
{
    if x.len() != y.len() {
        false
    } else if x.len() == 0 {
        true
    } else {
        same_items(x.drop_last(), y.drop_last()) && same_json(x.last(), y.last())
    }
}

/// Fields with the same keys and values with the same content, in order.
pub open spec fn same_fields(x: Seq<(String, JsonValue)>, y: Seq<(String, JsonValue)>) -> bool
    decreases x, 0int,
{
    if x.len() != y.len() {
        false
    } else if x.len() == 0 {
        true
    } else {
        same_fields(x.drop_last(), y.drop_last()) && x.last().0@ == y.last().0@ && same_json(x.last().1, y.last().1)
    }
}

impl Clone for JsonValue {
    /// A deep copy: the same content.
    fn clone(&self) -> (r: Self)
        ensures
            same_json(*self, r),
    {
        self.deep_copy()
    }
}

impl JsonValue {
    /// A deep copy: the same content.
    pub fn deep_copy(&self) -> (r: Self)
        ensures
            same_json(*self, r),
        decreases self,
    {
        match self {
            JsonValue::Null => JsonValue::Null,
            JsonValue::Bool(b) => JsonValue::Bool(*b),
            JsonValue::Number(n) => JsonValue::Number(n.clone()),
            JsonValue::String(t) => JsonValue::String(t.clone()),
            JsonValue::Array(items) => {
                let mut out: Vec<JsonValue> = Vec::new();
                let mut i: usize = 0;
                while i < items.len()
                    invariant
                        i <= items@.len(),
                        *self == JsonValue::Array(*items),
                        same_items(items@.take(i as int), out@),
                    decreases items.len() - i,
                {
                    proof {
                        assert(decreases_to!(*self => (*self)->Array_0));
                        assert(decreases_to!(*items => items@));
                        assert(decreases_to!(items@ => items@[i as int]));
                    }
                    let c = items[i].deep_copy();
                    let ghost before = out@;
                    out.push(c);
                    proof {
                        assert(items@.take(i + 1).drop_last() =~= items@.take(i as int));
                        assert(out@.drop_last() =~= before);
                        assert(same_items(items@.take(i + 1), out@));
                    }
                    i += 1;
                }
                assert(items@.take(items@.len() as int) =~= items@);
                JsonValue::Array(out)
            },
            JsonValue::Object(fields) => {
                let mut out: Vec<(String, JsonValue)> = Vec::new();
                let mut i: usize = 0;
                while i < fields.len()
                    invariant
                        i <= fields@.len(),
                        *self == JsonValue::Object(*fields),
                        same_fields(fields@.take(i as int), out@),
                    decreases fields.len() - i,
                {
                    proof {
                        assert(decreases_to!(*self => (*self)->Object_0));
                        assert(decreases_to!(*fields => fields@));
                        assert(decreases_to!(fields@ => fields@[i as int]));
                        assert(decreases_to!(fields@[i as int] => fields@[i as int].1));
                    }
                    let c = fields[i].1.deep_copy();
                    let ghost before = out@;
                    out.push((fields[i].0.clone(), c));
                    proof {
                        assert(fields@.take(i + 1).drop_last() =~= fields@.take(i as int));
                        assert(out@.drop_last() =~= before);
                        assert(same_fields(fields@.take(i + 1), out@));
                    }
                    i += 1;
                }
                assert(fields@.take(fields@.len() as int) =~= fields@);
                JsonValue::Object(out)
            },
        }
    }
}

/// The value of the first field named `key`.
pub open spec fn lookup(fields: Seq<(String, JsonValue)>, key: Seq<char>) -> Option<JsonValue>
    decreases fields.len(),
{
    if fields.len() == 0 {
        None
    } else if fields[0].0@ == key {
        Some(fields[0].1)
    } else {
        lookup(fields.drop_first(), key)
    }
}

/// `value.as_object().and_then(|map| map.get(key))`.
pub open spec fn field(v: JsonValue, key: Seq<char>) -> Option<JsonValue> {
    match v {
        JsonValue::Object(fields) => lookup(fields@, key),
        _ => None,
    }
}

/// `Value::as_str`.
pub open spec fn as_text(v: JsonValue) -> Option<Seq<char>> {
    match v {
        JsonValue::String(s) => Some(s@),
        _ => None,
    }
}

/// `Value::as_bool`.
pub open spec fn as_flag(v: JsonValue) -> Option<bool> {
    match v {
        JsonValue::Bool(b) => Some(b),
        _ => None,
    }
}

/// The text of the string field `key` of an object.
pub open spec fn text_field(v: JsonValue, key: Seq<char>) -> Option<Seq<char>> {
    match field(v, key) {
        Some(x) => as_text(x),
        None => None,
    }
}

/// The boolean field `key` of an object.
pub open spec fn flag_field(v: JsonValue, key: Seq<char>) -> Option<bool> {
    match field(v, key) {
        Some(x) => as_flag(x),
        None => None,
    }
}

impl JsonValue {
    /// `value.as_object().and_then(|map| map.get(key))`.
    pub fn get(&self, key: &str) -> (r: Option<&JsonValue>)
        ensures
            r is Some <==> field(*self, key@) is Some,
            r matches Some(x) ==> field(*self, key@) == Some(*x),
    {
        match self {
            JsonValue::Object(fields) => {
                let mut i: usize = 0;
                assert(fields@.skip(0) =~= fields@);
                while i < fields.len()
                    invariant
                        i <= fields@.len(),
                        field(*self, key@) == lookup(fields@, key@),
                        lookup(fields@, key@) == lookup(fields@.skip(i as int), key@),
                    decreases fields.len() - i,
                {
                    assert(fields@.skip(i as int).drop_first() =~= fields@.skip(i + 1));
                    assert(fields@.skip(i as int)[0] == fields@[i as int]);
                    if str_eq(fields[i].0.as_str(), key) {
                        assert(lookup(fields@.skip(i as int), key@) == Some(fields@[i as int].1));
                        return Some(&fields[i].1);
                    }
                    i += 1;
                }
                None
            },
            _ => None,
        }
    }

    /// `Value::as_str`.
    pub fn as_str(&self) -> (r: Option<&str>)
        ensures
            r is Some <==> as_text(*self) is Some,
            r matches Some(s) ==> as_text(*self) == Some(s@),
    {
        match self {
            JsonValue::String(s) => Some(s.as_str()),
            _ => None,
        }
    }

    /// `Value::as_bool`.
    pub fn as_bool(&self) -> (r: Option<bool>)
        ensures
            r == as_flag(*self),
    {
        match self {
            JsonValue::Bool(b) => Some(*b),
            _ => None,
        }
    }

    /// The text of the string field `key` of an object.
    pub fn text_field(&self, key: &str) -> (r: Option<&str>)
        ensures
            r is Some <==> text_field(*self, key@) is Some,
            r matches Some(s) ==> text_field(*self, key@) == Some(s@),
    {
        match self.get(key) {
            Some(v) => v.as_str(),
            None => None,
        }
    }

    /// The boolean field `key` of an object.
    pub fn flag_field(&self, key: &str) -> (r: Option<bool>)
        ensures
            r == flag_field(*self, key@),
    {
        match self.get(key) {
            Some(v) => v.as_bool(),
            None => None,
        }
    }
}

/// The library's value with the content of a `serde_json` value, the
/// object's fields in the map's order.
#[verifier::external_body]
fn from_serde(v: &serde_json::Value) -> JsonValue {
    match v {
        serde_json::Value::Null => JsonValue::Null,
        serde_json::Value::Bool(b) => JsonValue::Bool(*b),
        serde_json::Value::Number(n) => JsonValue::Number(n.to_string()),
        serde_json::Value::String(s) => JsonValue::String(s.clone()),
        serde_json::Value::Array(items) => JsonValue::Array(items.iter().map(from_serde).collect()),
        serde_json::Value::Object(map) => JsonValue::Object(map.iter().map(|(k, x)| (k.clone(), from_serde(x))).collect()),
    }
}

/// The value that `serde_json::from_str` reads from a text, or `None` where
/// the text is not JSON.
pub uninterp spec fn json_parsed(text: Seq<char>) -> Option<JsonValue>;

/// `serde_json::from_str` into a `serde_json::Value`: the parsed value, or
/// `None` on a syntax error. What it reads is named, not described; it
/// depends on the text alone.
#[verifier::external_body]
pub(crate) fn parse_json(text: &str) -> (r: Option<JsonValue>)
    ensures
        r == json_parsed(text@),
{
    match serde_json::from_str::<serde_json::Value>(text) {
        Ok(v) => Some(from_serde(&v)),
        Err(_) => None,
    }
}

/// A JSON string value.
pub fn json_string(s: &str) -> (v: JsonValue)
    ensures
        as_text(v) == Some(s@),
{
    JsonValue::String(String::from_str(s))
}

} // verus!
