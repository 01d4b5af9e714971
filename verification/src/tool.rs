//! What the engine knows of tools: their specifications and their results.
use vstd::prelude::*;

use crate::json::JsonValue;
use crate::sorting::{sort_by_key, sorted_by_key, stable_arrangement, SortKey};
use crate::text::{lemma_seq_lt_irreflexive, lemma_seq_lt_total, lemma_seq_lt_transitive, owned, seq_lt, str_lt};

verus! {

#[verifier::external_type_specification]
#[verifier::external_body]
pub struct ExSerdeJsonValue(serde_json::Value);

/// The text that `serde_json::to_string_pretty` writes for a value.
pub uninterp spec fn json_pretty(v: JsonValue) -> Seq<char>;

/// The `serde_json` value with the same content.
#[verifier::external_body]
fn to_serde(v: &JsonValue) -> serde_json::Value {
    match v {
        JsonValue::Null => serde_json::Value::Null,
        JsonValue::Bool(b) => serde_json::Value::Bool(*b),
        JsonValue::Number(n) => n.parse::<serde_json::Number>().map(serde_json::Value::Number).unwrap_or(serde_json::Value::Null),
        JsonValue::String(s) => serde_json::Value::String(s.clone()),
        JsonValue::Array(items) => serde_json::Value::Array(items.iter().map(to_serde).collect()),
        JsonValue::Object(fields) => serde_json::Value::Object(fields.iter().map(|(k, x)| (k.clone(), to_serde(x))).collect()),
    }
}

/// `serde_json::to_string_pretty`: JSON text with two-space indentation.
/// The text is named, not described; it depends on the value alone.
#[verifier::external_body]
pub(crate) fn pretty_json(v: &JsonValue) -> (r: String)
    ensures
        r@ == json_pretty(*v),
{
    let value = to_serde(v);
    match serde_json::to_string_pretty(&value) {
        Ok(text) => text,
        Err(_) => value.to_string(),
    }
}

#[derive(Clone)]
pub struct ToolSpec {
    pub name: String,
    pub description: String,
    pub input_schema: JsonValue,
}

impl ToolSpec {
    /// A tool whose input schema is the string `"string"`.
    pub fn new(name: &str, description: &str) -> (t: Self)
        ensures
            t.name@ == name@,
            t.description@ == description@,
            t.input_schema matches JsonValue::String(s) && s@ == "string"@,
    {
        ToolSpec { name: owned(name), description: owned(description), input_schema: JsonValue::String(owned("string")) }
    }

    /// The same tool with another input schema.
    pub fn with_input_schema(self, input_schema: JsonValue) -> (t: Self)
        ensures
            t.name == self.name,
            t.description == self.description,
            t.input_schema == input_schema,
    {
        ToolSpec { name: self.name, description: self.description, input_schema }
    }
}

pub struct ToolResult {
    pub output: JsonValue,
}

/// How a tool's output reads in a message: a string as it is, any other value
/// as pretty JSON.
pub open spec fn rendered(v: JsonValue) -> Seq<char> {
    match v {
        JsonValue::String(s) => s@,
        _ => json_pretty(v),
    }
}

impl ToolResult {
    pub fn new(output: JsonValue) -> (r: Self)
        ensures
            r.output == output,
    {
        ToolResult { output }
    }

    /// A result whose output is a string.
    pub fn text(output: &str) -> (r: Self)
        ensures
            r.output matches JsonValue::String(s) && s@ == output@,
    {
        ToolResult { output: JsonValue::String(owned(output)) }
    }

    /// The output as message text.
    pub fn render(&self) -> (r: String)
        ensures
            r@ == rendered(self.output),
    {
        render_value(&self.output)
    }
}

/// A value as message text: a string as it is, any other value as pretty JSON.
pub fn render_value(v: &JsonValue) -> (r: String)
    ensures
        r@ == rendered(*v),
{
    match v {
        JsonValue::String(s) => s.clone(),
        _ => pretty_json(v),
    }
}

impl SortKey for ToolSpec {
    open spec fn before(&self, other: &Self) -> bool {
        seq_lt(self.name@, other.name@)
    }

    fn goes_before(&self, other: &Self) -> (r: bool) {
        str_lt(self.name.as_str(), other.name.as_str())
    }

    proof fn lemma_strict_weak_order(a: &Self, b: &Self, c: &Self) {
        lemma_seq_lt_irreflexive(a.name@);
        if seq_lt(a.name@, b.name@) && seq_lt(b.name@, c.name@) {
            lemma_seq_lt_transitive(a.name@, b.name@, c.name@);
        }
        lemma_seq_lt_total(a.name@, b.name@);
        lemma_seq_lt_total(b.name@, c.name@);
        if seq_lt(a.name@, c.name@) && !seq_lt(a.name@, b.name@) && !seq_lt(b.name@, c.name@) {
            if a.name@ == b.name@ {
            } else if b.name@ == c.name@ {
            } else {
                lemma_seq_lt_transitive(c.name@, b.name@, a.name@);
                lemma_seq_lt_total(a.name@, c.name@);
            }
        }
    }
}

/// The specifications ordered by name; specifications with equal names keep their order.
pub fn sort_specs(specs: Vec<ToolSpec>) -> (r: Vec<ToolSpec>)
    ensures
        r@.to_multiset() == specs@.to_multiset(),
        sorted_by_key(r@),
        exists|perm: Seq<int>| stable_arrangement(r@, specs@, perm),
{
    sort_by_key(specs)
}

} // verus!
